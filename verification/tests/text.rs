use dialog_gen::decimal::{decimal, parse_usize};
use dialog_gen::error::{DialogGenError, Phase};
use dialog_gen::text::{
    append_chars, chars_of, find, lines_of, matches_at, rfind, same_text, slice, string_of,
    trimmed, trimmed_end, trimmed_start, whitespace,
};
use dialog_gen::unicode::{label_chars, lowercase, uppercase};

fn chars(s: &str) -> Vec<char> {
    s.chars().collect()
}

fn text(v: &[char]) -> String {
    v.iter().collect()
}

#[test]
fn white_space_is_what_the_standard_library_says() {
    let mut c = '\0';
    loop {
        assert_eq!(whitespace(c), c.is_whitespace(), "{:?}", c);
        if c == char::MAX {
            break;
        }
        c = match char::from_u32(c as u32 + 1) {
            Some(next) => next,
            None => '\u{e000}',
        };
    }
}

#[test]
fn trimming_is_what_the_standard_library_does() {
    for s in ["", " ", "a", " a", "a ", "  a b  ", "\t\n a\r\n", "\u{a0}x\u{2003}", "\u{3000}",
        " \u{feff}a ", "a\u{200b}", "\u{85}\u{1680}z\u{2028}\u{2029}\u{202f}\u{205f}"]
    {
        assert_eq!(text(&trimmed(&chars(s))), s.trim(), "{:?}", s);
        assert_eq!(text(&trimmed_start(&chars(s))), s.trim_start(), "{:?}", s);
        assert_eq!(text(&trimmed_end(&chars(s))), s.trim_end(), "{:?}", s);
    }
}

#[test]
fn text_and_characters_convert_both_ways() {
    for s in ["", "abc", "h\u{e9}llo \u{1f600}"] {
        assert_eq!(chars_of(s), chars(s));
        assert_eq!(string_of(&chars(s)), s);
    }
    let mut s = "ab".to_string();
    append_chars(&mut s, &chars("cd\u{e9}"));
    assert_eq!(s, "abcd\u{e9}");
}

#[test]
fn texts_are_compared_character_by_character() {
    assert!(same_text(&chars(""), &chars("")));
    assert!(same_text(&chars("abc"), &chars("abc")));
    assert!(!same_text(&chars("abc"), &chars("abd")));
    assert!(!same_text(&chars("abc"), &chars("ab")));
    assert!(!same_text(&chars("ab"), &chars("abc")));
}

#[test]
fn slices_are_cut_by_character() {
    let v = chars("h\u{e9}llo");
    assert_eq!(text(&slice(&v, 1, 3)), "\u{e9}l");
    assert_eq!(text(&slice(&v, 0, 5)), "h\u{e9}llo");
    assert_eq!(text(&slice(&v, 2, 2)), "");
}

#[test]
fn patterns_are_found_first_and_last() {
    let v = chars("a. b. c.");
    assert_eq!(find(&v, &chars(". ")), Some(1));
    assert_eq!(rfind(&v, &chars(". ")), Some(4));
    assert_eq!(find(&v, &chars(".")), Some(1));
    assert_eq!(rfind(&v, &chars(".")), Some(7));
    assert_eq!(find(&v, &chars("x")), None);
    assert_eq!(rfind(&v, &chars("x")), None);
    assert_eq!(find(&v, &chars("a. b. c. d")), None);
    assert_eq!(find(&v, &chars("")), Some(0));
    assert_eq!(rfind(&v, &chars("")), Some(8));
    assert_eq!(find(&chars(""), &chars("")), Some(0));
    assert_eq!(find(&chars("aaa"), &chars("aa")), Some(0));
    assert_eq!(rfind(&chars("aaa"), &chars("aa")), Some(1));
    assert!(matches_at(&v, &chars("b."), 3));
    assert!(!matches_at(&v, &chars("b."), 2));
    assert!(!matches_at(&v, &chars("c.."), 6));
    assert!(!matches_at(&v, &chars("c"), 100));
    assert!(matches_at(&v, &chars(""), 8));
    assert!(!matches_at(&v, &chars(""), 9));
}

#[test]
fn lines_are_the_runs_between_line_feeds() {
    let split = |s: &str| -> Vec<String> { lines_of(&chars(s)).iter().map(|l| text(l)).collect() };
    assert_eq!(split(""), vec![""]);
    assert_eq!(split("a"), vec!["a"]);
    assert_eq!(split("a\nb"), vec!["a", "b"]);
    assert_eq!(split("a\n"), vec!["a", ""]);
    assert_eq!(split("\n\na\r\nb"), vec!["", "", "a\r", "b"]);
}

#[test]
fn trimmed_lines_are_those_of_the_standard_library() {
    for s in ["", "a", "a\nb", "a\n", "a\r\nb\r\n", " x \n\n y\r", "\n", "a\rb\nc"] {
        let mine: Vec<String> = lines_of(&chars(s))
            .iter()
            .map(|l| text(&trimmed(l)))
            .filter(|l| !l.is_empty())
            .collect();
        let theirs: Vec<String> =
            s.lines().map(|l| l.trim().to_string()).filter(|l| !l.is_empty()).collect();
        assert_eq!(mine, theirs, "{:?}", s);
    }
}

#[test]
fn case_is_changed_as_the_standard_library_does() {
    assert_eq!(text(&uppercase(&chars("Alice"))), "ALICE");
    assert_eq!(text(&lowercase(&chars("Alice"))), "alice");
    assert_eq!(text(&uppercase(&chars("stra\u{df}e"))), "STRASSE");
    assert_eq!(text(&lowercase(&chars("\u{c9}LODIE 42"))), "\u{e9}lodie 42");
    assert_eq!(text(&uppercase(&chars(""))), "");
}

#[test]
fn labels_hold_letters_and_white_space_only() {
    assert!(label_chars(&chars("")));
    assert!(label_chars(&chars("Bob Smith")));
    assert!(label_chars(&chars("\u{c9}lodie\t\u{a0}")));
    assert!(!label_chars(&chars("Bob2")));
    assert!(!label_chars(&chars("Bob-Smith")));
    assert!(!label_chars(&chars("Bob.")));
}

#[test]
fn numbers_are_read_as_the_standard_library_reads_them() {
    for s in ["0", "7", "42", "007", "+5", "+0", "", "+", "-", "-5", "++5", "5+", " 5", "5 ", "4.5",
        "1e3", "0x10", "12a", "\u{664}", "18446744073709551615", "18446744073709551616",
        "99999999999999999999999999", "4294967295", "4294967296", "+18446744073709551615",
        "000000000000000000000000000001"]
    {
        assert_eq!(parse_usize(&chars(s)), s.parse::<usize>().ok(), "{:?}", s);
    }
}

#[test]
fn numbers_are_written_in_decimal() {
    for n in [0u128, 1, 9, 10, 11, 99, 100, 101, 1090, 65535, u64::MAX as u128, u128::MAX] {
        assert_eq!(text(&decimal(n)), n.to_string());
    }
}

#[test]
fn written_numbers_are_read_back() {
    for n in [0usize, 1, 9, 10, 99, 100, 12345, usize::MAX] {
        assert_eq!(parse_usize(&decimal(n as u128)), Some(n));
    }
}

#[test]
fn errors_are_shown_with_their_heading() {
    let s = |t: &str| t.to_string();
    assert_eq!(DialogGenError::MissingFile(s("scene.txt")).message(), "Missing required file: scene.txt");
    assert_eq!(
        DialogGenError::OllamaUnavailable(s("http://x")).message(),
        "Ollama server unavailable at http://x"
    );
    assert_eq!(
        DialogGenError::GenerationFailed(s("HTTP 500")).message(),
        "LLM generation failed: HTTP 500"
    );
    assert_eq!(DialogGenError::Io(s("denied")).message(), "IO error: denied");
    assert_eq!(DialogGenError::Http(s("reset")).message(), "HTTP error: reset");
    assert_eq!(DialogGenError::Json(s("eof")).message(), "JSON error: eof");
    assert_eq!(DialogGenError::Io(String::new()).message(), "IO error: ");
}

#[test]
fn reports_name_the_phase_that_failed() {
    let down = DialogGenError::OllamaUnavailable("http://x".to_string());
    assert_eq!(Phase::HealthCheck.describe(), "health check");
    assert_eq!(Phase::Turn(3).describe(), "turn 3 generation");
    assert_eq!(Phase::Editing.describe(), "editing");
    assert_eq!(
        down.report(Phase::HealthCheck),
        "health check failed: Ollama server unavailable at http://x"
    );
    let failed = DialogGenError::GenerationFailed("HTTP 500 Internal Server Error: ".to_string());
    assert_eq!(
        failed.report(Phase::Turn(12)),
        "turn 12 generation failed: LLM generation failed: HTTP 500 Internal Server Error: "
    );
    assert_eq!(
        failed.report(Phase::Editing),
        "editing failed: LLM generation failed: HTTP 500 Internal Server Error: "
    );
}
