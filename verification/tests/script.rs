use dialog_gen::config::DialogConfig;
use dialog_gen::editor::{PodcastEditor, SPEAKER_NAME_LIMIT};
use dialog_gen::ollama::OllamaClient;
use dialog_gen::script::parse_dialog_line;

fn editor() -> PodcastEditor {
    PodcastEditor::new(OllamaClient::new("http://localhost:11434", "m"))
}

fn reparse(script: &str) -> Vec<(String, String)> {
    editor().parse_script(script).into_iter().map(|e| (e.speaker, e.content)).collect()
}

fn prompt(text: &str) -> Vec<(String, String)> {
    DialogConfig::load_prompt(&Some(text.to_string()))
        .unwrap()
        .into_iter()
        .map(|l| (l.speaker, l.content))
        .collect()
}

fn pair(speaker: &str, content: &str) -> (String, String) {
    (speaker.to_string(), content.to_string())
}

#[test]
fn line_without_colon_is_dropped() {
    assert_eq!(reparse("not a speaker line"), Vec::new());
    assert_eq!(prompt("not a speaker line"), Vec::new());
}

#[test]
fn line_with_lowercase_label_is_dropped() {
    assert_eq!(reparse("bob: hi"), Vec::new());
    assert_eq!(prompt("bob: hi"), Vec::new());
    assert_eq!(reparse("bob says: hi"), Vec::new());
    assert_eq!(prompt("bob says: hi"), Vec::new());
}

#[test]
fn line_with_uppercase_label_is_kept() {
    assert_eq!(reparse("Bob: hi"), vec![pair("Bob", "hi")]);
    assert_eq!(prompt("Bob: hi"), vec![pair("Bob", "hi")]);
}

#[test]
fn label_with_digit_or_mark_is_dropped() {
    assert_eq!(reparse("Bob2: hi"), Vec::new());
    assert_eq!(prompt("Bob2: hi"), Vec::new());
    assert_eq!(reparse("Mr. Bob: hi"), Vec::new());
    assert_eq!(prompt("Dr-Bob: hi"), Vec::new());
}

#[test]
fn label_of_several_words_is_kept() {
    assert_eq!(prompt("Bob Smith: hi"), vec![pair("Bob Smith", "hi")]);
    assert_eq!(reparse("BOB SMITH : hi"), vec![pair("BOB SMITH", "hi")]);
}

#[test]
fn label_in_another_script_is_kept() {
    assert_eq!(prompt("\u{c9}lodie: salut"), vec![pair("\u{c9}lodie", "salut")]);
    assert_eq!(prompt("\u{e9}lodie: salut"), Vec::new());
}

#[test]
fn text_is_split_at_the_first_colon_and_trimmed() {
    assert_eq!(prompt("  Bob :   it is 5:30 now  "), vec![pair("Bob", "it is 5:30 now")]);
}

#[test]
fn line_without_text_is_dropped() {
    assert_eq!(prompt("Bob:"), Vec::new());
    assert_eq!(prompt("Bob:    "), Vec::new());
    assert_eq!(reparse("Bob:  \t"), Vec::new());
}

#[test]
fn line_that_begins_with_colon_is_dropped() {
    assert_eq!(prompt(": hi"), Vec::new());
    assert_eq!(reparse(": hi"), Vec::new());
}

#[test]
fn blank_lines_are_skipped() {
    let text = "\n\nAnn: one\n\n   \nBen: two\n\n";
    assert_eq!(prompt(text), vec![pair("Ann", "one"), pair("Ben", "two")]);
    assert_eq!(reparse(text), vec![pair("Ann", "one"), pair("Ben", "two")]);
}

#[test]
fn lines_may_end_with_carriage_return() {
    let text = "Ann: one\r\nnoise\r\nBen: two\r\n";
    assert_eq!(prompt(text), vec![pair("Ann", "one"), pair("Ben", "two")]);
    assert_eq!(reparse(text), vec![pair("Ann", "one"), pair("Ben", "two")]);
}

#[test]
fn order_of_lines_is_kept() {
    let text = "Ann: a\nBen: b\nAnn: c\nAnn: d";
    assert_eq!(reparse(text), vec![pair("Ann", "a"), pair("Ben", "b"), pair("Ann", "c"), pair("Ann", "d")]);
}

#[test]
fn long_speaker_name_is_dropped_when_rereading_only() {
    let long = format!("A{}", "b".repeat(49));
    assert_eq!(long.chars().count(), SPEAKER_NAME_LIMIT);
    let line = format!("{}: hi", long);
    assert_eq!(reparse(&line), Vec::new());
    assert_eq!(prompt(&line), vec![pair(&long, "hi")]);
}

#[test]
fn speaker_name_below_the_limit_is_kept() {
    let name = format!("A{}", "b".repeat(48));
    assert_eq!(name.chars().count(), 49);
    let line = format!("{}: hi", name);
    assert_eq!(reparse(&line), vec![pair(&name, "hi")]);
}

#[test]
fn speaker_name_limit_counts_characters() {
    let name = format!("\u{c9}{}", "\u{e9}".repeat(30));
    assert!(name.len() >= 50);
    let line = format!("{}: hi", name);
    assert_eq!(reparse(&line), vec![pair(&name, "hi")]);
}

#[test]
fn speaker_name_limit_is_measured_after_trimming() {
    let name = format!("A{}", "b".repeat(48));
    let line = format!("{}        : hi", name);
    assert_eq!(reparse(&line), vec![pair(&name, "hi")]);
}

#[test]
fn one_line_is_read_as_speaker_and_text() {
    let line: Vec<char> = " Bob:  hi there ".chars().collect();
    let read = parse_dialog_line(&line, None).unwrap();
    assert_eq!(read.0.iter().collect::<String>(), "Bob");
    assert_eq!(read.1.iter().collect::<String>(), "hi there");
    let none: Vec<char> = "bob: hi".chars().collect();
    assert!(parse_dialog_line(&none, None).is_none());
    assert!(parse_dialog_line(&line, Some(3)).is_none());
    assert!(parse_dialog_line(&line, Some(4)).is_some());
}
