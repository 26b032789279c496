//! The grammar of scripted dialog: lines of the form `Speaker: text`.
//!
//! A script is read line by line. A line is a dialog line when it holds a
//! colon, the label before the first colon is not empty, consists of
//! letters and white space only and begins with an upper-case letter, and
//! the text after the colon is not blank. Every other line is passed over.

use crate::text::{
    find, first_index_of, is_trimmed, lemma_first_index_is_least, lemma_no_occurrence,
    lemma_trim_is_trimmed, lemma_trim_keeps_text, slice, split_lines, trim, trimmed,
};
use crate::unicode::{char_is_uppercase, is_label, label_chars};
use vstd::prelude::*;

verus! {

/// One line of dialog: who speaks, and what is said.
pub struct Utterance {
    pub speaker: Seq<char>,
    pub content: Seq<char>,
}

/// The dialog line that `line` holds, if it is one. With a `limit`, a
/// speaker name of `limit` characters or more is no speaker name.
pub open spec fn dialog_line(line: Seq<char>, limit: Option<usize>) -> Option<Utterance> {
    let t = trim(line);
    match first_index_of(t, seq![':']) {
        None => None,
        Some(colon) => {
            let label = t.take(colon);
            let speaker = trim(label);
            let content = trim(t.skip(colon + 1));
            if label.len() > 0 && is_label(label) && char_is_uppercase(label[0]) && content.len()
                > 0 && (limit matches Some(n) ==> speaker.len() < n) {
                Some(Utterance { speaker, content })
            } else {
                None
            }
        },
    }
}

/// What is read from a dialog line is clean: the speaker's name and the
/// text are trimmed and not empty, and the name is within the limit.
pub proof fn lemma_dialog_line_shape(line: Seq<char>, limit: Option<usize>)
    ensures
        dialog_line(line, limit) matches Some(u) ==> {
            &&& u.speaker.len() > 0
            &&& is_trimmed(u.speaker)
            &&& u.content.len() > 0
            &&& is_trimmed(u.content)
            &&& limit matches Some(n) ==> u.speaker.len() < n
        },
{
    let t = trim(line);
    let colon_pat = seq![':'];
    lemma_no_occurrence(t, colon_pat);
    if dialog_line(line, limit) is Some {
        lemma_first_index_is_least(t, colon_pat);
        let colon = first_index_of(t, colon_pat)->0;
        let label = t.take(colon);
        lemma_trim_is_trimmed(line);
        lemma_trim_is_trimmed(label);
        lemma_trim_is_trimmed(t.skip(colon + 1));
        // The label begins as the trimmed line does, so not with white
        // space.
        assert(label.first() == t.first());
        lemma_trim_keeps_text(label, 0);
    }
}

/// The dialog lines among `lines`, in order.
pub open spec fn dialog_lines(lines: Seq<Seq<char>>, limit: Option<usize>) -> Seq<Utterance>
    decreases lines.len(),
{
    if lines.len() == 0 {
        Seq::empty()
    } else {
        let before = dialog_lines(lines.drop_last(), limit);
        match dialog_line(lines.last(), limit) {
            Some(u) => before.push(u),
            None => before,
        }
    }
}

/// The dialog lines of the script `s`, in order.
pub open spec fn script_lines(s: Seq<char>, limit: Option<usize>) -> Seq<Utterance> {
    dialog_lines(split_lines(s), limit)
}

/// Reads one line: the speaker and the text of the dialog line that
/// `line` holds, or `None` where it is no dialog line.
pub fn parse_dialog_line(line: &Vec<char>, limit: Option<usize>) -> (r: Option<
    (Vec<char>, Vec<char>),
>)
    ensures
        match dialog_line(line@, limit) {
            Some(u) => r matches Some(pair) && pair.0@ == u.speaker && pair.1@ == u.content,
            None => r is None,
        },
{
    let t = trimmed(line);
    let mut pat: Vec<char> = Vec::new();
    pat.push(':');
    assert(pat@ =~= seq![':']);
    match find(&t, &pat) {
        None => None,
        Some(colon) => {
            proof {
                assert(t@.take(colon as int) =~= t@.subrange(0, colon as int));
                assert(t@.skip(colon + 1) =~= t@.subrange(colon + 1, t@.len() as int));
            }
            let label = slice(&t, 0, colon);
            let rest = slice(&t, colon + 1, t.len());
            let speaker = trimmed(&label);
            let content = trimmed(&rest);
            let short = match limit {
                Some(n) => speaker.len() < n,
                None => true,
            };
            if label.len() > 0 && label_chars(&label) && label[0].is_uppercase() && content.len()
                > 0 && short {
                Some((speaker, content))
            } else {
                None
            }
        },
    }
}

/// The script of `lines`: for each line the speaker, a colon and a
/// space, the text, and an empty line after it.
pub open spec fn script_text(lines: Seq<Utterance>) -> Seq<char>
    decreases lines.len(),
{
    if lines.len() == 0 {
        Seq::empty()
    } else {
        script_text(lines.drop_last()) + lines.last().speaker + ": "@ + lines.last().content
            + "\n\n"@
    }
}

} // verus!
