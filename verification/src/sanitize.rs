//! Normalising a raw model reply into one clean utterance.
//!
//! The reply is trimmed; a leading speaker label is dropped; one layer of
//! wrapping double quotes is dropped; everything from the first blank line
//! on is dropped; and text of more than [`MAX_UTTERANCE_CHARS`] characters
//! is cut after the last sentence that ends within that bound. Each step
//! works on the trimmed result of the step before it. An empty result is
//! handed on as it is.

use crate::text::{
    contains_text, find, first_index_of, is_trimmed, last_index_of,
    lemma_first_index_is_least, lemma_last_index_is_greatest, lemma_no_occurrence,
    lemma_part_holds_no_more, lemma_trim_is_part, lemma_trim_is_trimmed, lemma_trim_of_trimmed,
    matches_at, occurs_at, rfind, slice, starts_with, texts, trim, trimmed,
};
use crate::unicode::{lowercase, str_to_lowercase, str_to_uppercase, uppercase};
use vstd::prelude::*;

verus! {

/// The number of characters above which an utterance is cut.
pub const MAX_UTTERANCE_CHARS: usize = 500;

/// The labels that a model may put before its reply: the speaker's name
/// as it is written, in upper case, or in lower case, each followed by a
/// colon, or by one space and a colon.
pub open spec fn speaker_prefixes(name: Seq<char>) -> Seq<Seq<char>> {
    seq![
        name.push(':'),
        name.push(' ').push(':'),
        str_to_uppercase(name).push(':'),
        str_to_uppercase(name).push(' ').push(':'),
        str_to_lowercase(name).push(':'),
        str_to_lowercase(name).push(' ').push(':'),
    ]
}

/// `text` without the first of `prefixes` that it begins with.
pub open spec fn strip_first_prefix(text: Seq<char>, prefixes: Seq<Seq<char>>) -> Seq<char>
    decreases prefixes.len(),
{
    if prefixes.len() == 0 {
        text
    } else if starts_with(text, prefixes.first()) {
        text.skip(prefixes.first().len() as int)
    } else {
        strip_first_prefix(text, prefixes.drop_first())
    }
}

/// `text` without a leading label of the speaker `name`.
pub open spec fn strip_speaker_prefix(text: Seq<char>, name: Seq<char>) -> Seq<char> {
    strip_first_prefix(text, speaker_prefixes(name))
}

/// Whether `text` begins and ends with a double quote of its own.
pub open spec fn is_quoted(text: Seq<char>) -> bool {
    text.len() >= 2 && text.first() == '"' && text.last() == '"'
}

/// `text` without one layer of wrapping double quotes.
pub open spec fn strip_quotes(text: Seq<char>) -> Seq<char> {
    if is_quoted(text) {
        text.subrange(1, text.len() - 1)
    } else {
        text
    }
}

/// A paragraph break: two line feeds in a row.
pub open spec fn paragraph_break() -> Seq<char> {
    seq!['\n', '\n']
}

/// The text before the first paragraph break of `text`.
pub open spec fn first_paragraph(text: Seq<char>) -> Seq<char> {
    match first_index_of(text, paragraph_break()) {
        Some(i) => text.take(i),
        None => text,
    }
}

/// `text`, cut where it is longer than [`MAX_UTTERANCE_CHARS`] characters:
/// after the last full stop that a space follows within the first
/// `MAX_UTTERANCE_CHARS` characters; failing that, after the last full
/// stop within them; failing that, not at all.
pub open spec fn truncate_at_sentence(text: Seq<char>) -> Seq<char> {
    if text.len() <= MAX_UTTERANCE_CHARS {
        text
    } else {
        let head = text.take(MAX_UTTERANCE_CHARS as int);
        match last_index_of(head, seq!['.', ' ']) {
            Some(i) => text.take(i + 1),
            None => match last_index_of(head, seq!['.']) {
                Some(i) => text.take(i + 1),
                None => text,
            },
        }
    }
}

/// The clean utterance that the raw reply `raw` of the speaker `name`
/// stands for.
pub open spec fn sanitize(raw: Seq<char>, name: Seq<char>) -> Seq<char> {
    let unlabelled = strip_speaker_prefix(trim(raw), name);
    let unquoted = strip_quotes(trim(unlabelled));
    let paragraph = first_paragraph(trim(unquoted));
    truncate_at_sentence(trim(paragraph))
}

/// Whether `text` is already an utterance as the sanitizer returns it:
/// trimmed, without a leading label of the speaker, not wrapped in
/// quotes, without a paragraph break, and not above the length bound.
pub open spec fn is_clean(text: Seq<char>, name: Seq<char>) -> bool {
    &&& is_trimmed(text)
    &&& forall|i: int|
        0 <= i < speaker_prefixes(name).len() ==> !starts_with(
            text,
            #[trigger] speaker_prefixes(name)[i],
        )
    &&& !is_quoted(text)
    &&& !contains_text(text, paragraph_break())
    &&& text.len() <= MAX_UTTERANCE_CHARS
}

/// Text that begins with none of `prefixes` loses nothing.
proof fn lemma_no_prefix_matches(text: Seq<char>, prefixes: Seq<Seq<char>>)
    requires
        forall|i: int| 0 <= i < prefixes.len() ==> !starts_with(text, #[trigger] prefixes[i]),
    ensures
        strip_first_prefix(text, prefixes) == text,
    decreases prefixes.len(),
{
    if prefixes.len() > 0 {
        assert(!starts_with(text, prefixes[0]));
        let rest = prefixes.drop_first();
        assert forall|i: int| 0 <= i < rest.len() implies !starts_with(
            text,
            #[trigger] rest[i],
        ) by {
            assert(rest[i] == prefixes[i + 1]);
        }
        lemma_no_prefix_matches(text, rest);
    }
}

/// The sanitizer returns a clean utterance unchanged.
pub proof fn lemma_clean_text_unchanged(text: Seq<char>, name: Seq<char>)
    ensures
        is_clean(text, name) ==> sanitize(text, name) == text,
{
    if is_clean(text, name) {
        lemma_trim_of_trimmed(text);
        lemma_no_prefix_matches(text, speaker_prefixes(name));
        lemma_no_occurrence(text, paragraph_break());
    }
}

/// Dropping a prefix makes a text no longer.
proof fn lemma_strip_first_prefix_is_no_longer(text: Seq<char>, prefixes: Seq<Seq<char>>)
    ensures
        strip_first_prefix(text, prefixes).len() <= text.len(),
    decreases prefixes.len(),
{
    if prefixes.len() > 0 && !starts_with(text, prefixes.first()) {
        lemma_strip_first_prefix_is_no_longer(text, prefixes.drop_first());
    }
}

/// The first paragraph is a beginning of the text, and holds no
/// paragraph break.
proof fn lemma_first_paragraph_shape(text: Seq<char>)
    ensures
        first_paragraph(text).len() <= text.len(),
        !contains_text(first_paragraph(text), paragraph_break()),
{
    let pat = paragraph_break();
    lemma_no_occurrence(text, pat);
    if contains_text(text, pat) {
        lemma_first_index_is_least(text, pat);
        let i = first_index_of(text, pat)->0;
        let head = text.take(i);
        assert forall|j: int| !occurs_at(head, pat, j) by {
            if occurs_at(head, pat, j) {
                assert(head.subrange(j, j + pat.len()) =~= text.subrange(j, j + pat.len()));
                assert(occurs_at(text, pat, j));
            }
        }
    }
}

/// What is left of a trimmed text after the cut is a beginning of it,
/// is trimmed, and is either within the length bound or without a full
/// stop in its first [`MAX_UTTERANCE_CHARS`] characters.
proof fn lemma_truncate_shape(text: Seq<char>)
    requires
        is_trimmed(text),
    ensures
        truncate_at_sentence(text).len() <= text.len(),
        truncate_at_sentence(text) == text.take(truncate_at_sentence(text).len() as int),
        is_trimmed(truncate_at_sentence(text)),
        truncate_at_sentence(text).len() > MAX_UTTERANCE_CHARS ==> !contains_text(
            truncate_at_sentence(text).take(MAX_UTTERANCE_CHARS as int),
            seq!['.'],
        ),
{
    let out = truncate_at_sentence(text);
    assert(text.take(text.len() as int) =~= text);
    if text.len() > MAX_UTTERANCE_CHARS {
        let head = text.take(MAX_UTTERANCE_CHARS as int);
        let stop_space = seq!['.', ' '];
        let stop = seq!['.'];
        lemma_no_occurrence(head, stop_space);
        lemma_no_occurrence(head, stop);
        if contains_text(head, stop_space) {
            lemma_last_index_is_greatest(head, stop_space);
            let i = last_index_of(head, stop_space)->0;
            assert(head.subrange(i, i + 2)[0] == '.');
            assert(text[i] == '.');
            assert(out.last() == '.');
            assert(out.first() == text.first());
        } else if contains_text(head, stop) {
            lemma_last_index_is_greatest(head, stop);
            let i = last_index_of(head, stop)->0;
            assert(head.subrange(i, i + 1)[0] == '.');
            assert(text[i] == '.');
            assert(out.last() == '.');
            assert(out.first() == text.first());
        }
    }
}

/// What the sanitizer returns is trimmed, is no longer than the raw
/// reply, holds no paragraph break, and is either within the length bound
/// or without a full stop in its first [`MAX_UTTERANCE_CHARS`] characters.
pub proof fn lemma_sanitized_shape(raw: Seq<char>, name: Seq<char>)
    ensures
        is_trimmed(sanitize(raw, name)),
        sanitize(raw, name).len() <= raw.len(),
        !contains_text(sanitize(raw, name), paragraph_break()),
        sanitize(raw, name).len() > MAX_UTTERANCE_CHARS ==> !contains_text(
            sanitize(raw, name).take(MAX_UTTERANCE_CHARS as int),
            seq!['.'],
        ),
{
    let unlabelled = strip_speaker_prefix(trim(raw), name);
    let unquoted = strip_quotes(trim(unlabelled));
    let paragraph = first_paragraph(trim(unquoted));
    let last = trim(paragraph);
    let out = truncate_at_sentence(last);
    lemma_trim_is_part(raw);
    lemma_strip_first_prefix_is_no_longer(trim(raw), speaker_prefixes(name));
    lemma_trim_is_part(unlabelled);
    lemma_trim_is_part(unquoted);
    lemma_first_paragraph_shape(trim(unquoted));
    let bounds = lemma_trim_is_part(paragraph);
    lemma_part_holds_no_more(paragraph, paragraph_break(), bounds.0, bounds.1);
    lemma_trim_is_trimmed(paragraph);
    lemma_truncate_shape(last);
    assert(out =~= last.subrange(0, out.len() as int));
    lemma_part_holds_no_more(last, paragraph_break(), 0, out.len() as int);
}

/// `text` without `prefix`, where it begins with it.
fn strip_prefix(text: &Vec<char>, prefix: &Vec<char>) -> (r: Option<Vec<char>>)
    ensures
        r is Some <==> starts_with(text@, prefix@),
        r matches Some(rest) ==> rest@ == text@.skip(prefix@.len() as int),
{
    if matches_at(text, prefix, 0) {
        let rest = slice(text, prefix.len(), text.len());
        assert(text@.skip(prefix@.len() as int) =~= text@.subrange(
            prefix@.len() as int,
            text@.len() as int,
        ));
        Some(rest)
    } else {
        None
    }
}

/// `stem` followed by a colon, or by a space and a colon.
fn label_of(stem: &Vec<char>, spaced: bool) -> (r: Vec<char>)
    ensures
        r@ == if spaced {
            stem@.push(' ').push(':')
        } else {
            stem@.push(':')
        },
{
    let mut r = slice(stem, 0, stem.len());
    assert(r@ =~= stem@);
    if spaced {
        r.push(' ');
    }
    r.push(':');
    r
}

/// The labels of the speaker `name`, in the order in which they are tried.
fn prefixes_of(name: &Vec<char>) -> (r: Vec<Vec<char>>)
    ensures
        texts(r@) == speaker_prefixes(name@),
{
    let upper = uppercase(name);
    let lower = lowercase(name);
    let mut r: Vec<Vec<char>> = Vec::new();
    r.push(label_of(name, false));
    r.push(label_of(name, true));
    r.push(label_of(&upper, false));
    r.push(label_of(&upper, true));
    r.push(label_of(&lower, false));
    r.push(label_of(&lower, true));
    assert(texts(r@) =~= speaker_prefixes(name@));
    r
}

/// Drops a leading label of the speaker `name` from `text`.
fn without_speaker_prefix(text: &Vec<char>, name: &Vec<char>) -> (r: Vec<char>)
    ensures
        r@ == strip_speaker_prefix(text@, name@),
{
    let prefixes = prefixes_of(name);
    let ghost all = texts(prefixes@);
    let mut i: usize = 0;
    assert(all.skip(0) =~= all);
    while i < prefixes.len()
        invariant
            i <= prefixes.len(),
            all == texts(prefixes@),
            all == speaker_prefixes(name@),
            strip_first_prefix(text@, all.skip(i as int)) == strip_speaker_prefix(text@, name@),
        decreases prefixes.len() - i,
    {
        let ghost rest = all.skip(i as int);
        assert(rest.first() == prefixes@[i as int]@);
        assert(rest.drop_first() =~= all.skip(i + 1));
        match strip_prefix(text, &prefixes[i]) {
            Some(stripped) => {
                return stripped;
            },
            None => {},
        }
        i += 1;
    }
    let r = slice(text, 0, text.len());
    assert(r@ =~= text@);
    r
}

/// Drops one layer of wrapping double quotes from `text`.
fn without_quotes(text: &Vec<char>) -> (r: Vec<char>)
    ensures
        r@ == strip_quotes(text@),
{
    let n = text.len();
    if n >= 2 && text[0] == '"' && text[n - 1] == '"' {
        slice(text, 1, n - 1)
    } else {
        let r = slice(text, 0, n);
        assert(r@ =~= text@);
        r
    }
}

/// Keeps what stands before the first paragraph break of `text`.
fn only_first_paragraph(text: &Vec<char>) -> (r: Vec<char>)
    ensures
        r@ == first_paragraph(text@),
{
    let mut pat: Vec<char> = Vec::new();
    pat.push('\n');
    pat.push('\n');
    assert(pat@ =~= paragraph_break());
    match find(text, &pat) {
        Some(i) => {
            assert(text@.take(i as int) =~= text@.subrange(0, i as int));
            slice(text, 0, i)
        },
        None => {
            let r = slice(text, 0, text.len());
            assert(r@ =~= text@);
            r
        },
    }
}

/// Cuts `text` at a sentence end where it is too long.
fn truncated(text: &Vec<char>) -> (r: Vec<char>)
    ensures
        r@ == truncate_at_sentence(text@),
{
    let n = text.len();
    if n <= MAX_UTTERANCE_CHARS {
        let r = slice(text, 0, n);
        assert(r@ =~= text@);
        return r;
    }
    let head = slice(text, 0, MAX_UTTERANCE_CHARS);
    assert(head@ =~= text@.take(MAX_UTTERANCE_CHARS as int));
    let mut stop_space: Vec<char> = Vec::new();
    stop_space.push('.');
    stop_space.push(' ');
    assert(stop_space@ =~= seq!['.', ' ']);
    let mut stop: Vec<char> = Vec::new();
    stop.push('.');
    assert(stop@ =~= seq!['.']);
    match rfind(&head, &stop_space) {
        Some(i) => {
            assert(text@.take(i + 1) =~= text@.subrange(0, i + 1));
            slice(text, 0, i + 1)
        },
        None => match rfind(&head, &stop) {
            Some(i) => {
                assert(text@.take(i + 1) =~= text@.subrange(0, i + 1));
                slice(text, 0, i + 1)
            },
            None => {
                let r = slice(text, 0, n);
                assert(r@ =~= text@);
                r
            },
        },
    }
}

/// The clean utterance for the raw reply `raw` of the speaker `name`.
pub fn clean(raw: &Vec<char>, name: &Vec<char>) -> (r: Vec<char>)
    ensures
        r@ == sanitize(raw@, name@),
{
    let unlabelled = without_speaker_prefix(&trimmed(raw), name);
    let unquoted = without_quotes(&trimmed(&unlabelled));
    let paragraph = only_first_paragraph(&trimmed(&unquoted));
    truncated(&trimmed(&paragraph))
}

} // verus!
