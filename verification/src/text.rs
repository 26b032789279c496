//! Character-level text operations and their mathematical models.
//!
//! Every string is modelled as its sequence of Unicode scalar values
//! (`Seq<char>`); the executable functions work on `Vec<char>` and are
//! specified against spec functions over sequences.

use vstd::prelude::*;

verus! {

/// The characters of `s`, in order.
pub fn chars_of(s: &str) -> (v: Vec<char>)
    ensures
        v@ == s@,
{
    let mut v: Vec<char> = Vec::new();
    for c in it: s.chars()
        invariant
            it.seq() == s@,
            v@ == it.seq().take(it.index() as int),
    {
        v.push(c);
    }
    v
}

/// `String::push` appends one character to the end of the string.
#[verifier::external_body]
fn push_char(s: &mut String, c: char)
    ensures
        final(s)@ == old(s)@.push(c),
{
    s.push(c)
}

/// Appends the characters of `v` to `s`.
pub fn append_chars(s: &mut String, v: &Vec<char>)
    ensures
        final(s)@ == old(s)@ + v@,
{
    let mut i: usize = 0;
    while i < v.len()
        invariant
            i <= v.len(),
            s@ == old(s)@ + v@.take(i as int),
        decreases v.len() - i,
    {
        push_char(s, v[i]);
        assert(v@.take(i + 1) =~= v@.take(i as int).push(v@[i as int]));
        i += 1;
    }
    assert(v@.take(v.len() as int) =~= v@);
}

/// The string whose characters are those of `v`.
pub fn string_of(v: &Vec<char>) -> (s: String)
    ensures
        s@ == v@,
{
    let mut s = String::new();
    append_chars(&mut s, v);
    assert(Seq::<char>::empty() + v@ =~= v@);
    s
}

/// Whether two character vectors hold the same text.
pub fn same_text(a: &Vec<char>, b: &Vec<char>) -> (r: bool)
    ensures
        r == (a@ == b@),
{
    if a.len() != b.len() {
        return false;
    }
    let mut i: usize = 0;
    while i < a.len()
        invariant
            i <= a.len(),
            a.len() == b.len(),
            a@.take(i as int) == b@.take(i as int),
        decreases a.len() - i,
    {
        if a[i] != b[i] {
            return false;
        }
        assert(a@.take(i + 1) =~= a@.take(i as int).push(a@[i as int]));
        assert(b@.take(i + 1) =~= b@.take(i as int).push(b@[i as int]));
        i += 1;
    }
    assert(a@.take(a.len() as int) =~= a@);
    assert(b@.take(b.len() as int) =~= b@);
    true
}

/// The characters `v[from..to]`.
pub fn slice(v: &Vec<char>, from: usize, to: usize) -> (r: Vec<char>)
    requires
        from <= to <= v.len(),
    ensures
        r@ == v@.subrange(from as int, to as int),
{
    let mut r: Vec<char> = Vec::new();
    let mut i: usize = from;
    while i < to
        invariant
            from <= i <= to <= v.len(),
            r@ == v@.subrange(from as int, i as int),
        decreases to - i,
    {
        r.push(v[i]);
        assert(v@.subrange(from as int, i + 1) =~= v@.subrange(from as int, i as int).push(
            v@[i as int],
        ));
        i += 1;
    }
    r
}

/// The Unicode `White_Space` code points: the characters that trimming
/// removes and that may stand between the words of a label.
pub open spec fn is_whitespace(c: char) -> bool {
    ||| '\u{9}' <= c <= '\u{d}'
    ||| c == ' '
    ||| c == '\u{85}'
    ||| c == '\u{a0}'
    ||| c == '\u{1680}'
    ||| '\u{2000}' <= c <= '\u{200a}'
    ||| c == '\u{2028}'
    ||| c == '\u{2029}'
    ||| c == '\u{202f}'
    ||| c == '\u{205f}'
    ||| c == '\u{3000}'
}

/// Decides [`is_whitespace`].
pub fn whitespace(c: char) -> (b: bool)
    ensures
        b == is_whitespace(c),
{
    ('\u{9}' <= c && c <= '\u{d}') || c == ' ' || c == '\u{85}' || c == '\u{a0}' || c
        == '\u{1680}' || ('\u{2000}' <= c && c <= '\u{200a}') || c == '\u{2028}' || c
        == '\u{2029}' || c == '\u{202f}' || c == '\u{205f}' || c == '\u{3000}'
}

/// `s` without its leading white space.
pub open spec fn trim_start(s: Seq<char>) -> Seq<char>
    decreases s.len(),
{
    if s.len() > 0 && is_whitespace(s.first()) {
        trim_start(s.drop_first())
    } else {
        s
    }
}

/// `s` without its trailing white space.
pub open spec fn trim_end(s: Seq<char>) -> Seq<char>
    decreases s.len(),
{
    if s.len() > 0 && is_whitespace(s.last()) {
        trim_end(s.drop_last())
    } else {
        s
    }
}

/// `s` without its leading and trailing white space.
pub open spec fn trim(s: Seq<char>) -> Seq<char> {
    trim_end(trim_start(s))
}

/// Whether `s` neither begins nor ends with white space.
pub open spec fn is_trimmed(s: Seq<char>) -> bool {
    s.len() > 0 ==> !is_whitespace(s.first()) && !is_whitespace(s.last())
}

/// Dropping a white-space prefix of length `a` that ends before a character
/// of another kind, or at the end of the text, is `trim_start`.
pub proof fn lemma_trim_start_is_skip(s: Seq<char>, a: int)
    requires
        0 <= a <= s.len(),
        forall|i: int| 0 <= i < a ==> is_whitespace(s[i]),
        a < s.len() ==> !is_whitespace(s[a]),
    ensures
        trim_start(s) == s.skip(a),
    decreases a,
{
    if a == 0 {
        assert(s.skip(0) =~= s);
    } else {
        let rest = s.drop_first();
        assert forall|i: int| 0 <= i < a - 1 implies is_whitespace(rest[i]) by {
            assert(rest[i] == s[i + 1]);
        }
        lemma_trim_start_is_skip(rest, a - 1);
        assert(rest.skip(a - 1) =~= s.skip(a));
    }
}

/// Keeping the first `b` characters, where a white-space suffix begins
/// after a character of another kind, or at the start, is `trim_end`.
pub proof fn lemma_trim_end_is_take(s: Seq<char>, b: int)
    requires
        0 <= b <= s.len(),
        forall|i: int| b <= i < s.len() ==> is_whitespace(s[i]),
        b > 0 ==> !is_whitespace(s[b - 1]),
    ensures
        trim_end(s) == s.take(b),
    decreases s.len() - b,
{
    if b == s.len() {
        assert(s.take(b) =~= s);
    } else {
        let rest = s.drop_last();
        lemma_trim_end_is_take(rest, b);
        assert(rest.take(b) =~= s.take(b));
    }
}

/// Trimming leaves trimmed text as it is.
pub proof fn lemma_trim_of_trimmed(s: Seq<char>)
    requires
        is_trimmed(s),
    ensures
        trim(s) == s,
{
    lemma_trim_start_is_skip(s, 0);
    assert(s.skip(0) =~= s);
    lemma_trim_end_is_take(s, s.len() as int);
    assert(s.take(s.len() as int) =~= s);
}

/// What trimming returns is trimmed.
pub proof fn lemma_trim_is_trimmed(s: Seq<char>)
    ensures
        is_trimmed(trim(s)),
{
    lemma_trim_start_shape(s);
    lemma_trim_end_shape(trim_start(s));
    let m = trim_start(s);
    let t = trim_end(m);
    if t.len() > 0 {
        assert(t.first() == m.first());
    }
}

/// `trim_start` returns a suffix that does not begin with white space.
pub proof fn lemma_trim_start_shape(s: Seq<char>)
    ensures
        trim_start(s).len() <= s.len(),
        trim_start(s) == s.skip(s.len() - trim_start(s).len()),
        trim_start(s).len() > 0 ==> !is_whitespace(trim_start(s).first()),
    decreases s.len(),
{
    if s.len() > 0 && is_whitespace(s.first()) {
        let rest = s.drop_first();
        lemma_trim_start_shape(rest);
        assert(rest.skip(rest.len() - trim_start(rest).len()) =~= s.skip(
            s.len() - trim_start(s).len(),
        ));
    } else {
        assert(s.skip(0) =~= s);
    }
}

/// `trim_end` returns a prefix that does not end with white space.
pub proof fn lemma_trim_end_shape(s: Seq<char>)
    ensures
        trim_end(s).len() <= s.len(),
        trim_end(s) == s.take(trim_end(s).len() as int),
        trim_end(s).len() > 0 ==> !is_whitespace(trim_end(s).last()),
    decreases s.len(),
{
    if s.len() > 0 && is_whitespace(s.last()) {
        let rest = s.drop_last();
        lemma_trim_end_shape(rest);
        assert(rest.take(trim_end(rest).len() as int) =~= s.take(trim_end(s).len() as int));
    } else {
        assert(s.take(s.len() as int) =~= s);
    }
}

/// Trimming at the start keeps everything from a character on that is
/// no white space.
proof fn lemma_trim_start_keeps(s: Seq<char>, i: int)
    requires
        0 <= i < s.len(),
        !is_whitespace(s[i]),
    ensures
        trim_start(s).len() >= s.len() - i,
    decreases s.len(),
{
    if is_whitespace(s.first()) {
        lemma_trim_start_keeps(s.drop_first(), i - 1);
    }
}

/// Trimming at the end keeps everything up to a character that is no
/// white space.
proof fn lemma_trim_end_keeps(s: Seq<char>, i: int)
    requires
        0 <= i < s.len(),
        !is_whitespace(s[i]),
    ensures
        trim_end(s).len() > i,
    decreases s.len(),
{
    if is_whitespace(s.last()) {
        lemma_trim_end_keeps(s.drop_last(), i);
    }
}

/// Text that holds a character other than white space is not empty
/// after trimming.
pub proof fn lemma_trim_keeps_text(s: Seq<char>, i: int)
    requires
        0 <= i < s.len(),
        !is_whitespace(s[i]),
    ensures
        trim(s).len() > 0,
{
    lemma_trim_start_keeps(s, i);
    lemma_trim_start_shape(s);
    let m = trim_start(s);
    let at = i - (s.len() - m.len());
    assert(m[at] == s[i]);
    lemma_trim_end_keeps(m, at);
}

/// `v` without its leading white space.
pub fn trimmed_start(v: &Vec<char>) -> (r: Vec<char>)
    ensures
        r@ == trim_start(v@),
{
    let mut a: usize = 0;
    while a < v.len() && whitespace(v[a])
        invariant
            a <= v.len(),
            forall|i: int| 0 <= i < a ==> is_whitespace(v@[i]),
        decreases v.len() - a,
    {
        a += 1;
    }
    proof {
        lemma_trim_start_is_skip(v@, a as int);
    }
    slice(v, a, v.len())
}

/// `v` without its trailing white space.
pub fn trimmed_end(v: &Vec<char>) -> (r: Vec<char>)
    ensures
        r@ == trim_end(v@),
{
    let mut b: usize = v.len();
    while b > 0 && whitespace(v[b - 1])
        invariant
            b <= v.len(),
            forall|i: int| b <= i < v.len() ==> is_whitespace(v@[i]),
        decreases b,
    {
        b -= 1;
    }
    proof {
        lemma_trim_end_is_take(v@, b as int);
    }
    slice(v, 0, b)
}

/// `v` without its leading and trailing white space.
pub fn trimmed(v: &Vec<char>) -> (r: Vec<char>)
    ensures
        r@ == trim(v@),
{
    let start = trimmed_start(v);
    trimmed_end(&start)
}

/// Whether `pat` stands in `s` at index `i`.
pub open spec fn occurs_at(s: Seq<char>, pat: Seq<char>, i: int) -> bool {
    0 <= i && i + pat.len() <= s.len() && s.subrange(i, i + pat.len()) == pat
}

/// Whether `pat` stands somewhere in `s`.
pub open spec fn contains_text(s: Seq<char>, pat: Seq<char>) -> bool {
    exists|i: int| occurs_at(s, pat, i)
}

/// The least index at which `pat` stands in `s`, if there is one.
#[verifier::opaque]
pub open spec fn first_index_of(s: Seq<char>, pat: Seq<char>) -> Option<int> {
    if contains_text(s, pat) {
        Some(
            choose|i: int|
                occurs_at(s, pat, i) && forall|j: int| occurs_at(s, pat, j) ==> i <= j,
        )
    } else {
        None
    }
}

/// The greatest index at which `pat` stands in `s`, if there is one.
#[verifier::opaque]
pub open spec fn last_index_of(s: Seq<char>, pat: Seq<char>) -> Option<int> {
    if contains_text(s, pat) {
        Some(
            choose|i: int|
                occurs_at(s, pat, i) && forall|j: int| occurs_at(s, pat, j) ==> j <= i,
        )
    } else {
        None
    }
}

/// Whether `s` begins with `pat`.
pub open spec fn starts_with(s: Seq<char>, pat: Seq<char>) -> bool {
    occurs_at(s, pat, 0)
}

/// An occurrence with none before it is the first.
pub proof fn lemma_first_index(s: Seq<char>, pat: Seq<char>, i: int)
    requires
        occurs_at(s, pat, i),
        forall|j: int| 0 <= j < i ==> !occurs_at(s, pat, j),
    ensures
        first_index_of(s, pat) == Some(i),
{
    reveal(first_index_of);
    assert(occurs_at(s, pat, i) && forall|j: int| occurs_at(s, pat, j) ==> i <= j);
}

/// An occurrence with none after it is the last.
pub proof fn lemma_last_index(s: Seq<char>, pat: Seq<char>, i: int)
    requires
        occurs_at(s, pat, i),
        forall|j: int| i < j ==> !occurs_at(s, pat, j),
    ensures
        last_index_of(s, pat) == Some(i),
{
    reveal(last_index_of);
    assert(occurs_at(s, pat, i) && forall|j: int| occurs_at(s, pat, j) ==> j <= i);
}

/// Text that does not hold `pat` has no first and no last occurrence of it.
pub proof fn lemma_no_occurrence(s: Seq<char>, pat: Seq<char>)
    ensures
        !contains_text(s, pat) ==> first_index_of(s, pat) is None && last_index_of(s, pat) is None,
        contains_text(s, pat) ==> first_index_of(s, pat) is Some && last_index_of(s, pat) is Some,
{
    reveal(first_index_of);
    reveal(last_index_of);
}

/// What `first_index_of` returns is an occurrence with none before it.
pub proof fn lemma_first_index_is_least(s: Seq<char>, pat: Seq<char>)
    requires
        contains_text(s, pat),
    ensures
        first_index_of(s, pat) is Some,
        occurs_at(s, pat, first_index_of(s, pat)->0),
        forall|j: int| occurs_at(s, pat, j) ==> first_index_of(s, pat)->0 <= j,
{
    reveal(first_index_of);
    let w = choose|i: int| occurs_at(s, pat, i);
    lemma_least_occurrence(s, pat, w);
}

/// Below any occurrence there is a least one.
proof fn lemma_least_occurrence(s: Seq<char>, pat: Seq<char>, w: int)
    requires
        occurs_at(s, pat, w),
    ensures
        exists|i: int| occurs_at(s, pat, i) && forall|j: int| occurs_at(s, pat, j) ==> i <= j,
    decreases w,
{
    if exists|k: int| 0 <= k < w && occurs_at(s, pat, k) {
        let k = choose|k: int| 0 <= k < w && occurs_at(s, pat, k);
        lemma_least_occurrence(s, pat, k);
    } else {
        assert(occurs_at(s, pat, w) && forall|j: int| occurs_at(s, pat, j) ==> w <= j);
    }
}

/// What `last_index_of` returns is an occurrence with none after it.
pub proof fn lemma_last_index_is_greatest(s: Seq<char>, pat: Seq<char>)
    requires
        contains_text(s, pat),
    ensures
        last_index_of(s, pat) is Some,
        occurs_at(s, pat, last_index_of(s, pat)->0),
        forall|j: int| occurs_at(s, pat, j) ==> j <= last_index_of(s, pat)->0,
{
    reveal(last_index_of);
    let w = choose|i: int| occurs_at(s, pat, i);
    lemma_greatest_occurrence(s, pat, w);
}

/// Above any occurrence there is a greatest one.
proof fn lemma_greatest_occurrence(s: Seq<char>, pat: Seq<char>, w: int)
    requires
        occurs_at(s, pat, w),
    ensures
        exists|i: int| occurs_at(s, pat, i) && forall|j: int| occurs_at(s, pat, j) ==> j <= i,
    decreases s.len() - w,
{
    if exists|k: int| w < k && occurs_at(s, pat, k) {
        let k = choose|k: int| w < k && occurs_at(s, pat, k);
        lemma_greatest_occurrence(s, pat, k);
    } else {
        assert(occurs_at(s, pat, w) && forall|j: int| occurs_at(s, pat, j) ==> j <= w);
    }
}

/// A part of a text holds no pattern that the text does not hold.
pub proof fn lemma_part_holds_no_more(s: Seq<char>, pat: Seq<char>, from: int, to: int)
    requires
        0 <= from <= to <= s.len(),
        !contains_text(s, pat),
    ensures
        !contains_text(s.subrange(from, to), pat),
{
    let part = s.subrange(from, to);
    assert forall|j: int| !occurs_at(part, pat, j) by {
        if occurs_at(part, pat, j) {
            assert(part.subrange(j, j + pat.len()) =~= s.subrange(from + j, from + j + pat.len()));
            assert(occurs_at(s, pat, from + j));
        }
    }
}

/// Trimming keeps a part of the text: `trim(s)` is `s[from..to]` for
/// some `from` and `to`.
pub proof fn lemma_trim_is_part(s: Seq<char>) -> (bounds: (int, int))
    ensures
        0 <= bounds.0 <= bounds.1 <= s.len(),
        trim(s) == s.subrange(bounds.0, bounds.1),
{
    lemma_trim_start_shape(s);
    let m = trim_start(s);
    lemma_trim_end_shape(m);
    let from = s.len() - m.len();
    let to = from + trim_end(m).len();
    assert(s.skip(from).take(trim_end(m).len() as int) =~= s.subrange(from, to));
    (from, to)
}

/// A pattern of one character stands wherever that character does.
pub proof fn lemma_occurs_at_char(s: Seq<char>, c: char, i: int)
    ensures
        occurs_at(s, seq![c], i) <==> (0 <= i < s.len() && s[i] == c),
{
    if 0 <= i < s.len() {
        if s[i] == c {
            assert(s.subrange(i, i + 1) =~= seq![c]);
        } else {
            assert(s.subrange(i, i + 1)[0] == s[i]);
        }
    }
}

/// Whether `pat` stands in `v` at index `i`.
pub fn matches_at(v: &Vec<char>, pat: &Vec<char>, i: usize) -> (r: bool)
    ensures
        r == occurs_at(v@, pat@, i as int),
{
    if pat.len() > v.len() || i > v.len() - pat.len() {
        return false;
    }
    let mut k: usize = 0;
    while k < pat.len()
        invariant
            k <= pat.len(),
            i + pat.len() <= v.len(),
            v@.subrange(i as int, i + k) == pat@.take(k as int),
        decreases pat.len() - k,
    {
        if v[i + k] != pat[k] {
            proof {
                if v@.subrange(i as int, i + pat.len()) == pat@ {
                    assert(v@.subrange(i as int, i + pat.len())[k as int] == pat@[k as int]);
                }
            }
            return false;
        }
        assert(v@.subrange(i as int, i + k + 1) =~= v@.subrange(i as int, i + k).push(
            v@[i + k],
        ));
        assert(pat@.take(k + 1) =~= pat@.take(k as int).push(pat@[k as int]));
        k += 1;
    }
    assert(pat@.take(pat.len() as int) =~= pat@);
    true
}

/// The least index at which `pat` stands in `v`.
pub fn find(v: &Vec<char>, pat: &Vec<char>) -> (r: Option<usize>)
    ensures
        r matches Some(i) ==> first_index_of(v@, pat@) == Some(i as int) && occurs_at(
            v@,
            pat@,
            i as int,
        ),
        r is None ==> first_index_of(v@, pat@) is None && !contains_text(v@, pat@),
{
    proof {
        lemma_no_occurrence(v@, pat@);
    }
    if pat.len() > v.len() {
        return None;
    }
    let last: usize = v.len() - pat.len();
    let mut i: usize = 0;
    loop
        invariant
            i <= last,
            last == v.len() - pat.len(),
            forall|j: int| 0 <= j < i ==> !occurs_at(v@, pat@, j),
        decreases last - i,
    {
        if matches_at(v, pat, i) {
            proof {
                lemma_first_index(v@, pat@, i as int);
            }
            return Some(i);
        }
        if i == last {
            proof {
                lemma_no_occurrence(v@, pat@);
            }
            return None;
        }
        i += 1;
    }
}

/// The greatest index at which `pat` stands in `v`.
pub fn rfind(v: &Vec<char>, pat: &Vec<char>) -> (r: Option<usize>)
    ensures
        r matches Some(i) ==> last_index_of(v@, pat@) == Some(i as int) && occurs_at(
            v@,
            pat@,
            i as int,
        ),
        r is None ==> last_index_of(v@, pat@) is None && !contains_text(v@, pat@),
{
    proof {
        lemma_no_occurrence(v@, pat@);
    }
    if pat.len() > v.len() {
        return None;
    }
    let mut i: usize = v.len() - pat.len();
    loop
        invariant
            i <= v.len() - pat.len(),
            pat.len() <= v.len(),
            forall|j: int| i < j ==> !occurs_at(v@, pat@, j),
        decreases i,
    {
        if matches_at(v, pat, i) {
            proof {
                lemma_last_index(v@, pat@, i as int);
            }
            return Some(i);
        }
        if i == 0 {
            proof {
                lemma_no_occurrence(v@, pat@);
            }
            return None;
        }
        i -= 1;
    }
}

/// The lines of `s`: the runs of characters between its line feeds.
#[verifier::opaque]
pub open spec fn split_lines(s: Seq<char>) -> Seq<Seq<char>>
    decreases s.len(),
{
    let at = first_index_of(s, seq!['\n']);
    if at is Some && 0 <= at->0 < s.len() {
        seq![s.take(at->0)] + split_lines(s.skip(at->0 + 1))
    } else {
        seq![s]
    }
}

/// The texts that a vector of character vectors holds.
pub open spec fn texts(v: Seq<Vec<char>>) -> Seq<Seq<char>> {
    Seq::new(v.len(), |i: int| v[i]@)
}

/// Text without a line feed is one line.
pub proof fn lemma_split_single_line(s: Seq<char>)
    requires
        forall|j: int| 0 <= j < s.len() ==> s[j] != '\n',
    ensures
        split_lines(s) == seq![s],
{
    reveal(split_lines);
    lemma_no_occurrence(s, seq!['\n']);
    assert forall|j: int| !occurs_at(s, seq!['\n'], j) by {
        lemma_occurs_at_char(s, '\n', j);
    }
}

/// Text whose first line feed stands at `i` is the line before it,
/// followed by the lines of what comes after it.
pub proof fn lemma_split_first_line(s: Seq<char>, i: int)
    requires
        0 <= i < s.len(),
        s[i] == '\n',
        forall|j: int| 0 <= j < i ==> s[j] != '\n',
    ensures
        split_lines(s) == seq![s.take(i)] + split_lines(s.skip(i + 1)),
{
    let nl = seq!['\n'];
    assert forall|j: int| 0 <= j < i implies !occurs_at(s, nl, j) by {
        lemma_occurs_at_char(s, '\n', j);
    }
    lemma_occurs_at_char(s, '\n', i);
    lemma_first_index(s, nl, i);
    reveal(split_lines);
}

/// In text whose next line feed after `start` stands at `i`, the line
/// `v[start..i]` comes first among the lines from `start` on.
proof fn lemma_lines_step(done: Seq<Seq<char>>, v: Seq<char>, start: int, i: int)
    requires
        0 <= start <= i < v.len(),
        v[i] == '\n',
        forall|j: int| start <= j < i ==> v[j] != '\n',
    ensures
        done.push(v.subrange(start, i)) + split_lines(v.skip(i + 1)) == done + split_lines(
            v.skip(start),
        ),
{
    let rest = v.skip(start);
    lemma_split_first_line(rest, i - start);
    assert(rest.take(i - start) =~= v.subrange(start, i));
    assert(rest.skip(i - start + 1) =~= v.skip(i + 1));
    let line = v.subrange(start, i);
    let tail = split_lines(v.skip(i + 1));
    assert(done.push(line) + tail =~= done + (seq![line] + tail));
}

/// In text without a line feed from `start` on, `v[start..]` is the last line.
proof fn lemma_lines_end(done: Seq<Seq<char>>, v: Seq<char>, start: int)
    requires
        0 <= start <= v.len(),
        forall|j: int| start <= j < v.len() ==> v[j] != '\n',
    ensures
        done.push(v.subrange(start, v.len() as int)) == done + split_lines(v.skip(start)),
{
    let rest = v.skip(start);
    lemma_split_single_line(rest);
    assert(rest =~= v.subrange(start, v.len() as int));
    assert(done.push(rest) =~= done + seq![rest]);
}

/// The lines of `v`.
pub fn lines_of(v: &Vec<char>) -> (lines: Vec<Vec<char>>)
    ensures
        texts(lines@) == split_lines(v@),
{
    let mut lines: Vec<Vec<char>> = Vec::new();
    let mut start: usize = 0;
    let mut i: usize = 0;
    proof {
        assert(v@.skip(0) =~= v@);
        assert(texts(lines@) =~= Seq::<Seq<char>>::empty());
        assert(Seq::<Seq<char>>::empty() + split_lines(v@) =~= split_lines(v@));
    }
    while i < v.len()
        invariant
            start <= i <= v.len(),
            forall|j: int| start <= j < i ==> v@[j] != '\n',
            texts(lines@) + split_lines(v@.skip(start as int)) == split_lines(v@),
        decreases v.len() - i,
    {
        if v[i] == '\n' {
            let line = slice(v, start, i);
            proof {
                lemma_texts_push(lines@, line);
                lemma_lines_step(texts(lines@), v@, start as int, i as int);
            }
            lines.push(line);
            start = i + 1;
        }
        i += 1;
    }
    let line = slice(v, start, v.len());
    proof {
        lemma_texts_push(lines@, line);
        lemma_lines_end(texts(lines@), v@, start as int);
    }
    lines.push(line);
    lines
}

/// The texts of a vector with one more element.
pub proof fn lemma_texts_push(v: Seq<Vec<char>>, line: Vec<char>)
    ensures
        texts(v.push(line)) == texts(v).push(line@),
{
    assert(texts(v.push(line)) =~= texts(v).push(line@));
}

} // verus!
