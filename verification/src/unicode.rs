//! The Unicode tables of the standard library, by name.
//!
//! Which characters are letters, which are upper case, and how text is
//! mapped to upper and lower case is decided by tables that the standard
//! library carries. The library calls them and reasons about their
//! results under the names declared here; nothing is proved of the tables
//! themselves.

use vstd::prelude::*;

verus! {

/// What `char::is_alphabetic` returns for `c`: whether `c` has the Unicode
/// `Alphabetic` property.
pub uninterp spec fn char_is_alphabetic(c: char) -> bool;

/// What `char::is_uppercase` returns for `c`: whether `c` has the Unicode
/// `Uppercase` property.
pub uninterp spec fn char_is_uppercase(c: char) -> bool;

/// The characters of what `str::to_uppercase` returns for the text `s`.
pub uninterp spec fn str_to_uppercase(s: Seq<char>) -> Seq<char>;

/// The characters of what `str::to_lowercase` returns for the text `s`.
pub uninterp spec fn str_to_lowercase(s: Seq<char>) -> Seq<char>;

/// `char::is_alphabetic` depends on the character alone; its result is
/// known only by the name [`char_is_alphabetic`].
pub assume_specification[ char::is_alphabetic ](c: char) -> (b: bool)
    ensures
        b == char_is_alphabetic(c),
;

/// `char::is_uppercase` depends on the character alone; its result is
/// known only by the name [`char_is_uppercase`].
pub assume_specification[ char::is_uppercase ](c: char) -> (b: bool)
    ensures
        b == char_is_uppercase(c),
;

/// `str::to_uppercase` returns a new string that depends on the characters
/// of `s` alone; it is known only by the name [`str_to_uppercase`].
pub assume_specification[ str::to_uppercase ](s: &str) -> (r: String)
    ensures
        r@ == str_to_uppercase(s@),
;

/// `str::to_lowercase` returns a new string that depends on the characters
/// of `s` alone; it is known only by the name [`str_to_lowercase`].
pub assume_specification[ str::to_lowercase ](s: &str) -> (r: String)
    ensures
        r@ == str_to_lowercase(s@),
;

/// Whether every character of `s` is a letter or white space.
pub open spec fn is_label(s: Seq<char>) -> bool {
    forall|i: int| 0 <= i < s.len() ==> char_is_alphabetic(#[trigger] s[i]) || crate::text::is_whitespace(s[i])
}

/// Decides [`is_label`].
pub fn label_chars(v: &Vec<char>) -> (b: bool)
    ensures
        b == is_label(v@),
{
    let mut i: usize = 0;
    while i < v.len()
        invariant
            i <= v.len(),
            forall|j: int| 0 <= j < i ==> char_is_alphabetic(#[trigger] v@[j]) || crate::text::is_whitespace(v@[j]),
        decreases v.len() - i,
    {
        let c = v[i];
        if !(c.is_alphabetic() || crate::text::whitespace(c)) {
            return false;
        }
        i += 1;
    }
    true
}

/// The upper-case form of `v`.
pub fn uppercase(v: &Vec<char>) -> (r: Vec<char>)
    ensures
        r@ == str_to_uppercase(v@),
{
    let s = crate::text::string_of(v);
    let u = s.as_str().to_uppercase();
    crate::text::chars_of(u.as_str())
}

/// The lower-case form of `v`.
pub fn lowercase(v: &Vec<char>) -> (r: Vec<char>)
    ensures
        r@ == str_to_lowercase(v@),
{
    let s = crate::text::string_of(v);
    let l = s.as_str().to_lowercase();
    crate::text::chars_of(l.as_str())
}

} // verus!
