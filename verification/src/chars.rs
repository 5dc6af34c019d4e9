//! Character classes for the formula language and small utilities for
//! moving between `&str`, `Vec<char>` and `String`.

use vstd::prelude::*;
use vstd::string::StrSliceExecFns;

verus! {

/// Whether a character has the Unicode `Alphabetic` property.
///
/// The property is a fixed function of the character alone, far too
/// large to write out, so it is only named here; `char_is_letter`
/// below ties it to the standard library's implementation.
pub uninterp spec fn is_unicode_letter(c: char) -> bool;

/// Relies on char::is_alphabetic from std: it returns whether the
/// character has the Unicode `Alphabetic` property, a function of the
/// character alone. Within ASCII, the alphabetic characters are
/// exactly the letters `a`-`z` and `A`-`Z`.
#[verifier::external_body]
pub(crate) fn char_is_letter(c: char) -> (r: bool)
    ensures
        r == is_unicode_letter(c),
        (c as u32) < 128 ==> r == (97 <= c as u32 <= 122 || 65 <= c as u32 <= 90),
{
    c.is_alphabetic()
}

/// An ASCII decimal digit.
pub open spec fn is_digit(c: char) -> bool {
    48 <= c as u32 <= 57
}

/// An ASCII letter.
pub open spec fn is_ascii_letter(c: char) -> bool {
    97 <= c as u32 <= 122 || 65 <= c as u32 <= 90
}

/// A letter: within ASCII exactly `a`-`z` and `A`-`Z` (spelled out so
/// that proofs can see it), beyond ASCII the Unicode `Alphabetic`
/// property.
pub open spec fn is_letter(c: char) -> bool {
    if (c as u32) < 128 {
        is_ascii_letter(c)
    } else {
        is_unicode_letter(c)
    }
}

/// A character that may open an identifier: a letter or `_`.
pub open spec fn is_ident_start(c: char) -> bool {
    is_letter(c) || c == '_'
}

/// A character that may continue an identifier: a letter, an ASCII
/// digit or `_`.
pub open spec fn is_ident_cont(c: char) -> bool {
    is_letter(c) || is_digit(c) || c == '_'
}

/// Whitespace accepted between tokens.
pub open spec fn is_ws(c: char) -> bool {
    c == ' ' || c == '\t' || c == '\r' || c == '\n'
}

pub(crate) fn exec_is_digit(c: char) -> (r: bool)
    ensures
        r == is_digit(c),
{
    48 <= c as u32 && c as u32 <= 57
}

pub(crate) fn exec_is_letter(c: char) -> (r: bool)
    ensures
        r == is_letter(c),
{
    char_is_letter(c)
}

pub(crate) fn exec_is_ident_start(c: char) -> (r: bool)
    ensures
        r == is_ident_start(c),
{
    exec_is_letter(c) || c == '_'
}

pub(crate) fn exec_is_ident_cont(c: char) -> (r: bool)
    ensures
        r == is_ident_cont(c),
{
    exec_is_letter(c) || exec_is_digit(c) || c == '_'
}

pub(crate) fn exec_is_ws(c: char) -> (r: bool)
    ensures
        r == is_ws(c),
{
    c == ' ' || c == '\t' || c == '\r' || c == '\n'
}

/// The characters of a string slice, in order, as a vector.
pub fn str_to_chars(s: &str) -> (v: Vec<char>)
    ensures
        v@ == s@,
{
    let n = s.unicode_len();
    let mut v: Vec<char> = Vec::new();
    let mut i: usize = 0;
    while i < n
        invariant
            i <= n,
            n == s@.len(),
            v@ == s@.subrange(0, i as int),
        decreases n - i,
    {
        v.push(s.get_char(i));
        i += 1;
        proof {
            assert(v@ =~= s@.subrange(0, i as int));
        }
    }
    proof {
        assert(v@ =~= s@);
    }
    v
}

/// Relies on String::from_iter (through Iterator::collect) from std:
/// the resulting string holds exactly the slice's characters in order.
#[verifier::external_body]
fn chars_to_string(v: &Vec<char>) -> (s: String)
    ensures
        s@ == v@,
{
    v.iter().collect()
}

/// Whether the string equals the given literal, character for
/// character.
pub fn string_is(s: &String, lit: &str) -> (r: bool)
    ensures
        r == (s@ == lit@),
{
    let a = s.as_str();
    let n = a.unicode_len();
    if n != lit.unicode_len() {
        return false;
    }
    let mut i: usize = 0;
    while i < n
        invariant
            i <= n,
            n == a@.len(),
            n == lit@.len(),
            a@ == s@,
            forall|j: int| 0 <= j < i ==> a@[j] == lit@[j],
        decreases n - i,
    {
        if a.get_char(i) != lit.get_char(i) {
            return false;
        }
        i += 1;
    }
    proof {
        assert(s@ =~= lit@);
    }
    true
}

/// The text of `s` between the positions `start` and `end`, as a string.
pub fn text_of(s: &Vec<char>, start: usize, end: usize) -> (r: String)
    requires
        start <= end <= s@.len(),
    ensures
        r@ == s@.subrange(start as int, end as int),
{
    let mut v: Vec<char> = Vec::new();
    let mut i: usize = start;
    while i < end
        invariant
            start <= i <= end <= s@.len(),
            v@ == s@.subrange(start as int, i as int),
        decreases end - i,
    {
        v.push(s[i]);
        i += 1;
        proof {
            assert(v@ =~= s@.subrange(start as int, i as int));
        }
    }
    chars_to_string(&v)
}

} // verus!
