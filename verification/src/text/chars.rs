//! Character predicates of the standard library, and conversions between
//! strings and vectors of characters.

use vstd::prelude::*;

verus! {

/// Whether `c` is an ASCII character.
pub open spec fn is_ascii_char(c: char) -> bool {
    c <= '\u{7f}'
}

/// The ASCII characters with the Unicode `White_Space` property: U+0009 to
/// U+000D, and the space.
pub open spec fn is_ascii_white_space(c: char) -> bool {
    c == ' ' || ('\u{9}' <= c && c <= '\u{d}')
}

/// The ASCII characters that are alphabetic or numeric: the digits and the
/// letters of either case.
pub open spec fn is_ascii_alphanumeric(c: char) -> bool {
    ('0' <= c && c <= '9') || ('A' <= c && c <= 'Z') || ('a' <= c && c <= 'z')
}

/// Whether `c`, a character beyond ASCII, carries the Unicode `White_Space`
/// property.
pub uninterp spec fn white_space_beyond_ascii(c: char) -> bool;

/// Whether `c`, a character beyond ASCII, is alphabetic or numeric in the
/// sense of Unicode.
pub uninterp spec fn alphanumeric_beyond_ascii(c: char) -> bool;

/// Whether `c` carries the Unicode `White_Space` property.
pub open spec fn char_is_whitespace(c: char) -> bool {
    if is_ascii_char(c) {
        is_ascii_white_space(c)
    } else {
        white_space_beyond_ascii(c)
    }
}

/// Whether `c` is alphabetic or numeric in the sense of Unicode.
pub open spec fn char_is_alphanumeric(c: char) -> bool {
    if is_ascii_char(c) {
        is_ascii_alphanumeric(c)
    } else {
        alphanumeric_beyond_ascii(c)
    }
}

/// `char::is_whitespace` of the standard library. Trusted: on ASCII it holds
/// of U+0009 to U+000D and of the space, as Unicode lists them; beyond
/// ASCII its answer is a function of the character alone, which
/// [`white_space_beyond_ascii`] names.
pub assume_specification[ char::is_whitespace ](c: char) -> (b: bool)
    ensures
        is_ascii_char(c) ==> b == is_ascii_white_space(c),
        !is_ascii_char(c) ==> b == white_space_beyond_ascii(c),
;

/// `char::is_alphanumeric` of the standard library. Trusted: on ASCII it
/// holds of the digits and the letters, as Unicode lists them; beyond ASCII
/// its answer is a function of the character alone, which
/// [`alphanumeric_beyond_ascii`] names.
pub assume_specification[ char::is_alphanumeric ](c: char) -> (b: bool)
    ensures
        is_ascii_char(c) ==> b == is_ascii_alphanumeric(c),
        !is_ascii_char(c) ==> b == alphanumeric_beyond_ascii(c),
;

/// `String::push` of the standard library. Trusted: the string afterwards is
/// the string before with `c` appended.
pub assume_specification[ String::push ](s: &mut String, c: char)
    ensures
        final(s)@ == old(s)@.push(c),
;

/// The characters of `s`, in order.
pub fn chars_of(s: &str) -> (v: Vec<char>)
    ensures
        v@ == s@,
{
    let mut v: Vec<char> = Vec::new();
    for c in it: s.chars()
        invariant
            it.seq() == s@,
            v@ == it.seq().take(it.index() as int),
    {
        v.push(c);
    }
    v
}

/// The string made of the characters of `v`, in order.
pub fn string_of(v: &Vec<char>) -> (s: String)
    ensures
        s@ == v@,
{
    let mut s = String::new();
    let mut i: usize = 0;
    while i < v.len()
        invariant
            i <= v.len(),
            s@ == v@.take(i as int),
        decreases v.len() - i,
    {
        s.push(v[i]);
        i += 1;
    }
    s
}

/// A copy of `s[lo..hi]`.
pub fn copy_range(s: &Vec<char>, lo: usize, hi: usize) -> (r: Vec<char>)
    requires
        lo <= hi <= s.len(),
    ensures
        r@ == s@.subrange(lo as int, hi as int),
{
    let mut r: Vec<char> = Vec::new();
    let mut i: usize = lo;
    while i < hi
        invariant
            lo <= i <= hi <= s.len(),
            r@ == s@.subrange(lo as int, i as int),
        decreases hi - i,
    {
        r.push(s[i]);
        i += 1;
    }
    r
}

/// Appends the characters of `tail` to `out`.
pub fn push_all(out: &mut Vec<char>, tail: &Vec<char>)
    ensures
        final(out)@ == old(out)@ + tail@,
{
    let mut i: usize = 0;
    while i < tail.len()
        invariant
            i <= tail.len(),
            out@ == old(out)@ + tail@.take(i as int),
        decreases tail.len() - i,
    {
        out.push(tail[i]);
        i += 1;
    }
}

} // verus!
