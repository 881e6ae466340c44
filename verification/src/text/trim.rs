//! Trimming a class of characters from both ends of a sequence, and cutting
//! a sequence into its whitespace-separated words.

use crate::text::chars::{char_is_whitespace, copy_range};
use crate::text::split::views;
use vstd::prelude::*;

verus! {

/// A class of characters that can be trimmed from the ends of a sequence.
#[derive(Clone, Copy, Debug)]
pub enum CharClass {
    /// The characters with the Unicode `White_Space` property.
    Whitespace,
    /// Whitespace and the full stop `.`.
    WhitespaceOrDot,
}

impl CharClass {
    /// Whether `c` belongs to the class.
    pub open spec fn has(self, c: char) -> bool {
        match self {
            CharClass::Whitespace => char_is_whitespace(c),
            CharClass::WhitespaceOrDot => c == '.' || char_is_whitespace(c),
        }
    }

    /// Whether `c` belongs to the class.
    pub fn contains(&self, c: char) -> (b: bool)
        ensures
            b == self.has(c),
    {
        match self {
            CharClass::Whitespace => c.is_whitespace(),
            CharClass::WhitespaceOrDot => c == '.' || c.is_whitespace(),
        }
    }
}

/// `s` without its longest prefix of characters of `class`.
pub open spec fn trim_start(s: Seq<char>, class: CharClass) -> Seq<char>
    decreases s.len(),
{
    if s.len() > 0 && class.has(s[0]) {
        trim_start(s.skip(1), class)
    } else {
        s
    }
}

/// `s` without its longest suffix of characters of `class`.
pub open spec fn trim_end(s: Seq<char>, class: CharClass) -> Seq<char>
    decreases s.len(),
{
    if s.len() > 0 && class.has(s.last()) {
        trim_end(s.drop_last(), class)
    } else {
        s
    }
}

/// `s` without the characters of `class` at either end.
pub open spec fn trim_class(s: Seq<char>, class: CharClass) -> Seq<char> {
    trim_end(trim_start(s, class), class)
}

/// `s` without leading and trailing whitespace.
pub open spec fn trim(s: Seq<char>) -> Seq<char> {
    trim_class(s, CharClass::Whitespace)
}

/// Every character of `s` is whitespace.
pub open spec fn is_blank(s: Seq<char>) -> bool {
    forall|i: int| 0 <= i < s.len() ==> char_is_whitespace(#[trigger] s[i])
}

/// Neither end of `s` holds a character of `class`.
pub open spec fn is_trimmed(s: Seq<char>, class: CharClass) -> bool {
    s.len() > 0 ==> !class.has(s[0]) && !class.has(s.last())
}

/// What trimming leaves holds no character of the class at either end.
pub proof fn lemma_trim_is_trimmed(s: Seq<char>, class: CharClass)
    ensures
        is_trimmed(trim_class(s, class), class),
{
    lemma_trim_start_is_trimmed(s, class);
    lemma_trim_end_is_trimmed(trim_start(s, class), class);
}

/// What trimming the start leaves does not start with a character of the
/// class.
pub proof fn lemma_trim_start_is_trimmed(s: Seq<char>, class: CharClass)
    ensures
        trim_start(s, class).len() > 0 ==> !class.has(trim_start(s, class)[0]),
    decreases s.len(),
{
    if s.len() > 0 && class.has(s[0]) {
        lemma_trim_start_is_trimmed(s.skip(1), class);
    }
}

/// What trimming the end leaves does not end with a character of the class,
/// and starts as the sequence does.
pub proof fn lemma_trim_end_is_trimmed(s: Seq<char>, class: CharClass)
    ensures
        trim_end(s, class).len() > 0 ==> !class.has(trim_end(s, class).last()) && trim_end(
            s,
            class,
        )[0] == s[0],
    decreases s.len(),
{
    if s.len() > 0 && class.has(s.last()) {
        lemma_trim_end_is_trimmed(s.drop_last(), class);
    }
}

/// What trimming leaves is a stretch of the sequence: every item of the
/// result is an item of the sequence.
pub proof fn lemma_trim_is_subrange(s: Seq<char>, class: CharClass)
    ensures
        exists|lo: int, hi: int|
            0 <= lo <= hi <= s.len() && trim_class(s, class) == #[trigger] s.subrange(lo, hi),
{
    lemma_trim_start_is_suffix(s, class);
    let lo = choose|lo: int| 0 <= lo <= s.len() && trim_start(s, class) == s.skip(lo);
    let t = s.skip(lo);
    lemma_trim_end_is_prefix(t, class);
    let n = choose|n: int| 0 <= n <= t.len() && trim_end(t, class) == t.take(n);
    assert(t.take(n) =~= s.subrange(lo, lo + n));
}

/// What trimming the start leaves is a suffix of the sequence.
pub proof fn lemma_trim_start_is_suffix(s: Seq<char>, class: CharClass)
    ensures
        exists|lo: int| 0 <= lo <= s.len() && trim_start(s, class) == #[trigger] s.skip(lo),
    decreases s.len(),
{
    if s.len() > 0 && class.has(s[0]) {
        lemma_trim_start_is_suffix(s.skip(1), class);
        let k = choose|k: int|
            0 <= k <= s.skip(1).len() && trim_start(s.skip(1), class) == s.skip(1).skip(k);
        assert(s.skip(1).skip(k) =~= s.skip(k + 1));
    } else {
        assert(s.skip(0) =~= s);
    }
}

/// What trimming the end leaves is a prefix of the sequence.
pub proof fn lemma_trim_end_is_prefix(s: Seq<char>, class: CharClass)
    ensures
        exists|n: int| 0 <= n <= s.len() && trim_end(s, class) == #[trigger] s.take(n),
    decreases s.len(),
{
    if s.len() > 0 && class.has(s.last()) {
        lemma_trim_end_is_prefix(s.drop_last(), class);
        let k = choose|k: int|
            0 <= k <= s.drop_last().len() && trim_end(s.drop_last(), class) == s.drop_last().take(
                k,
            );
        assert(s.drop_last().take(k) =~= s.take(k));
    } else {
        assert(s.take(s.len() as int) =~= s);
    }
}

/// Trims the characters of `class` from both ends of `s`.
pub fn trim_chars(s: &Vec<char>, class: CharClass) -> (r: Vec<char>)
    ensures
        r@ == trim_class(s@, class),
{
    let mut lo: usize = 0;
    assert(s@.skip(0) =~= s@);
    while lo < s.len() && class.contains(s[lo])
        invariant
            lo <= s.len(),
            trim_start(s@, class) == trim_start(s@.skip(lo as int), class),
        decreases s.len() - lo,
    {
        assert(s@.skip(lo as int).skip(1) =~= s@.skip(lo + 1));
        lo += 1;
    }
    let mut hi: usize = s.len();
    while hi > lo && class.contains(s[hi - 1])
        invariant
            lo <= hi <= s.len(),
            trim_class(s@, class) == trim_end(s@.subrange(lo as int, hi as int), class),
        decreases hi - lo,
    {
        assert(s@.subrange(lo as int, hi as int).drop_last() =~= s@.subrange(
            lo as int,
            hi - 1,
        ));
        hi -= 1;
    }
    copy_range(s, lo, hi)
}

/// The length of the longest prefix of `s` that holds no whitespace.
pub open spec fn word_len(s: Seq<char>) -> nat
    decreases s.len(),
{
    if s.len() > 0 && !char_is_whitespace(s[0]) {
        1 + word_len(s.skip(1))
    } else {
        0
    }
}

/// The longest prefix without whitespace is no longer than the sequence.
pub proof fn lemma_word_len_bound(s: Seq<char>)
    ensures
        word_len(s) <= s.len(),
    decreases s.len(),
{
    if s.len() > 0 && !char_is_whitespace(s[0]) {
        lemma_word_len_bound(s.skip(1));
    }
}

/// The maximal runs of characters of `s` that hold no whitespace, in order.
pub open spec fn words(s: Seq<char>) -> Seq<Seq<char>>
    decreases s.len(),
    via words_decreases
{
    if s.len() == 0 {
        Seq::empty()
    } else if char_is_whitespace(s[0]) {
        words(s.skip(1))
    } else {
        seq![s.take(word_len(s) as int)] + words(s.skip(word_len(s) as int))
    }
}

#[via_fn]
proof fn words_decreases(s: Seq<char>) {
    lemma_word_len_bound(s);
}

/// Cuts `s` into its whitespace-separated words.
pub fn words_of(s: &Vec<char>) -> (out: Vec<Vec<char>>)
    ensures
        views(out@) == words(s@),
{
    let mut out: Vec<Vec<char>> = Vec::new();
    let mut pos: usize = 0;
    assert(s@.skip(0) =~= s@);
    while pos < s.len()
        invariant
            pos <= s.len(),
            words(s@) == views(out@) + words(s@.skip(pos as int)),
        decreases s.len() - pos,
    {
        let ghost rest = s@.skip(pos as int);
        if s[pos].is_whitespace() {
            assert(rest.skip(1) =~= s@.skip(pos + 1));
            pos += 1;
        } else {
            let mut end: usize = pos;
            while end < s.len() && !s[end].is_whitespace()
                invariant
                    pos <= end <= s.len(),
                    word_len(s@.skip(pos as int)) == (end - pos) + word_len(s@.skip(end as int)),
                decreases s.len() - end,
            {
                assert(s@.skip(end as int).skip(1) =~= s@.skip(end + 1));
                end += 1;
            }
            let piece = copy_range(s, pos, end);
            proof {
                assert(piece@ =~= rest.take(end - pos));
                assert(rest.skip(end - pos) =~= s@.skip(end as int));
            }
            out.push(piece);
            pos = end;
        }
    }
    out
}

} // verus!
