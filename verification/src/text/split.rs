//! Splitting a character sequence on a delimiter, and replacing every
//! occurrence of a pattern.

use crate::text::chars::{copy_range, push_all};
use crate::text::search::{find, find_in, lemma_find_from, lemma_find_from_skip, occurs_at};
use vstd::prelude::*;

verus! {

/// The views of the vectors of `v`, in order.
pub open spec fn views(v: Seq<Vec<char>>) -> Seq<Seq<char>> {
    Seq::new(v.len(), |i: int| v[i]@)
}

/// The pieces of `s` between the occurrences of `delim`, taken leftmost
/// first and without overlap. There is one piece more than there are
/// occurrences; a piece may be empty.
pub open spec fn split(s: Seq<char>, delim: Seq<char>) -> Seq<Seq<char>>
    decreases s.len(),
    when delim.len() > 0
    via split_decreases
{
    match find(s, delim) {
        Some(i) => seq![s.take(i)] + split(s.skip(i + delim.len()), delim),
        None => seq![s],
    }
}

#[via_fn]
proof fn split_decreases(s: Seq<char>, delim: Seq<char>) {
    lemma_find_from(s, delim, 0);
}

/// `s` with every occurrence of `from` replaced by `to`, occurrences taken
/// leftmost first and without overlap.
pub open spec fn replace(s: Seq<char>, from: Seq<char>, to: Seq<char>) -> Seq<char>
    decreases s.len(),
    when from.len() > 0
    via replace_decreases
{
    match find(s, from) {
        Some(i) => s.take(i) + to + replace(s.skip(i + from.len()), from, to),
        None => s,
    }
}

#[via_fn]
proof fn replace_decreases(s: Seq<char>, from: Seq<char>, to: Seq<char>) {
    lemma_find_from(s, from, 0);
}

/// Where the replacement is not empty and shares no character with the
/// pattern, replacing leaves no occurrence of the pattern.
pub proof fn lemma_replace_leaves_no_match(s: Seq<char>, from: Seq<char>, to: Seq<char>)
    requires
        from.len() > 0,
        to.len() > 0,
        forall|a: int, b: int| 0 <= a < to.len() && 0 <= b < from.len() ==> to[a] != from[b],
    ensures
        forall|j: int| !occurs_at(replace(s, from, to), from, j),
    decreases s.len(),
{
    lemma_find_from(s, from, 0);
    let done = replace(s, from, to);
    match find(s, from) {
        None => {},
        Some(i) => {
            let rest = s.skip(i + from.len());
            let tail = replace(rest, from, to);
            lemma_replace_leaves_no_match(rest, from, to);
            assert forall|j: int| !occurs_at(done, from, j) by {
                if occurs_at(done, from, j) {
                    let found = done.subrange(j, j + from.len());
                    if j + from.len() <= i {
                        assert(s.subrange(j, j + from.len()) =~= found);
                        assert(occurs_at(s, from, j));
                    } else if j >= i + to.len() {
                        let k = j - i - to.len();
                        assert(tail.subrange(k, k + from.len()) =~= found);
                        assert(occurs_at(tail, from, k));
                    } else {
                        let p = if j < i {
                            i
                        } else {
                            j
                        };
                        assert(found[p - j] == done[p]);
                    }
                }
            }
        },
    }
}

/// Splits `s` on `delim`.
pub fn split_all(s: &Vec<char>, delim: &Vec<char>) -> (out: Vec<Vec<char>>)
    requires
        delim.len() > 0,
    ensures
        views(out@) == split(s@, delim@),
{
    let mut out: Vec<Vec<char>> = Vec::new();
    let mut pos: usize = 0;
    assert(s@.skip(0) =~= s@);
    loop
        invariant
            pos <= s.len(),
            delim.len() > 0,
            split(s@, delim@) == views(out@) + split(s@.skip(pos as int), delim@),
        decreases s.len() - pos,
    {
        let ghost rest = s@.skip(pos as int);
        proof {
            lemma_find_from_skip(s@, delim@, pos as int);
            lemma_find_from(rest, delim@, 0);
        }
        match find_in(s, delim, pos) {
            None => {
                let piece = copy_range(s, pos, s.len());
                out.push(piece);
                return out;
            },
            Some(i) => {
                let piece = copy_range(s, pos, i);
                assert(piece@ =~= rest.take(i - pos));
                assert(rest.skip(i - pos + delim.len()) =~= s@.skip(i + delim.len()));
                out.push(piece);
                pos = i + delim.len();
            },
        }
    }
}

/// Replaces every occurrence of `from` in `s` by `to`.
pub fn replace_all(s: &Vec<char>, from: &Vec<char>, to: &Vec<char>) -> (out: Vec<char>)
    requires
        from.len() > 0,
    ensures
        out@ == replace(s@, from@, to@),
{
    let mut out: Vec<char> = Vec::new();
    let mut pos: usize = 0;
    assert(s@.skip(0) =~= s@);
    loop
        invariant
            pos <= s.len(),
            from.len() > 0,
            replace(s@, from@, to@) == out@ + replace(s@.skip(pos as int), from@, to@),
        decreases s.len() - pos,
    {
        let ghost rest = s@.skip(pos as int);
        proof {
            lemma_find_from_skip(s@, from@, pos as int);
            lemma_find_from(rest, from@, 0);
        }
        match find_in(s, from, pos) {
            None => {
                let piece = copy_range(s, pos, s.len());
                push_all(&mut out, &piece);
                return out;
            },
            Some(i) => {
                let piece = copy_range(s, pos, i);
                assert(rest.skip(i - pos + from.len()) =~= s@.skip(i + from.len()));
                push_all(&mut out, &piece);
                push_all(&mut out, to);
                pos = i + from.len();
            },
        }
    }
}

} // verus!
