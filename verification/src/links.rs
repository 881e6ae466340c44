//! Marked links in the content of a note: the words that ask for a local
//! copy of a link.

use crate::downloader::string_views;
use crate::note::backends::format::dashes;
use crate::text::chars::{chars_of, copy_range, string_of};
use crate::text::search::{matches_at, occurs_at};
use crate::text::split::{lemma_replace_leaves_no_match, replace, replace_all, views};
use crate::text::trim::{words, words_of};
use vstd::prelude::*;

verus! {

/// `content` with every run of three dashes replaced by a horizontal rule in
/// HTML, so that no line of the content can be taken for the end of a record.
pub open spec fn with_rules_as_html(content: Seq<char>) -> Seq<char> {
    replace(content, dashes(), seq!['<', 'h', 'r', '>'])
}

/// Content whose rules were turned into HTML holds no three dashes in a
/// row, so the delimiter of the file format occurs nowhere in it.
pub proof fn lemma_rules_leave_no_dashes(content: Seq<char>)
    ensures
        forall|i: int| !occurs_at(with_rules_as_html(content), dashes(), i),
{
    lemma_replace_leaves_no_match(content, dashes(), seq!['<', 'h', 'r', '>']);
}

/// A word that asks for a local copy of a link: it starts with `+http`.
pub open spec fn is_marker_word(word: Seq<char>) -> bool {
    occurs_at(word, seq!['+', 'h', 't', 't', 'p'], 0)
}

/// The links of the marker words among `list`, in order: each marker word
/// without its leading `+`.
pub open spec fn links_of_words(list: Seq<Seq<char>>) -> Seq<Seq<char>>
    decreases list.len(),
{
    if list.len() == 0 {
        Seq::empty()
    } else if is_marker_word(list[0]) {
        seq![list[0].skip(1)] + links_of_words(list.skip(1))
    } else {
        links_of_words(list.skip(1))
    }
}

/// The links that `content` marks for fetching, in order: of each
/// whitespace-separated word that starts with `+http`, what follows the `+`.
pub open spec fn marked_links_view(content: Seq<char>) -> Seq<Seq<char>> {
    links_of_words(words(content))
}

/// Replaces every run of three dashes in `content` by `<hr>`.
pub fn rules_to_html(content: &str) -> (r: String)
    ensures
        r@ == with_rules_as_html(content@),
        forall|i: int| !occurs_at(r@, dashes(), i),
{
    proof {
        lemma_rules_leave_no_dashes(content@);
    }
    let three: Vec<char> = vec!['-', '-', '-'];
    let rule: Vec<char> = vec!['<', 'h', 'r', '>'];
    assert(three@ =~= dashes());
    assert(rule@ =~= seq!['<', 'h', 'r', '>']);
    string_of(&replace_all(&chars_of(content), &three, &rule))
}

/// The links that `content` marks for fetching, in order.
pub fn marked_links(content: &str) -> (links: Vec<String>)
    ensures
        string_views(links@) == marked_links_view(content@),
{
    let marker: Vec<char> = vec!['+', 'h', 't', 't', 'p'];
    let list = words_of(&chars_of(content));
    let mut links: Vec<String> = Vec::new();
    let mut k: usize = 0;
    assert(views(list@).skip(0) =~= views(list@));
    while k < list.len()
        invariant
            k <= list.len(),
            marker@ == seq!['+', 'h', 't', 't', 'p'],
            links_of_words(views(list@)) == string_views(links@) + links_of_words(
                views(list@).skip(k as int),
            ),
        decreases list.len() - k,
    {
        let ghost rest = views(list@).skip(k as int);
        assert(rest.skip(1) =~= views(list@).skip(k + 1));
        if matches_at(&list[k], &marker, 0) {
            let link = string_of(&copy_range(&list[k], 1, list[k].len()));
            links.push(link);
        }
        k += 1;
    }
    links
}

} // verus!
