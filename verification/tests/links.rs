use notekeeper::links::{marked_links, rules_to_html};

#[test]
fn marked_words_give_their_links() {
    assert_eq!(
        marked_links("read +http://a.b/c and\n+https://d.e later, not http://f or +ftp://g"),
        vec!["http://a.b/c".to_owned(), "https://d.e".to_owned()]
    );
}

#[test]
fn a_marker_inside_a_word_is_no_marker() {
    assert_eq!(marked_links("x+http://a (+http://b) +htt +http"), vec!["http".to_owned()]);
    assert_eq!(marked_links(""), Vec::<String>::new());
    assert_eq!(marked_links("   "), Vec::<String>::new());
}

#[test]
fn three_dashes_become_a_rule() {
    assert_eq!(rules_to_html("a\n\n---\n\nb"), "a\n\n<hr>\n\nb");
    assert_eq!(rules_to_html("-----"), "<hr>--");
    assert_eq!(rules_to_html("--"), "--");
    assert_eq!(rules_to_html("no dashes"), "no dashes");
    for text in ["---", "----", "-------", "a---b---", "- -- --- ---- -----"] {
        assert!(!rules_to_html(text).contains("---"), "{text}");
    }
}
