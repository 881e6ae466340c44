use notekeeper::text::chars::{chars_of, string_of};
use notekeeper::text::search::{find_in, matches_at};
use notekeeper::text::split::{replace_all, split_all};
use notekeeper::text::trim::{trim_chars, words_of, CharClass};

fn cs(s: &str) -> Vec<char> {
    s.chars().collect()
}

#[test]
fn chars_and_strings_convert_both_ways() {
    assert_eq!(chars_of("héllo"), vec!['h', 'é', 'l', 'l', 'o']);
    assert_eq!(string_of(&vec!['a', 'ß', 'c']), "aßc");
    assert_eq!(chars_of(""), Vec::<char>::new());
    assert_eq!(string_of(&Vec::new()), "");
}

#[test]
fn find_gives_the_leftmost_occurrence() {
    assert_eq!(find_in(&cs("abcabc"), &cs("bc"), 0), Some(1));
    assert_eq!(find_in(&cs("abcabc"), &cs("bc"), 2), Some(4));
    assert_eq!(find_in(&cs("abcabc"), &cs("bc"), 5), None);
    assert_eq!(find_in(&cs("abc"), &cs("abcd"), 0), None);
    assert_eq!(find_in(&cs("abc"), &cs("x"), 0), None);
    assert_eq!(find_in(&cs("aaa"), &cs("aa"), 0), Some(0));
    assert_eq!(find_in(&cs("abc"), &cs("c"), 7), None);
}

#[test]
fn matches_at_checks_one_position() {
    assert!(matches_at(&cs("hello"), &cs("ell"), 1));
    assert!(!matches_at(&cs("hello"), &cs("ell"), 2));
    assert!(!matches_at(&cs("hello"), &cs("lo!"), 3));
    assert!(matches_at(&cs("hello"), &cs(""), 5));
    assert!(!matches_at(&cs("hello"), &cs(""), 6));
}

#[test]
fn split_keeps_empty_pieces() {
    let pieces = split_all(&cs("a--b----c--"), &cs("--"));
    let expected: Vec<Vec<char>> = vec![cs("a"), cs("b"), cs(""), cs("c"), cs("")];
    assert_eq!(pieces, expected);
    assert_eq!(split_all(&cs(""), &cs("--")), vec![cs("")]);
    assert_eq!(split_all(&cs("abc"), &cs("--")), vec![cs("abc")]);
}

#[test]
fn split_agrees_with_the_standard_library() {
    for text in ["", "x", "\n\n---\n\n", "a\n\n---\n\nb", "a\n\n---\n\n---\n\nb\n\n---\n\n"] {
        let expected: Vec<Vec<char>> = text.split("\n\n---\n\n").map(cs).collect();
        assert_eq!(split_all(&cs(text), &cs("\n\n---\n\n")), expected);
    }
}

#[test]
fn replace_takes_matches_leftmost_and_without_overlap() {
    assert_eq!(string_of(&replace_all(&cs("aaaa"), &cs("aa"), &cs("b"))), "bb");
    assert_eq!(string_of(&replace_all(&cs("aaa"), &cs("aa"), &cs("b"))), "ba");
    assert_eq!(string_of(&replace_all(&cs("x-y-z"), &cs("-"), &cs("--"))), "x--y--z");
    assert_eq!(string_of(&replace_all(&cs("abc"), &cs("d"), &cs("e"))), "abc");
    assert_eq!(string_of(&replace_all(&cs(""), &cs("d"), &cs("e"))), "");
    assert_eq!(string_of(&replace_all(&cs("abab"), &cs("ab"), &cs(""))), "");
}

#[test]
fn replace_agrees_with_the_standard_library() {
    for text in ["-----", "------", "a---b", "--", "---", "a - b --- c ---- d"] {
        assert_eq!(
            string_of(&replace_all(&cs(text), &cs("---"), &cs("<hr>"))),
            text.replace("---", "<hr>")
        );
    }
}

#[test]
fn trim_removes_whitespace_at_both_ends_only() {
    assert_eq!(string_of(&trim_chars(&cs("  a b \n"), CharClass::Whitespace)), "a b");
    assert_eq!(string_of(&trim_chars(&cs("\u{a0}x\u{2003}"), CharClass::Whitespace)), "x");
    assert_eq!(string_of(&trim_chars(&cs(" \t\n"), CharClass::Whitespace)), "");
    assert_eq!(string_of(&trim_chars(&cs(""), CharClass::Whitespace)), "");
    assert_eq!(string_of(&trim_chars(&cs(".a."), CharClass::Whitespace)), ".a.");
}

#[test]
fn trim_can_take_full_stops_too() {
    assert_eq!(string_of(&trim_chars(&cs(". .a.b. ."), CharClass::WhitespaceOrDot)), "a.b");
    assert_eq!(string_of(&trim_chars(&cs("..."), CharClass::WhitespaceOrDot)), "");
}

#[test]
fn char_classes_tell_their_members() {
    assert!(CharClass::Whitespace.contains(' '));
    assert!(CharClass::Whitespace.contains('\n'));
    assert!(!CharClass::Whitespace.contains('.'));
    assert!(CharClass::WhitespaceOrDot.contains('.'));
    assert!(CharClass::WhitespaceOrDot.contains('\t'));
    assert!(!CharClass::WhitespaceOrDot.contains('a'));
}

#[test]
fn ascii_whitespace_is_the_space_and_the_five_controls() {
    for code in 0u8..128 {
        let c = code as char;
        let expected = c == ' ' || ('\u{9}'..='\u{d}').contains(&c);
        assert_eq!(CharClass::Whitespace.contains(c), expected, "{code}");
        assert_eq!(CharClass::WhitespaceOrDot.contains(c), expected || c == '.', "{code}");
    }
    assert!(CharClass::Whitespace.contains('\u{a0}'));
    assert!(!CharClass::Whitespace.contains('é'));
}

#[test]
fn words_are_the_runs_between_whitespace() {
    assert_eq!(words_of(&cs("  one two\n\tthree ")), vec![cs("one"), cs("two"), cs("three")]);
    assert_eq!(words_of(&cs("")), Vec::<Vec<char>>::new());
    assert_eq!(words_of(&cs(" \n ")), Vec::<Vec<char>>::new());
    assert_eq!(words_of(&cs("single")), vec![cs("single")]);
}

#[test]
fn words_agree_with_the_standard_library() {
    for text in ["a b", " a\u{a0}b  c ", "\n", "x\ty\r\nz"] {
        let expected: Vec<Vec<char>> = text.split_whitespace().map(cs).collect();
        assert_eq!(words_of(&cs(text)), expected);
    }
}
