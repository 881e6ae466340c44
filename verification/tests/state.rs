use notekeeper::note::backends::state::{NoteData, State};
use notekeeper::note::html::Html;
use notekeeper::note::markdown::Markdown;
use notekeeper::note::{Note, NoteId};

fn note(id: usize, content: &str) -> Note {
    Note {
        id: NoteId(id),
        timestamp: format!("stamp {id}"),
        content: Markdown(content.to_owned()),
        html: Html(format!("<p>{content}</p>")),
    }
}

fn data(content: &str, html: &str) -> NoteData {
    NoteData { content: Markdown(content.to_owned()), html: Html(html.to_owned()) }
}

fn ids(state: &State) -> Vec<usize> {
    state.notes().iter().map(|n| n.id.0).collect()
}

#[test]
fn note_ids_follow_each_other() {
    assert_eq!(NoteId::default(), NoteId(0));
    assert_eq!(NoteId(0).next(), NoteId(1));
    assert_eq!(NoteId(41).next(), NoteId(42));
    assert!(NoteId(1) < NoteId(2));
}

#[test]
fn the_first_id_is_zero() {
    let state = State::new(Vec::new());
    assert!(state.can_append());
    assert_eq!(state.next_note_id(), NoteId(0));
}

#[test]
fn the_next_id_is_one_more_than_the_greatest() {
    let state = State::new(vec![note(3, "a"), note(8, "b"), note(5, "c")]);
    assert_eq!(state.next_note_id(), NoteId(9));
}

#[test]
fn a_full_store_says_so() {
    let state = State::new(vec![note(1, "a"), note(usize::MAX, "b")]);
    assert!(!state.can_append());
    let state = State::new(vec![note(usize::MAX - 1, "b")]);
    assert!(state.can_append());
    assert_eq!(state.next_note_id(), NoteId(usize::MAX));
}

#[test]
fn appending_keeps_the_order_and_gives_new_ids() {
    let mut state = State::new(Vec::new());
    let a = state.append_note_at(data("a", "A"), "t0".to_owned());
    let b = state.append_note_at(data("b", "B"), "t1".to_owned());
    let c = state.append_note(data("c", "C"));
    assert_eq!((a.id, b.id, c.id), (NoteId(0), NoteId(1), NoteId(2)));
    assert_eq!(a.timestamp, "t0");
    assert_eq!(b.content.0, "b");
    assert_eq!(b.html.0, "B");
    assert_eq!(ids(&state), vec![0, 1, 2]);
    assert_eq!(state.notes()[2].content.0, "c");
    assert_eq!(state.notes()[2].timestamp, c.timestamp);
}

#[test]
fn updating_replaces_content_and_html_in_place() {
    let mut state = State::new(vec![note(0, "a"), note(1, "b"), note(2, "c")]);
    state.update_note(NoteId(1), data("new", "<b>new</b>"));
    assert_eq!(ids(&state), vec![0, 1, 2]);
    assert_eq!(state.notes()[1].content.0, "new");
    assert_eq!(state.notes()[1].html.0, "<b>new</b>");
    assert_eq!(state.notes()[1].timestamp, "stamp 1");
    assert_eq!(state.notes()[0].content.0, "a");
    assert_eq!(state.notes()[2].content.0, "c");
}

#[test]
fn deleting_removes_the_note_and_keeps_the_order() {
    let mut state = State::new(vec![note(0, "a"), note(1, "b"), note(2, "c")]);
    state.delete_note(NoteId(1));
    assert_eq!(ids(&state), vec![0, 2]);
    state.delete_note(NoteId(0));
    assert_eq!(ids(&state), vec![2]);
    state.delete_note(NoteId(2));
    assert_eq!(ids(&state), Vec::<usize>::new());
}

#[test]
fn a_missing_id_changes_nothing() {
    let mut state = State::new(vec![note(0, "a"), note(2, "c")]);
    state.update_note(NoteId(1), data("x", "y"));
    state.delete_note(NoteId(7));
    assert_eq!(ids(&state), vec![0, 2]);
    assert_eq!(state.notes()[0].content.0, "a");
    assert_eq!(state.notes()[1].content.0, "c");
    assert_eq!(state.position(NoteId(1)), None);
    assert_eq!(state.position(NoteId(2)), Some(1));
}

#[test]
fn a_deleted_id_is_not_given_out_while_a_greater_one_is_left() {
    let mut state = State::new(vec![note(0, "a"), note(1, "b"), note(2, "c")]);
    state.delete_note(NoteId(1));
    let d = state.append_note_at(data("d", "D"), "t".to_owned());
    assert_eq!(d.id, NoteId(3));
    assert_eq!(ids(&state), vec![0, 2, 3]);
}

#[test]
fn the_greatest_id_is_given_out_again_once_deleted() {
    let mut state = State::new(vec![note(0, "a"), note(1, "b")]);
    state.delete_note(NoteId(1));
    let c = state.append_note_at(data("c", "C"), "t".to_owned());
    assert_eq!(c.id, NoteId(1));
    state.delete_note(NoteId(0));
    state.delete_note(NoteId(1));
    let d = state.append_note_at(data("d", "D"), "t".to_owned());
    assert_eq!(d.id, NoteId(0));
}

#[test]
fn only_the_first_of_two_equal_ids_is_touched() {
    let mut state = State::new(vec![note(5, "first"), note(5, "second")]);
    state.update_note(NoteId(5), data("changed", "H"));
    assert_eq!(state.notes()[0].content.0, "changed");
    assert_eq!(state.notes()[1].content.0, "second");
    state.delete_note(NoteId(5));
    assert_eq!(state.notes().len(), 1);
    assert_eq!(state.notes()[0].content.0, "second");
}
