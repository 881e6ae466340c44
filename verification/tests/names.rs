use notekeeper::attachments::{public_link, upload_name};
use notekeeper::note::{NoteId, NotesError};
use notekeeper::text::decimal::{decimal_of, digit_of};

#[test]
fn numbers_are_written_in_decimal() {
    for n in [0usize, 1, 9, 10, 11, 99, 100, 101, 1234567890, usize::MAX] {
        let digits: String = decimal_of(n).into_iter().collect();
        assert_eq!(digits, n.to_string());
    }
    assert_eq!(digit_of(0), '0');
    assert_eq!(digit_of(7), '7');
    assert_eq!(digit_of(9), '9');
}

#[test]
fn a_note_id_is_shown_with_a_hash() {
    assert_eq!(NoteId(0).to_string(), "#0");
    assert_eq!(NoteId(42).to_string(), "#42");
    assert_eq!(NoteId(1000).to_string(), "#1000");
}

#[test]
fn an_error_is_shown_with_its_kind() {
    assert_eq!(NotesError::Io("disk full".to_owned()).to_string(), "I/O error: disk full");
    assert_eq!(
        NotesError::Internal("poisoned lock".to_owned()).to_string(),
        "internal error: poisoned lock"
    );
    assert_eq!(NotesError::Io(String::new()).to_string(), "I/O error: ");
}

#[test]
fn uploads_get_a_number_before_the_extension() {
    assert_eq!(upload_name("file", "txt", 1), "file-1.txt");
    assert_eq!(upload_name("file", "txt", 12), "file-12.txt");
    assert_eq!(upload_name("archive.tar", "gz", 2), "archive.tar-2.gz");
    assert_eq!(upload_name("README", "", 3), "README-3");
    assert_eq!(upload_name("", "", 1), "-1");
}

#[test]
fn public_links_start_at_the_mount_path() {
    assert_eq!(public_link("webpages/a.html"), "/attachments/webpages/a.html");
    assert_eq!(public_link("photo.png"), "/attachments/photo.png");
    assert_eq!(public_link(""), "/attachments/");
}
