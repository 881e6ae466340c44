use notekeeper::note::backends::format::append_note_to_file;
use notekeeper::note::{Note, NoteId};

#[test]
fn test_append_note_to_file() {
    let mut output = Vec::new();

    append_note_to_file(
        &Note {
            id: NoteId(0),
            timestamp: "foo".to_owned(),
            content: "bar".parse().unwrap(),
            html: "baz".parse().unwrap(),
        },
        &mut output,
    );

    assert_eq!(output, "foo\nbar\n\n---\n\n".as_bytes());
}
