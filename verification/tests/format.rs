use notekeeper::note::backends::format::{
    append_note_to_file, is_blank_chunk, parse_records, record_of_chunk, write_notes_to_file,
    YamlNote,
};
use notekeeper::note::html::Html;
use notekeeper::note::markdown::Markdown;
use notekeeper::note::{Note, NoteId};

fn note(id: usize, timestamp: &str, content: &str) -> Note {
    Note {
        id: NoteId(id),
        timestamp: timestamp.to_owned(),
        content: Markdown(content.to_owned()),
        html: Html(String::new()),
    }
}

fn record(timestamp: Option<&str>, content: &str) -> YamlNote {
    YamlNote { timestamp: timestamp.map(|t| t.to_owned()), content: content.to_owned() }
}

#[test]
fn a_record_is_appended_to_what_the_file_holds() {
    let mut file = b"before".to_vec();
    append_note_to_file(&note(3, "2024-01-01 00:00:00", "héllo"), &mut file);
    assert_eq!(file, "before2024-01-01 00:00:00\nhéllo\n\n---\n\n".as_bytes());
}

#[test]
fn writing_all_notes_replaces_the_file() {
    let mut file = b"stale".to_vec();
    let notes = vec![note(0, "t0", "a"), note(1, "t1", "b\nc")];
    write_notes_to_file(&notes, &mut file);
    assert_eq!(file, "t0\na\n\n---\n\nt1\nb\nc\n\n---\n\n".as_bytes());
    write_notes_to_file(&Vec::new(), &mut file);
    assert_eq!(file, b"");
}

#[test]
fn two_records_are_read_in_file_order() {
    let records =
        parse_records("2024-01-01 00:00:00\nhello\n\n---\n\n2024-01-02 00:00:00\nworld\n\n---\n\n");
    assert_eq!(
        records,
        vec![
            record(Some("2024-01-01 00:00:00"), "hello"),
            record(Some("2024-01-02 00:00:00"), "world"),
        ]
    );
}

#[test]
fn blank_chunks_are_dropped() {
    assert_eq!(parse_records(""), Vec::new());
    assert_eq!(parse_records("  \n "), Vec::new());
    assert_eq!(parse_records("\n\n---\n\n"), Vec::new());
    assert_eq!(
        parse_records("\n\n---\n\n \n\n---\n\nt\nc\n\n---\n\n\t"),
        vec![record(Some("t"), "c")]
    );
}

#[test]
fn a_chunk_without_line_break_is_all_content() {
    assert_eq!(parse_records("just text"), vec![record(None, "just text")]);
    assert_eq!(record_of_chunk(&" padded ".chars().collect()), record(None, " padded "));
}

#[test]
fn timestamp_and_content_are_kept_as_they_are() {
    assert_eq!(
        record_of_chunk(&"  stamp \n  first\nsecond \n".chars().collect()),
        record(Some("  stamp "), "  first\nsecond \n")
    );
    assert_eq!(record_of_chunk(&"\ncontent".chars().collect()), record(Some(""), "content"));
    assert_eq!(record_of_chunk(&"stamp\n".chars().collect()), record(Some("stamp"), ""));
    assert_eq!(record_of_chunk(&"t\n\n".chars().collect()), record(Some("t"), "\n"));
}

#[test]
fn whitespace_at_the_end_of_a_content_is_read_back() {
    assert_eq!(parse_records("t\nx \n\n---\n\n"), vec![record(Some("t"), "x ")]);
    assert_eq!(parse_records("t\nhello\n\n\n---\n\n"), vec![record(Some("t"), "hello\n")]);
    assert_eq!(parse_records(" t\n x\n\n---\n\n"), vec![record(Some(" t"), " x")]);
}

#[test]
fn a_record_without_closing_delimiter_is_read() {
    assert_eq!(
        parse_records("t0\na\n\n---\n\nt1\nb"),
        vec![record(Some("t0"), "a"), record(Some("t1"), "b")]
    );
}

#[test]
fn blank_means_whitespace_only() {
    assert!(is_blank_chunk(&"".chars().collect()));
    assert!(is_blank_chunk(&" \n\t\u{a0}".chars().collect()));
    assert!(!is_blank_chunk(&" . ".chars().collect()));
}

#[test]
fn what_is_written_reads_back() {
    let notes = vec![
        note(7, "2024-03-04 05:06:07", "first"),
        note(9, "2024-03-04 05:06:08", "second\n\nwith --- dashes\nand ünïcödé"),
        note(2, "", "no stamp"),
        note(4, "only stamp", ""),
        note(5, "t", "x "),
        note(6, " t ", "\thello\n"),
        note(8, "t", "\n\n"),
        note(1, "t", "a\n\n--\n\nb"),
    ];
    let mut file = Vec::new();
    write_notes_to_file(&notes, &mut file);
    let text = String::from_utf8(file).unwrap();
    let records = parse_records(&text);
    assert_eq!(records.len(), notes.len());
    for (record, note) in records.iter().zip(notes.iter()) {
        assert_eq!(record.timestamp.as_deref(), Some(note.timestamp.as_str()));
        assert_eq!(record.content, note.content.0);
    }
}

#[test]
fn a_blank_record_does_not_read_back() {
    let notes = vec![note(0, " ", "\t\n"), note(1, "t", "kept")];
    let mut file = Vec::new();
    write_notes_to_file(&notes, &mut file);
    let records = parse_records(&String::from_utf8(file).unwrap());
    assert_eq!(records, vec![record(Some("t"), "kept")]);
}

#[test]
fn a_line_break_in_the_timestamp_does_not_read_back() {
    let notes = vec![note(0, "t\nu", "c")];
    let mut file = Vec::new();
    write_notes_to_file(&notes, &mut file);
    let records = parse_records(&String::from_utf8(file).unwrap());
    assert_eq!(records, vec![record(Some("t"), "u\nc")]);
}

#[test]
fn content_that_holds_the_delimiter_does_not_read_back() {
    let notes = vec![note(0, "t", "a\n\n---\n\nb")];
    let mut file = Vec::new();
    write_notes_to_file(&notes, &mut file);
    let records = parse_records(&String::from_utf8(file).unwrap());
    assert_eq!(records, vec![record(Some("t"), "a"), record(None, "b")]);
}
