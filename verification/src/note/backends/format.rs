//! The flat-file format of a note store: records of a timestamp line and a
//! content, each closed by a line of three dashes between blank lines.

use crate::note::util::is_stamp;
use crate::note::{note_views, Note, NoteView};
use crate::text::chars::{char_is_whitespace, chars_of, copy_range, string_of};
use crate::text::search::{find, find_in, lemma_find_from, lemma_find_from_is, occurs_at};
use crate::text::split::{split, split_all, views};
use crate::text::trim::is_blank;
use vstd::prelude::*;
use vstd::utf8::{
    decode_utf8, encode_utf8, encode_utf8_decode_utf8, encode_utf8_valid_utf8,
    is_ascii_chars_encode_utf8, valid_utf8,
};

verus! {

/// The text that closes every record.
pub open spec fn delimiter() -> Seq<char> {
    seq!['\n', '\n', '-', '-', '-', '\n', '\n']
}

/// The text of the record of a note with this timestamp and content.
pub open spec fn record_text(timestamp: Seq<char>, content: Seq<char>) -> Seq<char> {
    timestamp + seq!['\n'] + content + delimiter()
}

/// The text of a file that holds the records of `notes`, in order.
pub open spec fn file_text(notes: Seq<NoteView>) -> Seq<char>
    decreases notes.len(),
{
    if notes.len() == 0 {
        Seq::empty()
    } else {
        record_text(notes[0].timestamp, notes[0].content) + file_text(notes.skip(1))
    }
}

/// One record as it is read from a file. A record whose text holds no line
/// break has no timestamp of its own.
#[derive(Debug, PartialEq, Eq)]
pub struct YamlNote {
    pub timestamp: Option<String>,
    pub content: String,
}

/// The mathematical value of a [`YamlNote`].
pub struct YamlNoteView {
    pub timestamp: Option<Seq<char>>,
    pub content: Seq<char>,
}

impl View for YamlNote {
    type V = YamlNoteView;

    open spec fn view(&self) -> YamlNoteView {
        YamlNoteView {
            timestamp: match self.timestamp {
                Some(t) => Some(t@),
                None => None,
            },
            content: self.content@,
        }
    }
}

/// The views of the records of `records`, in order.
pub open spec fn record_views(records: Seq<YamlNote>) -> Seq<YamlNoteView> {
    Seq::new(records.len(), |i: int| records[i]@)
}

/// The record that a chunk of a file stands for. The chunk is cut at its
/// first line break: what stands before it is the timestamp, what stands
/// after it the content, both as they are. A chunk without a line break is
/// all content.
pub open spec fn chunk_record(chunk: Seq<char>) -> YamlNoteView {
    match find(chunk, seq!['\n']) {
        Some(i) => YamlNoteView { timestamp: Some(chunk.take(i)), content: chunk.skip(i + 1) },
        None => YamlNoteView { timestamp: None, content: chunk },
    }
}

/// The records of the chunks that are not blank, in order.
pub open spec fn chunk_records(chunks: Seq<Seq<char>>) -> Seq<YamlNoteView>
    decreases chunks.len(),
{
    if chunks.len() == 0 {
        Seq::empty()
    } else if is_blank(chunks[0]) {
        chunk_records(chunks.skip(1))
    } else {
        seq![chunk_record(chunks[0])] + chunk_records(chunks.skip(1))
    }
}

/// The records that the text of a file holds: the text is split on the
/// delimiter, blank chunks are dropped, and each other chunk is a record.
pub open spec fn parsed_records(text: Seq<char>) -> Seq<YamlNoteView> {
    chunk_records(split(text, delimiter()))
}

/// Whether every character of `s` is whitespace.
pub fn is_blank_chunk(s: &Vec<char>) -> (b: bool)
    ensures
        b == is_blank(s@),
{
    let mut i: usize = 0;
    while i < s.len()
        invariant
            i <= s.len(),
            forall|j: int| 0 <= j < i ==> char_is_whitespace(#[trigger] s@[j]),
        decreases s.len() - i,
    {
        if !s[i].is_whitespace() {
            return false;
        }
        i += 1;
    }
    true
}

/// Reads one chunk of a file as a record.
pub fn record_of_chunk(chunk: &Vec<char>) -> (record: YamlNote)
    ensures
        record@ == chunk_record(chunk@),
{
    let newline: Vec<char> = vec!['\n'];
    assert(newline@ =~= seq!['\n']);
    proof {
        lemma_find_from(chunk@, newline@, 0);
    }
    match find_in(chunk, &newline, 0) {
        Some(i) => {
            assert(i < chunk.len());
            let head = copy_range(chunk, 0, i);
            let tail = copy_range(chunk, i + 1, chunk.len());
            YamlNote { timestamp: Some(string_of(&head)), content: string_of(&tail) }
        },
        None => YamlNote { timestamp: None, content: string_of(chunk) },
    }
}

/// Reads the records that the text of a file holds.
pub fn parse_records(text: &str) -> (records: Vec<YamlNote>)
    ensures
        record_views(records@) == parsed_records(text@),
{
    let delim: Vec<char> = vec!['\n', '\n', '-', '-', '-', '\n', '\n'];
    assert(delim@ =~= delimiter());
    let chunks = split_all(&chars_of(text), &delim);
    let mut records: Vec<YamlNote> = Vec::new();
    let mut k: usize = 0;
    assert(views(chunks@).skip(0) =~= views(chunks@));
    while k < chunks.len()
        invariant
            k <= chunks.len(),
            chunk_records(views(chunks@)) == record_views(records@) + chunk_records(
                views(chunks@).skip(k as int),
            ),
        decreases chunks.len() - k,
    {
        let ghost rest = views(chunks@).skip(k as int);
        assert(rest.skip(1) =~= views(chunks@).skip(k + 1));
        if !is_blank_chunk(&chunks[k]) {
            let record = record_of_chunk(&chunks[k]);
            records.push(record);
        }
        k += 1;
    }
    records
}

/// The bytes of the record of `note`: its text in UTF-8.
pub open spec fn record_bytes(note: NoteView) -> Seq<u8> {
    encode_utf8(record_text(note.timestamp, note.content))
}

/// The bytes of a file that holds the records of `notes`, in order.
pub open spec fn file_bytes(notes: Seq<NoteView>) -> Seq<u8> {
    encode_utf8(file_text(notes))
}

/// The UTF-8 encoding of a concatenation is the concatenation of the
/// encodings.
pub proof fn lemma_encode_concat(a: Seq<char>, b: Seq<char>)
    ensures
        encode_utf8(a + b) == encode_utf8(a) + encode_utf8(b),
    decreases a.len(),
{
    if a.len() > 0 {
        assert((a + b).drop_first() =~= a.drop_first() + b);
        lemma_encode_concat(a.drop_first(), b);
    }
}

/// The text of a file grows by one record when a note is appended.
pub proof fn lemma_file_text_push(notes: Seq<NoteView>, note: NoteView)
    ensures
        file_text(notes.push(note)) == file_text(notes) + record_text(
            note.timestamp,
            note.content,
        ),
    decreases notes.len(),
{
    let longer = notes.push(note);
    if notes.len() == 0 {
        assert(file_text(longer.skip(1)) =~= Seq::<char>::empty());
    } else {
        assert(longer.skip(1) =~= notes.skip(1).push(note));
        lemma_file_text_push(notes.skip(1), note);
    }
}

/// The bytes of a file grow by one record when a note is appended.
pub proof fn lemma_file_bytes_push(notes: Seq<NoteView>, note: NoteView)
    ensures
        file_bytes(notes.push(note)) == file_bytes(notes) + record_bytes(note),
{
    lemma_file_text_push(notes, note);
    lemma_encode_concat(file_text(notes), record_text(note.timestamp, note.content));
}

/// Appends `bytes` to `out`.
fn push_bytes(out: &mut Vec<u8>, bytes: &[u8])
    ensures
        final(out)@ == old(out)@ + bytes@,
{
    let mut i: usize = 0;
    while i < bytes.len()
        invariant
            i <= bytes.len(),
            out@ == old(out)@ + bytes@.take(i as int),
        decreases bytes.len() - i,
    {
        out.push(bytes[i]);
        i += 1;
    }
}

/// Appends the record of `note` to the bytes of a file: the timestamp, a
/// line break, the content, and the delimiter.
pub fn append_note_to_file(note: &Note, file: &mut Vec<u8>)
    ensures
        final(file)@ == old(file)@ + record_bytes(note@),
{
    push_bytes(file, note.timestamp.as_str().as_bytes());
    file.push(0x0au8);
    push_bytes(file, note.content.as_str().as_bytes());
    file.push(0x0au8);
    file.push(0x0au8);
    file.push(0x2du8);
    file.push(0x2du8);
    file.push(0x2du8);
    file.push(0x0au8);
    file.push(0x0au8);
    proof {
        let ts = note@.timestamp;
        let content = note@.content;
        let line_break = seq!['\n'];
        let line_break_bytes = seq![0x0au8];
        let delimiter_bytes = seq![0x0au8, 0x0au8, 0x2du8, 0x2du8, 0x2du8, 0x0au8, 0x0au8];
        is_ascii_chars_encode_utf8(line_break);
        is_ascii_chars_encode_utf8(delimiter());
        lemma_encode_concat(ts, line_break);
        lemma_encode_concat(ts + line_break, content);
        lemma_encode_concat(ts + line_break + content, delimiter());
        assert(file@ =~= old(file)@ + (encode_utf8(ts) + line_break_bytes + encode_utf8(content)
            + delimiter_bytes));
    }
}

/// Replaces the bytes of a file by the records of `notes`, in order.
pub fn write_notes_to_file(notes: &Vec<Note>, file: &mut Vec<u8>)
    ensures
        final(file)@ == file_bytes(note_views(notes@)),
{
    file.clear();
    let mut k: usize = 0;
    while k < notes.len()
        invariant
            k <= notes.len(),
            file@ == file_bytes(note_views(notes@).take(k as int)),
        decreases notes.len() - k,
    {
        proof {
            let done = note_views(notes@).take(k as int);
            assert(note_views(notes@).take(k + 1) =~= done.push(notes@[k as int]@));
            lemma_file_bytes_push(done, notes@[k as int]@);
        }
        append_note_to_file(&notes[k], file);
        k += 1;
    }
    assert(note_views(notes@).take(notes.len() as int) =~= note_views(notes@));
}

/// The timestamp line and the content of a note, as its record holds them
/// before the delimiter.
pub open spec fn record_body(note: NoteView) -> Seq<char> {
    note.timestamp + seq!['\n'] + note.content
}

/// A note whose record reads back as it was written: the timestamp holds
/// no line break, the record is not blank, and the delimiter occurs nowhere
/// in the record before the one that closes it.
pub open spec fn storable(note: NoteView) -> bool {
    &&& forall|i: int| 0 <= i < note.timestamp.len() ==> note.timestamp[i] != '\n'
    &&& !is_blank(record_body(note))
    &&& forall|i: int|
        0 <= i < record_body(note).len() ==> !occurs_at(
            record_body(note) + delimiter(),
            delimiter(),
            i,
        )
}

/// Three dashes in a row.
pub open spec fn dashes() -> Seq<char> {
    seq!['-', '-', '-']
}

/// A note is storable where its content holds no three dashes in a row,
/// its timestamp holds no line break, and its record is not blank.
pub proof fn lemma_dashless_is_storable(note: NoteView)
    requires
        forall|i: int| 0 <= i < note.timestamp.len() ==> note.timestamp[i] != '\n',
        forall|i: int| !occurs_at(note.content, dashes(), i),
        !is_blank(record_body(note)),
    ensures
        storable(note),
{
    let record = record_body(note);
    let text = record + delimiter();
    let start = note.timestamp.len() + 1;
    assert forall|i: int| 0 <= i < record.len() implies !occurs_at(text, delimiter(), i) by {
        if occurs_at(text, delimiter(), i) {
            let found = text.subrange(i, i + 7);
            if note.timestamp.len() <= i && i + 5 <= record.len() {
                assert(note.content.subrange(i + 2 - start, i + 5 - start) =~= found.subrange(
                    2,
                    5,
                ));
                assert(found.subrange(2, 5) =~= dashes());
                assert(occurs_at(note.content, dashes(), i + 2 - start));
            }
        }
    }
}

/// A note that the clock stamped and whose content holds no three dashes
/// in a row is storable.
pub proof fn lemma_stamped_dashless_is_storable(note: NoteView)
    requires
        is_stamp(note.timestamp),
        forall|i: int| !occurs_at(note.content, dashes(), i),
    ensures
        storable(note),
{
    assert(record_body(note)[0] == note.timestamp[0]);
    lemma_dashless_is_storable(note);
}

/// The record that the file holds for `note`.
pub open spec fn stored_record(note: NoteView) -> YamlNoteView {
    YamlNoteView { timestamp: Some(note.timestamp), content: note.content }
}

/// The records that the file holds for `notes`, in order.
pub open spec fn stored_records(notes: Seq<NoteView>) -> Seq<YamlNoteView> {
    Seq::new(notes.len(), |i: int| stored_record(notes[i]))
}

/// The chunk of a storable note reads back as its timestamp and content.
proof fn lemma_chunk_of_storable(note: NoteView)
    requires
        storable(note),
    ensures
        chunk_record(record_body(note)) == stored_record(note),
{
    let ts = note.timestamp;
    let line_break = seq!['\n'];
    let chunk = ts + line_break + note.content;
    let at = ts.len() as int;
    assert(chunk.subrange(at, at + 1) =~= line_break);
    assert forall|j: int| 0 <= j < at implies !occurs_at(chunk, line_break, j) by {
        if occurs_at(chunk, line_break, j) {
            assert(chunk.subrange(j, j + 1)[0] == chunk[j]);
        }
    }
    lemma_find_from_is(chunk, line_break, 0, at);
    assert(chunk.take(at) =~= ts);
    assert(chunk.skip(at + 1) =~= note.content);
}

/// Round trip: the text written for storable notes reads back as their
/// timestamps and contents, in order.
pub proof fn lemma_round_trip(notes: Seq<NoteView>)
    requires
        forall|i: int| 0 <= i < notes.len() ==> storable(#[trigger] notes[i]),
    ensures
        parsed_records(file_text(notes)) == stored_records(notes),
    decreases notes.len(),
{
    let delim = delimiter();
    if notes.len() == 0 {
        let text = file_text(notes);
        assert(chunk_records(split(text, delim).skip(1)) =~= Seq::<YamlNoteView>::empty());
    } else {
        let note = notes[0];
        let rest = notes.skip(1);
        let chunk = note.timestamp + seq!['\n'] + note.content;
        let tail = file_text(rest);
        let text = file_text(notes);
        let at = chunk.len() as int;
        assert(text.subrange(at, at + delim.len()) =~= delim);
        assert forall|j: int| 0 <= j < at implies !occurs_at(text, delim, j) by {
            if occurs_at(text, delim, j) {
                assert((chunk + delim).subrange(j, j + delim.len()) =~= text.subrange(
                    j,
                    j + delim.len(),
                ));
                assert(occurs_at(chunk + delim, delim, j));
            }
        }
        lemma_find_from_is(text, delim, 0, at);
        assert(text.take(at) =~= chunk);
        assert(text.skip(at + delim.len()) =~= tail);
        let chunks = split(text, delim);
        assert(chunks.skip(1) =~= split(tail, delim));
        lemma_chunk_of_storable(note);
        lemma_round_trip(rest);
    }
}

/// Round trip through bytes: decoding the bytes written for storable notes
/// and reading the text gives back their timestamps and contents, in order.
pub proof fn lemma_round_trip_bytes(notes: Seq<NoteView>)
    requires
        forall|i: int| 0 <= i < notes.len() ==> storable(#[trigger] notes[i]),
    ensures
        valid_utf8(file_bytes(notes)),
        parsed_records(decode_utf8(file_bytes(notes))) == stored_records(notes),
{
    encode_utf8_valid_utf8(file_text(notes));
    encode_utf8_decode_utf8(file_text(notes));
    lemma_round_trip(notes);
}

} // verus!
