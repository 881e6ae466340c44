//! The file-backed store: the notes in memory, and what has to be written
//! to the backing file after each change.

use crate::attachments::{local_link, public_link};
use crate::note::backends::format::{
    append_note_to_file, dashes, file_bytes, file_text, lemma_file_bytes_push, lemma_round_trip,
    lemma_stamped_dashless_is_storable, parse_records, parsed_records, record_bytes,
    record_views, storable, write_notes_to_file, YamlNote, YamlNoteView,
};
use crate::text::search::occurs_at;
use crate::note::backends::laws::{lemma_with_new_preserves, lemma_with_update_preserves};
use crate::note::backends::state::{
    all_rendered, apply, first_index, has_id, ids_unique, lemma_first_index, next_id, NoteData,
    Op, State,
};
use crate::note::markdown::{rendered_html, with_local_link, Markdown};
use crate::note::util::{is_stamp, local_timestamp};
use crate::note::{note_views, Note, NoteId, NoteView};
use crate::paths::{path_below, strip_path_prefix};
use vstd::prelude::*;

verus! {

/// What has to be done to the backing file after an operation.
#[derive(Debug, PartialEq, Eq)]
pub enum FileUpdate {
    /// Nothing: the file is as it should be, or the store has no file.
    Nothing,
    /// Append these bytes, creating the file if it is missing.
    Append(Vec<u8>),
    /// Replace the whole file by these bytes.
    Rewrite(Vec<u8>),
}

/// The mathematical value of a [`FileUpdate`].
pub enum FileUpdateView {
    Nothing,
    Append(Seq<u8>),
    Rewrite(Seq<u8>),
}

impl View for FileUpdate {
    type V = FileUpdateView;

    open spec fn view(&self) -> FileUpdateView {
        match self {
            FileUpdate::Nothing => FileUpdateView::Nothing,
            FileUpdate::Append(bytes) => FileUpdateView::Append(bytes@),
            FileUpdate::Rewrite(bytes) => FileUpdateView::Rewrite(bytes@),
        }
    }
}

/// The bytes of a file after `update` was done to it, where it held `file`
/// before.
pub open spec fn written(file: Seq<u8>, update: FileUpdateView) -> Seq<u8> {
    match update {
        FileUpdateView::Nothing => file,
        FileUpdateView::Append(bytes) => file + bytes,
        FileUpdateView::Rewrite(bytes) => bytes,
    }
}

/// The notes of `notes` are those of `records`, in order: each has its
/// position as identifier, the content of its record, the rendering of that
/// content as HTML, and the timestamp of its record, or one from the clock
/// where the record has none.
pub open spec fn loaded_from(notes: Seq<NoteView>, records: Seq<YamlNoteView>) -> bool {
    &&& notes.len() == records.len()
    &&& forall|i: int|
        #![trigger notes[i]]
        0 <= i < notes.len() ==> {
            &&& notes[i].id == i
            &&& notes[i].content == records[i].content
            &&& notes[i].is_rendered()
            &&& match records[i].timestamp {
                Some(t) => notes[i].timestamp == t,
                None => is_stamp(notes[i].timestamp),
            }
        }
}

/// The notes after a link of the note `id` was fetched to `relative` below
/// the attachments root: every marker of the link in the note's content is
/// resolved. Nothing changes where the note is gone or the file is not below
/// the root.
pub open spec fn with_resolved_link(
    notes: Seq<NoteView>,
    id: nat,
    external_link: Seq<char>,
    relative: Option<Seq<char>>,
) -> Seq<NoteView> {
    match (first_index(notes, id), relative) {
        (Some(i), Some(rel)) => apply(
            notes,
            Op::Update {
                id,
                content: with_local_link(notes[i].content, external_link, local_link(rel)),
            },
        ),
        _ => notes,
    }
}

/// Round trip: notes that are loaded from the text written for storable
/// notes have the same timestamps and contents, in the same order, their
/// positions as identifiers, and the renderings of their contents as HTML.
pub proof fn lemma_reload(notes: Seq<NoteView>, reloaded: Seq<NoteView>)
    requires
        forall|i: int| 0 <= i < notes.len() ==> storable(#[trigger] notes[i]),
        loaded_from(reloaded, parsed_records(file_text(notes))),
    ensures
        reloaded.len() == notes.len(),
        forall|i: int|
            #![trigger reloaded[i]]
            0 <= i < notes.len() ==> {
                &&& reloaded[i].id == i
                &&& reloaded[i].timestamp == notes[i].timestamp
                &&& reloaded[i].content == notes[i].content
                &&& reloaded[i].is_rendered()
            },
{
    lemma_round_trip(notes);
}

/// Builds the notes of a store from the records of its file. A record
/// without a timestamp gets the local time.
pub fn notes_of_records(records: &Vec<YamlNote>) -> (notes: Vec<Note>)
    ensures
        loaded_from(note_views(notes@), record_views(records@)),
{
    let mut notes: Vec<Note> = Vec::new();
    let mut i: usize = 0;
    while i < records.len()
        invariant
            i <= records.len(),
            notes.len() == i,
            loaded_from(note_views(notes@), record_views(records@).take(i as int)),
        decreases records.len() - i,
    {
        let timestamp = match &records[i].timestamp {
            Some(t) => t.clone(),
            None => local_timestamp(),
        };
        let note = Note::rendered(NoteId(i), timestamp, Markdown(records[i].content.clone()));
        proof {
            let before = note_views(notes@);
            let after = note_views(notes@.push(note));
            let read = record_views(records@);
            assert forall|j: int| 0 <= j < after.len() implies {
                &&& (#[trigger] after[j]).id == j
                &&& after[j].content == read.take(i + 1)[j].content
                &&& after[j].is_rendered()
                &&& match read.take(i + 1)[j].timestamp {
                    Some(t) => after[j].timestamp == t,
                    None => is_stamp(after[j].timestamp),
                }
            } by {
                if j < i {
                    assert(after[j] == before[j]);
                }
            }
        }
        notes.push(note);
        i += 1;
    }
    notes
}

/// A store of notes that mirrors them in a flat file.
#[derive(Debug)]
pub struct YamlBackend {
    path: Option<String>,
    state: State,
}

impl View for YamlBackend {
    type V = Seq<NoteView>;

    closed spec fn view(&self) -> Seq<NoteView> {
        self.state@
    }
}

impl YamlBackend {
    /// The path of the backing file, if the store has one.
    pub closed spec fn path_view(&self) -> Option<Seq<char>> {
        match self.path {
            Some(p) => Some(p@),
            None => None,
        }
    }

    /// The store mirrors its notes in a file.
    pub open spec fn is_persistent(&self) -> bool {
        self.path_view() is Some
    }

    /// No two notes share an identifier, and the HTML of every note is the
    /// rendering of its content.
    pub open spec fn wf(&self) -> bool {
        ids_unique(self@) && all_rendered(self@)
    }

    /// The store can take one more note: the next identifier fits the
    /// machine's word.
    pub open spec fn has_room(&self) -> bool {
        next_id(self@) <= usize::MAX
    }

    /// What an operation that added `note` asks of the file.
    pub open spec fn append_update(&self, note: NoteView) -> FileUpdateView {
        if self.is_persistent() {
            FileUpdateView::Append(record_bytes(note))
        } else {
            FileUpdateView::Nothing
        }
    }

    /// What an operation on the note `id` asks of the file, where the store
    /// held `before`: a rewrite with the notes as they are now if the note
    /// was there, nothing otherwise.
    pub open spec fn rewrite_update(&self, before: Seq<NoteView>, id: nat) -> FileUpdateView {
        if self.is_persistent() && has_id(before, id) {
            FileUpdateView::Rewrite(file_bytes(self@))
        } else {
            FileUpdateView::Nothing
        }
    }

    /// The file stays the mirror of the notes: where the store has a file
    /// that held the records of `before`, the file holds the records of the
    /// notes as they are now once `update` is done to it.
    pub open spec fn mirrors(&self, before: Seq<NoteView>, update: FileUpdateView) -> bool {
        self.is_persistent() ==> written(file_bytes(before), update) == file_bytes(self@)
    }

    /// A store without a file that holds `notes`.
    pub fn test(notes: Vec<Note>) -> (backend: Self)
        ensures
            backend@ == note_views(notes@),
            !backend.is_persistent(),
    {
        YamlBackend { path: None, state: State::new(notes) }
    }

    /// A store backed by the file at `path`, with the notes that the text of
    /// the file holds. `text` is `None` where the file could not be read:
    /// the store is then empty.
    pub fn load(path: String, text: Option<&str>) -> (backend: Self)
        ensures
            backend.path_view() == Some(path@),
            backend.wf(),
            match text {
                Some(t) => loaded_from(backend@, parsed_records(t@)),
                None => backend@.len() == 0,
            },
    {
        let notes = match text {
            Some(t) => notes_of_records(&parse_records(t)),
            None => Vec::new(),
        };
        YamlBackend { path: Some(path), state: State::new(notes) }
    }

    /// The path of the backing file, if the store has one.
    pub fn path(&self) -> (path: Option<&str>)
        ensures
            match path {
                Some(p) => self.path_view() == Some(p@),
                None => self.path_view() is None,
            },
    {
        match &self.path {
            Some(p) => Some(p.as_str()),
            None => None,
        }
    }

    /// Whether the store can take one more note.
    pub fn can_create(&self) -> (b: bool)
        ensures
            b == self.has_room(),
    {
        self.state.can_append()
    }

    /// What to do to the file after an operation on the note `id`.
    fn rewrite_if(&self, present: bool) -> (update: FileUpdate)
        ensures
            update@ == if self.is_persistent() && present {
                FileUpdateView::Rewrite(file_bytes(self@))
            } else {
                FileUpdateView::Nothing
            },
    {
        if self.path.is_some() && present {
            let mut bytes: Vec<u8> = Vec::new();
            write_notes_to_file(self.state.notes(), &mut bytes);
            FileUpdate::Rewrite(bytes)
        } else {
            FileUpdate::Nothing
        }
    }

    /// Creates a note with the given content and timestamp: renders the
    /// content, gives the note the next identifier, and appends it. Returns
    /// a copy of the note and the bytes to append to the file.
    pub fn create_note_at(&mut self, content: Markdown, timestamp: String) -> (r: (
        Note,
        FileUpdate,
    ))
        requires
            old(self).has_room(),
        ensures
            final(self)@ == apply(
                old(self)@,
                Op::Create { timestamp: timestamp@, content: content@ },
            ),
            r.0@ == final(self)@.last(),
            r.0@.id == next_id(old(self)@),
            r.1@ == final(self).append_update(r.0@),
            final(self).path_view() == old(self).path_view(),
            old(self).wf() ==> final(self).wf(),
            final(self).mirrors(old(self)@, r.1@),
    {
        proof {
            lemma_with_new_preserves(self@, timestamp@, content@, rendered_html(content@));
            lemma_file_bytes_push(
                self@,
                NoteView {
                    id: next_id(self@),
                    timestamp: timestamp@,
                    content: content@,
                    html: rendered_html(content@),
                },
            );
        }
        let data = NoteData { html: content.to_html(), content };
        let note = self.state.append_note_at(data, timestamp);
        let update = if self.path.is_some() {
            let mut bytes: Vec<u8> = Vec::new();
            append_note_to_file(&note, &mut bytes);
            FileUpdate::Append(bytes)
        } else {
            FileUpdate::Nothing
        };
        (note, update)
    }

    /// Creates a note with the given content, stamped with the local time.
    /// Returns a copy of the note and the bytes to append to the file.
    pub fn create_note(&mut self, content: Markdown) -> (r: (Note, FileUpdate))
        requires
            old(self).has_room(),
        ensures
            final(self)@ == apply(
                old(self)@,
                Op::Create { timestamp: r.0@.timestamp, content: content@ },
            ),
            r.0@ == final(self)@.last(),
            r.0@.id == next_id(old(self)@),
            is_stamp(r.0@.timestamp),
            (forall|i: int| !occurs_at(content@, dashes(), i)) ==> storable(r.0@),
            r.1@ == final(self).append_update(r.0@),
            final(self).path_view() == old(self).path_view(),
            old(self).wf() ==> final(self).wf(),
            final(self).mirrors(old(self)@, r.1@),
    {
        let r = self.create_note_at(content, local_timestamp());
        proof {
            if forall|i: int| !occurs_at(content@, dashes(), i) {
                lemma_stamped_dashless_is_storable(r.0@);
            }
        }
        r
    }

    /// Gives the note `note_id` new content, and renders it. Where no note
    /// has the identifier, nothing changes and nothing is written.
    pub fn update_note(&mut self, note_id: NoteId, content: Markdown) -> (update: FileUpdate)
        ensures
            final(self)@ == apply(
                old(self)@,
                Op::Update { id: note_id.0 as nat, content: content@ },
            ),
            !has_id(old(self)@, note_id.0 as nat) ==> final(self)@ == old(self)@,
            update@ == final(self).rewrite_update(old(self)@, note_id.0 as nat),
            final(self).path_view() == old(self).path_view(),
            old(self).wf() ==> final(self).wf(),
            final(self).mirrors(old(self)@, update@),
    {
        proof {
            lemma_first_index(self@, note_id.0 as nat);
            lemma_with_update_preserves(
                self@,
                note_id.0 as nat,
                content@,
                rendered_html(content@),
            );
        }
        let present = self.state.position(note_id).is_some();
        let data = NoteData { html: content.to_html(), content };
        self.state.update_note(note_id, data);
        self.rewrite_if(present)
    }

    /// Removes the note `note_id`. Where no note has the identifier, nothing
    /// changes and nothing is written.
    pub fn delete_note(&mut self, note_id: NoteId) -> (update: FileUpdate)
        ensures
            final(self)@ == apply(old(self)@, Op::Delete { id: note_id.0 as nat }),
            !has_id(old(self)@, note_id.0 as nat) ==> final(self)@ == old(self)@,
            update@ == final(self).rewrite_update(old(self)@, note_id.0 as nat),
            final(self).path_view() == old(self).path_view(),
            old(self).wf() ==> final(self).wf(),
            final(self).mirrors(old(self)@, update@),
    {
        proof {
            lemma_first_index(self@, note_id.0 as nat);
        }
        let present = self.state.position(note_id).is_some();
        self.state.delete_note(note_id);
        self.rewrite_if(present)
    }

    /// Copies of all notes, in the order in which they were added.
    pub fn get_all_notes(&self) -> (notes: Vec<Note>)
        ensures
            note_views(notes@) == self@,
    {
        let stored = self.state.notes();
        let mut notes: Vec<Note> = Vec::new();
        let mut i: usize = 0;
        while i < stored.len()
            invariant
                i <= stored.len(),
                notes.len() == i,
                note_views(notes@) == note_views(stored@).take(i as int),
            decreases stored.len() - i,
        {
            let copy = stored[i].clone();
            notes.push(copy);
            i += 1;
        }
        notes
    }

    /// A copy of the first note with the identifier `id`, if there is one.
    pub fn get_note_by_id(&self, id: NoteId) -> (note: Option<Note>)
        ensures
            match note {
                Some(n) => first_index(self@, id.0 as nat) matches Some(i) && n@ == self@[i],
                None => !has_id(self@, id.0 as nat),
            },
    {
        proof {
            lemma_first_index(self@, id.0 as nat);
        }
        match self.state.position(id) {
            Some(i) => Some(self.state.notes()[i].clone()),
            None => None,
        }
    }

    /// Records that a link of the note `note_id` has a local copy at
    /// `relative` below the attachments root, or that it has none that can
    /// be served: every marker `+<external_link>` in the content of the note
    /// becomes the link followed by a markdown link to
    /// `/attachments/<relative>`, and the note is rendered anew. Nothing
    /// changes where the note is gone or `relative` is `None`.
    pub fn resolve_link(
        &mut self,
        note_id: NoteId,
        external_link: &str,
        relative: Option<&str>,
    ) -> (update: FileUpdate)
        ensures
            final(self)@ == with_resolved_link(
                old(self)@,
                note_id.0 as nat,
                external_link@,
                match relative {
                    Some(rel) => Some(rel@),
                    None => None,
                },
            ),
            update@ == if relative is Some {
                final(self).rewrite_update(old(self)@, note_id.0 as nat)
            } else {
                FileUpdateView::Nothing
            },
            final(self).path_view() == old(self).path_view(),
            old(self).wf() ==> final(self).wf(),
            final(self).mirrors(old(self)@, update@),
    {
        proof {
            lemma_first_index(self@, note_id.0 as nat);
        }
        let Some(note) = self.get_note_by_id(note_id) else {
            return FileUpdate::Nothing;
        };
        let Some(rel) = relative else {
            return FileUpdate::Nothing;
        };
        let link = public_link(rel);
        let mut content = note.content;
        content.update_local_link(external_link, link.as_str());
        self.update_note(note_id, content)
    }

    /// Records that a link of the note `note_id` was fetched to the file at
    /// `local_path`: as [`Self::resolve_link`], with the path of the file
    /// taken relative to `attachments_dir`. Nothing changes where the file
    /// is not below that directory.
    pub fn update_local_link(
        &mut self,
        note_id: NoteId,
        external_link: &str,
        local_path: &str,
        attachments_dir: &str,
    ) -> (update: FileUpdate)
        ensures
            final(self)@ == with_resolved_link(
                old(self)@,
                note_id.0 as nat,
                external_link@,
                path_below(local_path@, attachments_dir@),
            ),
            update@ == if path_below(local_path@, attachments_dir@) is Some {
                final(self).rewrite_update(old(self)@, note_id.0 as nat)
            } else {
                FileUpdateView::Nothing
            },
            final(self).path_view() == old(self).path_view(),
            old(self).wf() ==> final(self).wf(),
            final(self).mirrors(old(self)@, update@),
    {
        match strip_path_prefix(local_path, attachments_dir) {
            Some(rel) => self.resolve_link(note_id, external_link, Some(rel.as_str())),
            None => self.resolve_link(note_id, external_link, None),
        }
    }
}

} // verus!
