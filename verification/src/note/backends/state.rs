//! The in-memory sequence of notes of a store.

use crate::note::html::Html;
use crate::note::markdown::{rendered_html, Markdown};
use crate::note::util::{is_stamp, local_timestamp};
use crate::note::{note_views, Note, NoteId, NoteView};
use vstd::prelude::*;

verus! {

/// The index of the first note at or after `from` whose identifier is `id`,
/// if there is one.
pub open spec fn first_index_from(notes: Seq<NoteView>, id: nat, from: int) -> Option<int>
    decreases notes.len() - from,
{
    if from < 0 || from >= notes.len() {
        None
    } else if notes[from].id == id {
        Some(from)
    } else {
        first_index_from(notes, id, from + 1)
    }
}

/// The index of the first note whose identifier is `id`, if there is one.
pub open spec fn first_index(notes: Seq<NoteView>, id: nat) -> Option<int> {
    first_index_from(notes, id, 0)
}

/// Some note of `notes` has the identifier `id`.
pub open spec fn has_id(notes: Seq<NoteView>, id: nat) -> bool {
    exists|i: int| 0 <= i < notes.len() && #[trigger] notes[i].id == id
}

/// No two notes of `notes` share an identifier.
pub open spec fn ids_unique(notes: Seq<NoteView>) -> bool {
    forall|i: int, j: int|
        0 <= i < j < notes.len() ==> #[trigger] notes[i].id != #[trigger] notes[j].id
}

/// The HTML of every note of `notes` is the rendering of its content.
pub open spec fn all_rendered(notes: Seq<NoteView>) -> bool {
    forall|i: int| 0 <= i < notes.len() ==> (#[trigger] notes[i]).is_rendered()
}

/// The identifier that the next new note gets: one more than the greatest
/// identifier in `notes`, and 0 where there is no note.
pub open spec fn next_id(notes: Seq<NoteView>) -> nat
    decreases notes.len(),
{
    if notes.len() == 0 {
        0
    } else {
        let before = next_id(notes.drop_last());
        if notes.last().id + 1 > before {
            notes.last().id + 1
        } else {
            before
        }
    }
}

/// `notes` with the content and HTML of the first note that has the
/// identifier `id` replaced; `notes` itself where no note has it.
pub open spec fn with_update(
    notes: Seq<NoteView>,
    id: nat,
    content: Seq<char>,
    html: Seq<char>,
) -> Seq<NoteView> {
    match first_index(notes, id) {
        Some(i) => notes.update(i, NoteView { content, html, ..notes[i] }),
        None => notes,
    }
}

/// `notes` without the first note that has the identifier `id`; `notes`
/// itself where no note has it.
pub open spec fn without(notes: Seq<NoteView>, id: nat) -> Seq<NoteView> {
    match first_index(notes, id) {
        Some(i) => notes.remove(i),
        None => notes,
    }
}

/// `notes` followed by a new note, which gets the next identifier.
pub open spec fn with_new(
    notes: Seq<NoteView>,
    timestamp: Seq<char>,
    content: Seq<char>,
    html: Seq<char>,
) -> Seq<NoteView> {
    notes.push(NoteView { id: next_id(notes), timestamp, content, html })
}

/// One operation on a store.
pub enum Op {
    /// A new note with this content, stamped with this time.
    Create { timestamp: Seq<char>, content: Seq<char> },
    /// New content for the note with this identifier.
    Update { id: nat, content: Seq<char> },
    /// Removal of the note with this identifier.
    Delete { id: nat },
}

/// The notes of a store after `op`, where it held `notes` before. The HTML
/// of a created or updated note is the rendering of its content.
pub open spec fn apply(notes: Seq<NoteView>, op: Op) -> Seq<NoteView> {
    match op {
        Op::Create { timestamp, content } => with_new(
            notes,
            timestamp,
            content,
            rendered_html(content),
        ),
        Op::Update { id, content } => with_update(notes, id, content, rendered_html(content)),
        Op::Delete { id } => without(notes, id),
    }
}

/// The notes of a store after the operations `ops`, in order.
pub open spec fn apply_all(notes: Seq<NoteView>, ops: Seq<Op>) -> Seq<NoteView>
    decreases ops.len(),
{
    if ops.len() == 0 {
        notes
    } else {
        apply_all(apply(notes, ops[0]), ops.skip(1))
    }
}

/// `first_index_from` returns the first note with the identifier at or
/// after `from`, and `None` exactly when there is none.
pub proof fn lemma_first_index_from(notes: Seq<NoteView>, id: nat, from: int)
    requires
        0 <= from,
    ensures
        match first_index_from(notes, id, from) {
            Some(i) => from <= i < notes.len() && notes[i].id == id && forall|j: int|
                from <= j < i ==> notes[j].id != id,
            None => forall|j: int| from <= j < notes.len() ==> notes[j].id != id,
        },
    decreases notes.len() - from,
{
    if from < notes.len() && notes[from].id != id {
        lemma_first_index_from(notes, id, from + 1);
    }
}

/// There is a first note with the identifier exactly when some note has it.
pub proof fn lemma_first_index(notes: Seq<NoteView>, id: nat)
    ensures
        first_index(notes, id) is Some <==> has_id(notes, id),
        first_index(notes, id) matches Some(i) ==> 0 <= i < notes.len() && notes[i].id == id,
{
    lemma_first_index_from(notes, id, 0);
}

/// The next identifier is 0 for no notes, and otherwise one more than the
/// identifier of some note and greater than that of every note.
pub proof fn lemma_next_id(notes: Seq<NoteView>)
    ensures
        notes.len() == 0 ==> next_id(notes) == 0,
        notes.len() > 0 ==> exists|i: int|
            0 <= i < notes.len() && (#[trigger] notes[i]).id + 1 == next_id(notes),
        forall|i: int| 0 <= i < notes.len() ==> (#[trigger] notes[i]).id < next_id(notes),
    decreases notes.len(),
{
    if notes.len() > 0 {
        let front = notes.drop_last();
        lemma_next_id(front);
        let last = notes.len() - 1;
        assert forall|i: int| 0 <= i < notes.len() implies (#[trigger] notes[i]).id < next_id(
            notes,
        ) by {
            if i < last {
                assert(notes[i] == front[i]);
            }
        }
        if notes[last].id + 1 <= next_id(front) {
            let w = choose|i: int|
                0 <= i < front.len() && (#[trigger] front[i]).id + 1 == next_id(front);
            assert(notes[w] == front[w]);
        }
    }
}

/// The content and the HTML of a note, before it has an identifier.
#[derive(Debug)]
pub struct NoteData {
    pub content: Markdown,
    pub html: Html,
}

/// The notes of a store, in the order in which they were added.
#[derive(Debug)]
pub struct State {
    notes: Vec<Note>,
}

impl View for State {
    type V = Seq<NoteView>;

    closed spec fn view(&self) -> Seq<NoteView> {
        note_views(self.notes@)
    }
}

impl State {
    /// A store that holds `notes`, in order.
    pub fn new(notes: Vec<Note>) -> (state: Self)
        ensures
            state@ == note_views(notes@),
    {
        State { notes }
    }

    /// The store can take one more note: the next identifier fits the
    /// machine's word.
    pub open spec fn has_room(&self) -> bool {
        next_id(self@) <= usize::MAX
    }

    /// Whether the store can take one more note.
    pub fn can_append(&self) -> (b: bool)
        ensures
            b == self.has_room(),
    {
        let mut i: usize = 0;
        while i < self.notes.len()
            invariant
                i <= self.notes.len(),
                next_id(self@.take(i as int)) <= usize::MAX,
            decreases self.notes.len() - i,
        {
            assert(self@.take(i + 1).drop_last() =~= self@.take(i as int));
            if self.notes[i].id.0 == usize::MAX {
                proof {
                    lemma_next_id_monotone(self@, i + 1);
                }
                return false;
            }
            i += 1;
        }
        assert(self@.take(i as int) =~= self@);
        true
    }

    /// The identifier that the next new note gets.
    pub fn next_note_id(&self) -> (id: NoteId)
        requires
            self.has_room(),
        ensures
            id.0 == next_id(self@),
    {
        let mut next: usize = 0;
        let mut i: usize = 0;
        while i < self.notes.len()
            invariant
                i <= self.notes.len(),
                next == next_id(self@.take(i as int)),
                next_id(self@) <= usize::MAX,
            decreases self.notes.len() - i,
        {
            proof {
                assert(self@.take(i + 1).drop_last() =~= self@.take(i as int));
                lemma_next_id_monotone(self@, i + 1);
            }
            let candidate = self.notes[i].id.next();
            if candidate.0 > next {
                next = candidate.0;
            }
            i += 1;
        }
        assert(self@.take(i as int) =~= self@);
        NoteId(next)
    }

    /// Appends a note with the given content and HTML, the next identifier
    /// and `timestamp`, and returns a copy of it.
    pub fn append_note_at(&mut self, data: NoteData, timestamp: String) -> (note: Note)
        requires
            old(self).has_room(),
        ensures
            final(self)@ == with_new(old(self)@, timestamp@, data.content@, data.html@),
            note@ == final(self)@.last(),
            note@.id == next_id(old(self)@),
    {
        let note = Note {
            id: self.next_note_id(),
            timestamp,
            content: data.content,
            html: data.html,
        };
        let copy = note.clone();
        self.notes.push(note);
        copy
    }

    /// Appends a note with the given content and HTML, the next identifier
    /// and the local time as its timestamp, and returns a copy of it.
    pub fn append_note(&mut self, data: NoteData) -> (note: Note)
        requires
            old(self).has_room(),
        ensures
            final(self)@ == with_new(
                old(self)@,
                note@.timestamp,
                data.content@,
                data.html@,
            ),
            note@ == final(self)@.last(),
            note@.id == next_id(old(self)@),
            is_stamp(note@.timestamp),
    {
        self.append_note_at(data, local_timestamp())
    }

    /// The index of the first note with the identifier `id`, if any.
    pub fn position(&self, id: NoteId) -> (r: Option<usize>)
        ensures
            match r {
                Some(i) => first_index(self@, id.0 as nat) == Some(i as int),
                None => first_index(self@, id.0 as nat) is None,
            },
    {
        let mut i: usize = 0;
        while i < self.notes.len()
            invariant
                i <= self.notes.len(),
                first_index(self@, id.0 as nat) == first_index_from(self@, id.0 as nat, i as int),
            decreases self.notes.len() - i,
        {
            if self.notes[i].id == id {
                return Some(i);
            }
            i += 1;
        }
        None
    }

    /// Replaces the content and the HTML of the first note with the
    /// identifier `id`. Where no note has it, nothing changes.
    pub fn update_note(&mut self, id: NoteId, data: NoteData)
        ensures
            final(self)@ == with_update(old(self)@, id.0 as nat, data.content@, data.html@),
            !has_id(old(self)@, id.0 as nat) ==> final(self)@ == old(self)@,
    {
        proof {
            lemma_first_index(self@, id.0 as nat);
        }
        if let Some(idx) = self.position(id) {
            let ghost before = self.notes@;
            let note = Note {
                id: self.notes[idx].id,
                timestamp: self.notes[idx].timestamp.clone(),
                content: data.content,
                html: data.html,
            };
            self.notes.set(idx, note);
            assert(note_views(self.notes@) =~= note_views(before).update(
                idx as int,
                NoteView {
                    content: data.content@,
                    html: data.html@,
                    ..note_views(before)[idx as int]
                },
            ));
        }
    }

    /// Removes the first note with the identifier `id`. Where no note has
    /// it, nothing changes.
    pub fn delete_note(&mut self, id: NoteId)
        ensures
            final(self)@ == without(old(self)@, id.0 as nat),
            !has_id(old(self)@, id.0 as nat) ==> final(self)@ == old(self)@,
    {
        proof {
            lemma_first_index(self@, id.0 as nat);
        }
        if let Some(idx) = self.position(id) {
            self.notes.remove(idx);
        }
    }

    /// The notes of the store, in the order in which they were added.
    pub fn notes(&self) -> (notes: &Vec<Note>)
        ensures
            note_views(notes@) == self@,
    {
        &self.notes
    }
}

/// The next identifier of a prefix is no greater than that of the whole.
pub proof fn lemma_next_id_monotone(notes: Seq<NoteView>, k: int)
    requires
        0 <= k <= notes.len(),
    ensures
        next_id(notes.take(k)) <= next_id(notes),
    decreases notes.len() - k,
{
    if k < notes.len() {
        assert(notes.take(k + 1).drop_last() =~= notes.take(k));
        lemma_next_id_monotone(notes, k + 1);
    } else {
        assert(notes.take(k) =~= notes);
    }
}

} // verus!
