//! Notes and their identifiers.

pub mod backends;
pub mod html;
pub mod markdown;
pub mod util;

use crate::note::html::Html;
use crate::note::markdown::{rendered_html, Markdown};
use crate::text::chars::{chars_of, push_all, string_of};
use crate::text::decimal::{decimal, decimal_of};
use vstd::prelude::*;

verus! {

/// The identifier of a note: a non-negative integer, unique within a store.
#[derive(Clone, Copy, Debug, PartialEq, Eq, Structural, PartialOrd, Ord, Hash)]
pub struct NoteId(pub usize);

impl Default for NoteId {
    fn default() -> (id: Self)
        ensures
            id.0 == 0,
    {
        NoteId(0)
    }
}

impl NoteId {
    /// The identifier that follows this one.
    pub fn next(&self) -> (id: NoteId)
        requires
            self.0 < usize::MAX,
        ensures
            id.0 == self.0 + 1,
    {
        NoteId(self.0 + 1)
    }

    /// The identifier as it is shown: `#` and the number in decimal.
    pub open spec fn label(self) -> Seq<char> {
        seq!['#'] + decimal(self.0 as nat)
    }

    /// The identifier as it is shown: `#` and the number in decimal.
    pub fn to_string(&self) -> (s: String)
        ensures
            s@ == self.label(),
    {
        let mut text: Vec<char> = Vec::new();
        text.push('#');
        push_all(&mut text, &decimal_of(self.0));
        string_of(&text)
    }
}

/// A timestamped unit of markdown text with its rendered HTML.
#[derive(Debug)]
pub struct Note {
    pub id: NoteId,
    pub timestamp: String,
    pub content: Markdown,
    pub html: Html,
}

/// The mathematical value of a [`Note`].
pub struct NoteView {
    pub id: nat,
    pub timestamp: Seq<char>,
    pub content: Seq<char>,
    pub html: Seq<char>,
}

impl View for Note {
    type V = NoteView;

    open spec fn view(&self) -> NoteView {
        NoteView {
            id: self.id.0 as nat,
            timestamp: self.timestamp@,
            content: self.content@,
            html: self.html@,
        }
    }
}

/// The views of the notes of `notes`, in order.
pub open spec fn note_views(notes: Seq<Note>) -> Seq<NoteView> {
    Seq::new(notes.len(), |i: int| notes[i]@)
}

impl NoteView {
    /// The HTML is the rendering of the content.
    pub open spec fn is_rendered(self) -> bool {
        self.html == rendered_html(self.content)
    }
}

impl Clone for Note {
    fn clone(&self) -> (note: Self)
        ensures
            note@ == self@,
    {
        Note {
            id: self.id,
            timestamp: self.timestamp.clone(),
            content: self.content.clone(),
            html: self.html.clone(),
        }
    }
}

impl Note {
    /// A note with the given identifier, timestamp and content, and the
    /// rendering of the content as its HTML.
    pub fn rendered(id: NoteId, timestamp: String, content: Markdown) -> (note: Note)
        ensures
            note@ == (NoteView {
                id: id.0 as nat,
                timestamp: timestamp@,
                content: content@,
                html: rendered_html(content@),
            }),
    {
        let html = content.to_html();
        Note { id, timestamp, content, html }
    }
}

/// Why an operation on a store failed.
#[derive(Debug, PartialEq, Eq)]
pub enum NotesError {
    /// The backing file could not be opened, read or written; the text says
    /// what the system reported.
    Io(String),
    /// The store itself is out of order, as when its lock is poisoned.
    Internal(String),
}

/// The mathematical value of a [`NotesError`].
pub enum NotesErrorView {
    Io(Seq<char>),
    Internal(Seq<char>),
}

impl View for NotesError {
    type V = NotesErrorView;

    open spec fn view(&self) -> NotesErrorView {
        match self {
            NotesError::Io(err) => NotesErrorView::Io(err@),
            NotesError::Internal(err) => NotesErrorView::Internal(err@),
        }
    }
}

impl NotesErrorView {
    /// The error as it is shown: its kind, a colon, and what was reported.
    pub open spec fn message(self) -> Seq<char> {
        match self {
            NotesErrorView::Io(err) => "I/O error: "@ + err,
            NotesErrorView::Internal(err) => "internal error: "@ + err,
        }
    }
}

impl NotesError {
    /// The error as it is shown: its kind, a colon, and what was reported.
    pub fn to_string(&self) -> (s: String)
        ensures
            s@ == self@.message(),
    {
        let (kind, err) = match self {
            NotesError::Io(err) => ("I/O error: ", err),
            NotesError::Internal(err) => ("internal error: ", err),
        };
        let mut text = chars_of(kind);
        push_all(&mut text, &chars_of(err.as_str()));
        string_of(&text)
    }
}

} // verus!
