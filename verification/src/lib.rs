//! A personal note-taking library: a note store with a durable flat-file
//! representation, and the resolution of marked links to local copies.

pub mod attachments;
pub mod downloader;
pub mod links;
pub mod note;
pub mod paths;
pub mod text;
