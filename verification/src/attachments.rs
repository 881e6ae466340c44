//! Names and public links of the files below the attachments root.

use crate::text::chars::{chars_of, push_all, string_of};
use crate::text::decimal::{decimal, decimal_of};
use vstd::prelude::*;

verus! {

/// The public link to the file at `relative` below the attachments root.
pub open spec fn local_link(relative: Seq<char>) -> Seq<char> {
    "/attachments/"@ + relative
}

/// The name to try for an uploaded file when the names tried before are
/// taken: the stem, a hyphen and the number of the attempt, and the
/// extension behind a full stop where there is one.
pub open spec fn numbered_name(stem: Seq<char>, extension: Seq<char>, attempt: nat) -> Seq<char> {
    if extension.len() == 0 {
        stem + seq!['-'] + decimal(attempt)
    } else {
        stem + seq!['-'] + decimal(attempt) + seq!['.'] + extension
    }
}

/// The public link to the file at `relative` below the attachments root.
pub fn public_link(relative: &str) -> (link: String)
    ensures
        link@ == local_link(relative@),
{
    let mut link = chars_of("/attachments/");
    push_all(&mut link, &chars_of(relative));
    string_of(&link)
}

/// The name to try for an uploaded file on the given attempt.
pub fn upload_name(stem: &str, extension: &str, attempt: usize) -> (name: String)
    ensures
        name@ == numbered_name(stem@, extension@, attempt as nat),
{
    let mut name = chars_of(stem);
    name.push('-');
    push_all(&mut name, &decimal_of(attempt));
    let extension = chars_of(extension);
    if extension.len() > 0 {
        name.push('.');
        push_all(&mut name, &extension);
    }
    string_of(&name)
}

} // verus!
