//! Fetching local copies of links: the name of the copy, the programs to
//! run, and what each outcome means for the link.

use crate::paths::{join_path, joined_path};
use crate::text::chars::{
    char_is_alphanumeric, chars_of, copy_range, is_ascii_white_space, push_all, string_of,
};
use crate::text::search::{matches_at, occurs_at};
use crate::text::trim::{
    is_trimmed, lemma_trim_is_subrange, lemma_trim_is_trimmed, trim, trim_chars, trim_class,
    CharClass,
};
use vstd::prelude::*;
use vstd::utf8::{decode_utf8, valid_utf8};

verus! {

/// The characters that a file name keeps: letters, digits, `-`, `.`, `_`.
pub open spec fn is_safe_char(c: char) -> bool {
    char_is_alphanumeric(c) || c == '-' || c == '.' || c == '_'
}

/// `s` without the leading `prefix`, or `s` itself where it does not start
/// with it.
pub open spec fn without_prefix(s: Seq<char>, prefix: Seq<char>) -> Seq<char> {
    if occurs_at(s, prefix, 0) {
        s.skip(prefix.len() as int)
    } else {
        s
    }
}

/// `url` without the whitespace around it and without a leading `http://`
/// or `https://`.
pub open spec fn without_scheme(url: Seq<char>) -> Seq<char> {
    without_prefix(without_prefix(trim(url), "http://"@), "https://"@)
}

/// `s` with every character that a file name does not keep replaced by `_`.
pub open spec fn sanitized(s: Seq<char>) -> Seq<char> {
    Seq::new(
        s.len(),
        |i: int|
            if is_safe_char(s[i]) {
                s[i]
            } else {
                '_'
            },
    )
}

/// The file name that stands for `url`: the scheme is taken off, every
/// character that a file name does not keep becomes `_`, and full stops and
/// whitespace are trimmed from both ends.
pub open spec fn safe_filename(url: Seq<char>) -> Seq<char> {
    trim_class(sanitized(without_scheme(url)), CharClass::WhitespaceOrDot)
}

/// No separator of a path or of a link and no ASCII whitespace: `c` is
/// none of `/`, `\`, `?`, `:`, the space, and U+0009 to U+000D.
pub open spec fn is_no_separator(c: char) -> bool {
    c != '/' && c != '\\' && c != '?' && c != ':' && !is_ascii_white_space(c)
}

/// A safe file name holds only characters that a file name keeps, so no
/// separator and no ASCII whitespace, and it neither starts nor ends with a
/// full stop or with whitespace.
pub proof fn lemma_safe_filename_is_safe(url: Seq<char>)
    ensures
        forall|i: int|
            0 <= i < safe_filename(url).len() ==> is_safe_char(#[trigger] safe_filename(url)[i]),
        forall|i: int|
            0 <= i < safe_filename(url).len() ==> is_no_separator(
                #[trigger] safe_filename(url)[i],
            ),
        is_trimmed(safe_filename(url), CharClass::WhitespaceOrDot),
{
    lemma_trim_is_subrange(sanitized(without_scheme(url)), CharClass::WhitespaceOrDot);
    lemma_trim_is_trimmed(sanitized(without_scheme(url)), CharClass::WhitespaceOrDot);
}

/// Takes `prefix` off the front of `s` where `s` starts with it.
fn strip_prefix(s: Vec<char>, prefix: &str) -> (r: Vec<char>)
    ensures
        r@ == without_prefix(s@, prefix@),
{
    let prefix = chars_of(prefix);
    if matches_at(&s, &prefix, 0) {
        copy_range(&s, prefix.len(), s.len())
    } else {
        s
    }
}

/// The file name that stands for `url`.
pub fn url_to_safe_filename(url: &str) -> (name: String)
    ensures
        name@ == safe_filename(url@),
        forall|i: int| 0 <= i < name@.len() ==> is_safe_char(#[trigger] name@[i]),
        forall|i: int| 0 <= i < name@.len() ==> is_no_separator(#[trigger] name@[i]),
        is_trimmed(name@, CharClass::WhitespaceOrDot),
{
    let trimmed = trim_chars(&chars_of(url), CharClass::Whitespace);
    let stripped = strip_prefix(strip_prefix(trimmed, "http://"), "https://");
    let mut safe_name: Vec<char> = Vec::new();
    let mut i: usize = 0;
    while i < stripped.len()
        invariant
            i <= stripped.len(),
            safe_name@ == sanitized(stripped@).take(i as int),
        decreases stripped.len() - i,
    {
        let c = stripped[i];
        if c.is_alphanumeric() || c == '-' || c == '.' || c == '_' {
            safe_name.push(c);
        } else {
            safe_name.push('_');
        }
        i += 1;
    }
    assert(sanitized(stripped@).take(i as int) =~= sanitized(stripped@));
    let name = string_of(&trim_chars(&safe_name, CharClass::WhitespaceOrDot));
    proof {
        lemma_safe_filename_is_safe(url@);
        assert forall|i: int| 0 <= i < name@.len() implies is_safe_char(#[trigger] name@[i])
            && is_no_separator(name@[i]) by {
            assert(name@[i] == safe_filename(url@)[i]);
        }
    }
    name
}

/// The views of the strings of `v`, in order.
pub open spec fn string_views(v: Seq<String>) -> Seq<Seq<char>> {
    Seq::new(v.len(), |i: int| v[i]@)
}

/// Reads bytes as text with `String::from_utf8`. Trusted: the text is the
/// decoding of the bytes where they are valid UTF-8, and there is none
/// where they are not.
#[verifier::external_body]
pub(crate) fn text_of_utf8(bytes: Vec<u8>) -> (text: Option<String>)
    ensures
        match text {
            Some(t) => valid_utf8(bytes@) && t@ == decode_utf8(bytes@),
            None => !valid_utf8(bytes@),
        },
{
    String::from_utf8(bytes).ok()
}

/// What a link names, as far as fetching goes.
#[derive(Clone, Copy, Debug, PartialEq, Eq, Structural)]
pub enum LinkKind {
    /// A video that the media downloader can extract.
    Video,
    /// Anything else: a page for the webpage archiver.
    Webpage,
}

/// A program to run, with its arguments.
#[derive(Debug, PartialEq, Eq)]
pub struct ToolCommand {
    pub program: String,
    pub args: Vec<String>,
}

/// The mathematical value of a [`ToolCommand`].
pub struct ToolCommandView {
    pub program: Seq<char>,
    pub args: Seq<Seq<char>>,
}

impl View for ToolCommand {
    type V = ToolCommandView;

    open spec fn view(&self) -> ToolCommandView {
        ToolCommandView { program: self.program@, args: string_views(self.args@) }
    }
}

/// How a run of a program ended.
#[derive(Debug, PartialEq, Eq)]
pub enum ToolOutcome {
    /// The program could not be started.
    SpawnFailed,
    /// The program ran and exited, with success or not, having written
    /// `stdout` to its standard output.
    Exited { success: bool, stdout: Vec<u8> },
}

/// The mathematical value of a [`ToolOutcome`].
pub enum ToolOutcomeView {
    SpawnFailed,
    Exited { success: bool, stdout: Seq<u8> },
}

impl View for ToolOutcome {
    type V = ToolOutcomeView;

    open spec fn view(&self) -> ToolOutcomeView {
        match self {
            ToolOutcome::SpawnFailed => ToolOutcomeView::SpawnFailed,
            ToolOutcome::Exited { success, stdout } => ToolOutcomeView::Exited {
                success: *success,
                stdout: stdout@,
            },
        }
    }
}

/// The probe that tells whether the media downloader can extract `url`: a
/// simulated run restricted to the extractors that are not generic.
pub open spec fn probe_command_view(url: Seq<char>) -> ToolCommandView {
    ToolCommandView {
        program: "yt-dlp"@,
        args: seq!["--simulate"@, url, "--use-extractors"@, "default,-generic"@],
    }
}

/// The directory below the attachments root that holds copies of `kind`.
pub open spec fn kind_directory(attachments_dir: Seq<char>, kind: LinkKind) -> Seq<char> {
    match kind {
        LinkKind::Video => joined_path(attachments_dir, "videos"@),
        LinkKind::Webpage => joined_path(attachments_dir, "webpages"@),
    }
}

/// The file that the webpage archiver writes for `url`.
pub open spec fn webpage_path(attachments_dir: Seq<char>, url: Seq<char>) -> Seq<char> {
    joined_path(
        kind_directory(attachments_dir, LinkKind::Webpage),
        safe_filename(url) + ".html"@,
    )
}

/// The run that fetches `url` as `kind`. The webpage archiver gets the link
/// and the file to write. The media downloader gets a name template below
/// the videos directory, is told to restrict file names, and to print the
/// path of the file once it is in place.
pub open spec fn fetch_command_view(
    attachments_dir: Seq<char>,
    url: Seq<char>,
    kind: LinkKind,
) -> ToolCommandView {
    match kind {
        LinkKind::Webpage => ToolCommandView {
            program: "monolith"@,
            args: seq![url, "-o"@, webpage_path(attachments_dir, url)],
        },
        LinkKind::Video => ToolCommandView {
            program: "yt-dlp"@,
            args: seq![
                "--print"@,
                "after_move:filepath"@,
                "-o"@,
                joined_path(kind_directory(attachments_dir, LinkKind::Video), "%(id)s.%(ext)s"@),
                "--restrict-filenames"@,
                url,
            ],
        },
    }
}

/// What a link is, given how the probe ended: a video where the probe ran
/// and succeeded, a webpage otherwise.
pub open spec fn classified(probe: ToolOutcomeView) -> LinkKind {
    match probe {
        ToolOutcomeView::Exited { success: true, .. } => LinkKind::Video,
        _ => LinkKind::Webpage,
    }
}

/// `text` without the line break that ends it, `\n` or `\r\n`, if one does.
pub open spec fn without_line_end(text: Seq<char>) -> Seq<char> {
    if text.len() >= 2 && text[text.len() - 2] == '\r' && text.last() == '\n' {
        text.take(text.len() - 2)
    } else if text.len() >= 1 && text.last() == '\n' {
        text.drop_last()
    } else {
        text
    }
}

/// The path of the file that the media downloader reports on its standard
/// output, or `None` where the report is malformed. The report is the path,
/// in UTF-8, with or without a line break behind it: the line break that
/// ends the report is no part of the path. A report that is not valid UTF-8,
/// or that names no file at all, is malformed.
pub open spec fn reported_path(stdout: Seq<u8>) -> Option<Seq<char>> {
    if valid_utf8(stdout) && without_line_end(decode_utf8(stdout)).len() > 0 {
        Some(without_line_end(decode_utf8(stdout)))
    } else {
        None
    }
}

/// The local file that a fetch of `url` as `kind` left, given how the run
/// ended, or `None` where the fetch failed. A run that could not start or
/// did not succeed is a failure. The webpage archiver leaves the file it was
/// told to write, whatever it printed. The media downloader reports the file
/// on its standard output, and a malformed report is a failure.
pub open spec fn fetched_path(
    attachments_dir: Seq<char>,
    url: Seq<char>,
    kind: LinkKind,
    outcome: ToolOutcomeView,
) -> Option<Seq<char>> {
    match outcome {
        ToolOutcomeView::Exited { success: true, stdout } => match kind {
            LinkKind::Webpage => Some(webpage_path(attachments_dir, url)),
            LinkKind::Video => reported_path(stdout),
        },
        _ => None,
    }
}

/// The probe that tells whether `url` names a video.
pub fn probe_command(url: &str) -> (command: ToolCommand)
    ensures
        command@ == probe_command_view(url@),
{
    let mut args: Vec<String> = Vec::new();
    args.push("--simulate".to_owned());
    args.push(url.to_owned());
    args.push("--use-extractors".to_owned());
    args.push("default,-generic".to_owned());
    assert(string_views(args@) =~= probe_command_view(url@).args);
    ToolCommand { program: "yt-dlp".to_owned(), args }
}

/// What a link is, given how the probe ended.
pub fn classify(probe: &ToolOutcome) -> (kind: LinkKind)
    ensures
        kind == classified(probe@),
{
    match probe {
        ToolOutcome::Exited { success: true, .. } => LinkKind::Video,
        _ => LinkKind::Webpage,
    }
}

/// The directory below the attachments root that holds copies of `kind`.
pub fn directory_of(attachments_dir: &str, kind: LinkKind) -> (directory: String)
    ensures
        directory@ == kind_directory(attachments_dir@, kind),
{
    match kind {
        LinkKind::Video => join_path(attachments_dir, "videos"),
        LinkKind::Webpage => join_path(attachments_dir, "webpages"),
    }
}

/// The file that the webpage archiver writes for `url`.
pub fn webpage_file(attachments_dir: &str, url: &str) -> (path: String)
    ensures
        path@ == webpage_path(attachments_dir@, url@),
{
    let directory = directory_of(attachments_dir, LinkKind::Webpage);
    let mut filename = chars_of(url_to_safe_filename(url).as_str());
    push_all(&mut filename, &chars_of(".html"));
    join_path(directory.as_str(), string_of(&filename).as_str())
}

/// The run that fetches `url` as `kind`.
pub fn fetch_command(attachments_dir: &str, url: &str, kind: LinkKind) -> (command: ToolCommand)
    ensures
        command@ == fetch_command_view(attachments_dir@, url@, kind),
{
    let mut args: Vec<String> = Vec::new();
    match kind {
        LinkKind::Webpage => {
            args.push(url.to_owned());
            args.push("-o".to_owned());
            args.push(webpage_file(attachments_dir, url));
            assert(string_views(args@) =~= fetch_command_view(
                attachments_dir@,
                url@,
                kind,
            ).args);
            ToolCommand { program: "monolith".to_owned(), args }
        },
        LinkKind::Video => {
            let directory = directory_of(attachments_dir, LinkKind::Video);
            args.push("--print".to_owned());
            args.push("after_move:filepath".to_owned());
            args.push("-o".to_owned());
            args.push(join_path(directory.as_str(), "%(id)s.%(ext)s"));
            args.push("--restrict-filenames".to_owned());
            args.push(url.to_owned());
            assert(string_views(args@) =~= fetch_command_view(
                attachments_dir@,
                url@,
                kind,
            ).args);
            ToolCommand { program: "yt-dlp".to_owned(), args }
        },
    }
}

/// The path of the file that the media downloader reports on its standard
/// output, or `None` where the report is malformed.
pub fn path_of_report(stdout: Vec<u8>) -> (path: Option<String>)
    ensures
        match path {
            Some(p) => reported_path(stdout@) == Some(p@),
            None => reported_path(stdout@) is None,
        },
{
    let Some(text) = text_of_utf8(stdout) else {
        return None;
    };
    let text = chars_of(text.as_str());
    let n = text.len();
    let end = if n >= 2 && text[n - 2] == '\r' && text[n - 1] == '\n' {
        n - 2
    } else if n >= 1 && text[n - 1] == '\n' {
        n - 1
    } else {
        n
    };
    if end == 0 {
        None
    } else {
        Some(string_of(&copy_range(&text, 0, end)))
    }
}

/// The local file that a fetch of `url` as `kind` left, or `None` where the
/// fetch failed.
pub fn fetched_file(attachments_dir: &str, url: &str, kind: LinkKind, outcome: ToolOutcome) -> (path:
    Option<String>)
    ensures
        match path {
            Some(p) => fetched_path(attachments_dir@, url@, kind, outcome@) == Some(p@),
            None => fetched_path(attachments_dir@, url@, kind, outcome@) is None,
        },
{
    match outcome {
        ToolOutcome::Exited { success: true, stdout } => match kind {
            LinkKind::Webpage => Some(webpage_file(attachments_dir, url)),
            LinkKind::Video => path_of_report(stdout),
        },
        _ => None,
    }
}

/// Where the resolution of one link stands.
#[derive(Clone, Copy, Debug, PartialEq, Eq, Structural)]
pub enum LinkState {
    /// Nothing was done yet.
    Pending,
    /// The probe is running.
    Classifying,
    /// The fetch is running.
    Fetching(LinkKind),
    /// The link has a local copy, and the note was told.
    Resolved,
    /// The fetch failed: the marker stays in the note.
    Unresolved,
}

/// What happened since the last step.
#[derive(Debug, PartialEq, Eq)]
pub enum LinkEvent {
    /// Work on the link begins.
    Start,
    /// The directory for the copy could not be created.
    DirectoryFailed,
    /// The program that the last step asked for was run.
    Finished(ToolOutcome),
}

/// The mathematical value of a [`LinkEvent`].
pub enum LinkEventView {
    Start,
    DirectoryFailed,
    Finished(ToolOutcomeView),
}

impl View for LinkEvent {
    type V = LinkEventView;

    open spec fn view(&self) -> LinkEventView {
        match self {
            LinkEvent::Start => LinkEventView::Start,
            LinkEvent::DirectoryFailed => LinkEventView::DirectoryFailed,
            LinkEvent::Finished(outcome) => LinkEventView::Finished(outcome@),
        }
    }
}

/// What has to be done next for a link.
#[derive(Debug, PartialEq, Eq)]
pub enum LinkAction {
    /// Create `directory`, if one is given, then run `command` and report
    /// how it ended.
    Run { directory: Option<String>, command: ToolCommand },
    /// Tell the store that the link has a local copy at `local_path`.
    UpdateLocalLink { local_path: String },
    /// Nothing: the work on the link is over, or the event did not fit.
    Nothing,
}

/// The mathematical value of a [`LinkAction`].
pub enum LinkActionView {
    Run { directory: Option<Seq<char>>, command: ToolCommandView },
    UpdateLocalLink { local_path: Seq<char> },
    Nothing,
}

impl View for LinkAction {
    type V = LinkActionView;

    open spec fn view(&self) -> LinkActionView {
        match self {
            LinkAction::Run { directory, command } => LinkActionView::Run {
                directory: match directory {
                    Some(d) => Some(d@),
                    None => None,
                },
                command: command@,
            },
            LinkAction::UpdateLocalLink { local_path } => LinkActionView::UpdateLocalLink {
                local_path: local_path@,
            },
            LinkAction::Nothing => LinkActionView::Nothing,
        }
    }
}

/// The state that follows `state` on `event`, and what has to be done, for
/// the link `url` and the attachments root `attachments_dir`.
///
/// A pending link is probed. When the probe has ended the link is fetched as
/// what the probe found it to be. When the fetch has ended the link is
/// resolved if the fetch left a file, and unresolved if it failed or its
/// directory could not be created. An event that does not fit the state
/// changes nothing.
pub open spec fn step_view(
    attachments_dir: Seq<char>,
    url: Seq<char>,
    state: LinkState,
    event: LinkEventView,
) -> (LinkState, LinkActionView) {
    match (state, event) {
        (LinkState::Pending, LinkEventView::Start) => (
            LinkState::Classifying,
            LinkActionView::Run { directory: None, command: probe_command_view(url) },
        ),
        (LinkState::Classifying, LinkEventView::Finished(probe)) => (
            LinkState::Fetching(classified(probe)),
            LinkActionView::Run {
                directory: Some(kind_directory(attachments_dir, classified(probe))),
                command: fetch_command_view(attachments_dir, url, classified(probe)),
            },
        ),
        (LinkState::Fetching(kind), LinkEventView::Finished(outcome)) => match fetched_path(
            attachments_dir,
            url,
            kind,
            outcome,
        ) {
            Some(local_path) => (
                LinkState::Resolved,
                LinkActionView::UpdateLocalLink { local_path },
            ),
            None => (LinkState::Unresolved, LinkActionView::Nothing),
        },
        (LinkState::Fetching(_), LinkEventView::DirectoryFailed) => (
            LinkState::Unresolved,
            LinkActionView::Nothing,
        ),
        _ => (state, LinkActionView::Nothing),
    }
}

/// A run that could not start, or that did not exit with success.
pub open spec fn is_failure(outcome: ToolOutcomeView) -> bool {
    match outcome {
        ToolOutcomeView::SpawnFailed => true,
        ToolOutcomeView::Exited { success, .. } => !success,
    }
}

/// A fetch that failed leaves the link unresolved, and nothing is done to
/// the note: its marker stays.
pub proof fn lemma_failed_fetch_changes_nothing(
    attachments_dir: Seq<char>,
    url: Seq<char>,
    kind: LinkKind,
    outcome: ToolOutcomeView,
)
    requires
        is_failure(outcome),
    ensures
        step_view(
            attachments_dir,
            url,
            LinkState::Fetching(kind),
            LinkEventView::Finished(outcome),
        ) == (LinkState::Unresolved, LinkActionView::Nothing),
        step_view(
            attachments_dir,
            url,
            LinkState::Fetching(kind),
            LinkEventView::DirectoryFailed,
        ) == (LinkState::Unresolved, LinkActionView::Nothing),
{
}

/// The store is told of a local copy only on the step that resolves the
/// link, and on every such step.
pub proof fn lemma_update_only_when_resolved(
    attachments_dir: Seq<char>,
    url: Seq<char>,
    state: LinkState,
    event: LinkEventView,
)
    ensures
        step_view(attachments_dir, url, state, event).1 is UpdateLocalLink <==> state
            is Fetching && step_view(attachments_dir, url, state, event).0 is Resolved,
{
}

/// The resolution of one marked link of a note.
#[derive(Debug)]
pub struct LinkTask {
    pub url: String,
    pub attachments_dir: String,
    pub state: LinkState,
}

impl LinkTask {
    /// A task for the link `url`, with nothing done yet.
    pub fn new(url: String, attachments_dir: String) -> (task: Self)
        ensures
            task.url@ == url@,
            task.attachments_dir@ == attachments_dir@,
            task.state == LinkState::Pending,
    {
        LinkTask { url, attachments_dir, state: LinkState::Pending }
    }

    /// Whether the work on the link is over.
    pub fn is_done(&self) -> (done: bool)
        ensures
            done == (self.state is Resolved || self.state is Unresolved),
    {
        match self.state {
            LinkState::Resolved => true,
            LinkState::Unresolved => true,
            _ => false,
        }
    }

    /// Takes `event` in: moves to the next state and says what to do.
    pub fn step(&mut self, event: LinkEvent) -> (action: LinkAction)
        ensures
            (final(self).state, action@) == step_view(
                old(self).attachments_dir@,
                old(self).url@,
                old(self).state,
                event@,
            ),
            final(self).url@ == old(self).url@,
            final(self).attachments_dir@ == old(self).attachments_dir@,
    {
        let dir = self.attachments_dir.as_str();
        let url = self.url.as_str();
        match (self.state, event) {
            (LinkState::Pending, LinkEvent::Start) => {
                let command = probe_command(url);
                self.state = LinkState::Classifying;
                LinkAction::Run { directory: None, command }
            },
            (LinkState::Classifying, LinkEvent::Finished(probe)) => {
                let kind = classify(&probe);
                let directory = directory_of(dir, kind);
                let command = fetch_command(dir, url, kind);
                self.state = LinkState::Fetching(kind);
                LinkAction::Run { directory: Some(directory), command }
            },
            (LinkState::Fetching(kind), LinkEvent::Finished(outcome)) => {
                match fetched_file(dir, url, kind, outcome) {
                    Some(local_path) => {
                        self.state = LinkState::Resolved;
                        LinkAction::UpdateLocalLink { local_path }
                    },
                    None => {
                        self.state = LinkState::Unresolved;
                        LinkAction::Nothing
                    },
                }
            },
            (LinkState::Fetching(_), LinkEvent::DirectoryFailed) => {
                self.state = LinkState::Unresolved;
                LinkAction::Nothing
            },
            _ => LinkAction::Nothing,
        }
    }
}

} // verus!
