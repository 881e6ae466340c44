//! Markdown text, its rendering, and the rewriting of marked links.

use crate::note::html::Html;
use crate::text::chars::{chars_of, push_all, string_of};
use crate::text::split::{replace, replace_all};
use vstd::prelude::*;

verus! {

/// Which extensions of markdown the renderer honours, and whether it lets
/// raw HTML through.
#[derive(Clone, Copy, Debug, PartialEq, Eq, Structural)]
pub struct RenderOptions {
    pub strikethrough: bool,
    pub tagfilter: bool,
    pub table: bool,
    pub autolink: bool,
    pub tasklist: bool,
    pub superscript: bool,
    pub raw_html: bool,
}

/// The HTML that the renderer produces for the markdown text `md` under
/// `options`.
pub uninterp spec fn rendered_with(md: Seq<char>, options: RenderOptions) -> Seq<char>;

/// How notes are rendered: with strikethrough, tag filter, tables,
/// autolinks, task lists and superscript, and with raw HTML let through.
pub open spec fn note_options() -> RenderOptions {
    RenderOptions {
        strikethrough: true,
        tagfilter: true,
        table: true,
        autolink: true,
        tasklist: true,
        superscript: true,
        raw_html: true,
    }
}

/// The HTML of a note whose content is the markdown text `md`.
pub open spec fn rendered_html(md: Seq<char>) -> Seq<char> {
    rendered_with(md, note_options())
}

/// Renders markdown to HTML with `comrak::markdown_to_html`, all options of
/// the renderer at their defaults but those of `options`. Trusted: the
/// result is a function of the text and the options alone, which
/// [`rendered_with`] names.
#[verifier::external_body]
fn render(md: &str, options: RenderOptions) -> (html: String)
    ensures
        html@ == rendered_with(md@, options),
{
    let mut given = comrak::Options::default();
    given.extension.strikethrough = options.strikethrough;
    given.extension.tagfilter = options.tagfilter;
    given.extension.table = options.table;
    given.extension.autolink = options.autolink;
    given.extension.tasklist = options.tasklist;
    given.extension.superscript = options.superscript;
    given.render.unsafe_ = options.raw_html;
    comrak::markdown_to_html(md, &given)
}

/// Renders the markdown text of a note to HTML.
pub fn md_to_html(md: &str) -> (html: String)
    ensures
        html@ == rendered_html(md@),
{
    let options = RenderOptions {
        strikethrough: true,
        tagfilter: true,
        table: true,
        autolink: true,
        tasklist: true,
        superscript: true,
        raw_html: true,
    };
    render(md, options)
}

/// The marker that asks for a local copy of `external_link`: the link with
/// a `+` in front.
pub open spec fn link_marker(external_link: Seq<char>) -> Seq<char> {
    seq!['+'] + external_link
}

/// What replaces a resolved marker: the link itself, followed by a markdown
/// link to the local copy.
pub open spec fn resolved_link(external_link: Seq<char>, local_link: Seq<char>) -> Seq<char> {
    external_link + " ([local copy]("@ + local_link + "))"@
}

/// `content` with every marker of `external_link` resolved to `local_link`.
pub open spec fn with_local_link(
    content: Seq<char>,
    external_link: Seq<char>,
    local_link: Seq<char>,
) -> Seq<char> {
    replace(content, link_marker(external_link), resolved_link(external_link, local_link))
}

/// Markdown text, as a note's author wrote it.
#[derive(Debug, PartialEq, Eq)]
pub struct Markdown(pub String);

impl View for Markdown {
    type V = Seq<char>;

    open spec fn view(&self) -> Seq<char> {
        self.0@
    }
}

impl Clone for Markdown {
    fn clone(&self) -> (r: Self)
        ensures
            r@ == self@,
    {
        Markdown(self.0.clone())
    }
}

impl std::str::FromStr for Markdown {
    type Err = std::convert::Infallible;

    fn from_str(s: &str) -> (r: Result<Self, Self::Err>)
        ensures
            r matches Ok(m) && m@ == s@,
    {
        Ok(Markdown(s.to_owned()))
    }
}

impl Markdown {
    /// The text itself.
    pub fn as_str(&self) -> (s: &str)
        ensures
            s@ == self@,
    {
        self.0.as_str()
    }

    /// A copy of the text.
    pub fn to_string(&self) -> (s: String)
        ensures
            s@ == self@,
    {
        self.0.clone()
    }

    /// The HTML rendering of the text.
    pub fn to_html(&self) -> (html: Html)
        ensures
            html@ == rendered_html(self@),
    {
        Html(md_to_html(self.0.as_str()))
    }

    /// Replaces every marker `+<external_link>` in the text by the link
    /// followed by ` ([local copy](<local_link>))`. Text without the marker
    /// is left as it is.
    pub fn update_local_link(&mut self, external_link: &str, local_link: &str) -> (r: &mut Self)
        ensures
            r@ == with_local_link(old(self)@, external_link@, local_link@),
            *final(self) == *final(r),
    {
        let content = chars_of(self.0.as_str());
        let mut marker: Vec<char> = Vec::new();
        marker.push('+');
        push_all(&mut marker, &chars_of(external_link));
        let mut resolved = chars_of(external_link);
        push_all(&mut resolved, &chars_of(" ([local copy]("));
        push_all(&mut resolved, &chars_of(local_link));
        push_all(&mut resolved, &chars_of("))"));
        self.0 = string_of(&replace_all(&content, &marker, &resolved));
        self
    }
}

} // verus!
