//! Rendered HTML text.

use vstd::prelude::*;

verus! {

/// HTML text, as rendered from a note's markdown.
#[derive(Debug, PartialEq, Eq)]
pub struct Html(pub String);

impl View for Html {
    type V = Seq<char>;

    open spec fn view(&self) -> Seq<char> {
        self.0@
    }
}

impl Clone for Html {
    fn clone(&self) -> (r: Self)
        ensures
            r@ == self@,
    {
        Html(self.0.clone())
    }
}

impl std::str::FromStr for Html {
    type Err = std::convert::Infallible;

    fn from_str(s: &str) -> (r: Result<Self, Self::Err>)
        ensures
            r matches Ok(h) && h@ == s@,
    {
        Ok(Html(s.to_owned()))
    }
}

impl Html {
    /// The text itself.
    pub fn as_str(&self) -> (s: &str)
        ensures
            s@ == self@,
    {
        self.0.as_str()
    }

    /// A copy of the text.
    pub fn to_string(&self) -> (s: String)
        ensures
            s@ == self@,
    {
        self.0.clone()
    }
}

} // verus!
