//! The code-highlighting collaborator: it turns the text of a code block into
//! pre-rendered markup, and may be unavailable, in which case callers fall
//! back to the unmodified text.

use vstd::prelude::*;

verus! {

/// A source of pre-rendered markup for code block contents.
pub trait Highlighter {
    /// What `highlight` returns; `None` when the collaborator is unavailable.
    spec fn spec_highlight(&self, code: Seq<char>) -> Option<Seq<char>>;

    /// Pre-rendered markup for a piece of code, or `None` when the
    /// collaborator is unavailable.
    fn highlight(&self, code: &str) -> (markup: Option<String>)
        ensures
            (match markup {
                Some(m) => self.spec_highlight(code@) == Some(m@),
                None => self.spec_highlight(code@) is None,
            }),
    ;
}

/// The absent collaborator: every request falls back to the unmodified text.
pub struct PlainHighlighter {}

impl Highlighter for PlainHighlighter {
    open spec fn spec_highlight(&self, code: Seq<char>) -> Option<Seq<char>> {
        None
    }

    fn highlight(&self, code: &str) -> (markup: Option<String>) {
        None
    }
}

/// A collaborator that always succeeds: it wraps the code in a `code` element,
/// as a markup renderer would.
pub struct MarkupHighlighter {}

impl MarkupHighlighter {
    /// The markup the wrap produces for a piece of code.
    pub open spec fn spec_wrap(code: Seq<char>) -> Seq<char> {
        "<code class=\"language-rust\">"@ + code + "</code>"@
    }
}

impl Highlighter for MarkupHighlighter {
    open spec fn spec_highlight(&self, code: Seq<char>) -> Option<Seq<char>> {
        Some(MarkupHighlighter::spec_wrap(code))
    }

    fn highlight(&self, code: &str) -> (markup: Option<String>) {
        let mut wrapped = String::from_str("<code class=\"language-rust\">");
        wrapped.append(code);
        wrapped.append("</code>");
        Some(wrapped)
    }
}

} // verus!
