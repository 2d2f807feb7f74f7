use vstd::prelude::*;

pub mod fence;
pub mod service;
pub mod text;
pub mod widget;

use crate::fence::{rewrite_document, rewrite_text};
use crate::text::same_text;

verus! {

/// The name under which the preprocessor is enabled in `book.toml`.
pub const NAME: &'static str = "nix-repl";

/// The one renderer whose output can hold the widgets' raw HTML.
pub const HTML_RENDERER: &'static str = "html";

/// Preprocessor that turns fenced `nix repl` code blocks into interactive widgets.
#[derive(Clone, Copy)]
pub struct NixRepl;

impl NixRepl {
    pub fn name(&self) -> (r: &'static str)
        ensures
            r@ == NAME@,
    {
        NAME
    }

    /// Rewrites the text of every chapter in place.
    pub fn run(&self, chapters: &mut Vec<String>)
        ensures
            final(chapters)@.len() == old(chapters)@.len(),
            forall|i: int|
                0 <= i < old(chapters)@.len() ==> #[trigger] final(chapters)@[i]@ == rewrite_text(
                    old(chapters)@[i]@,
                ),
    {
        rewrite_document(chapters);
    }

    /// Only the HTML renderer is supported, since the widgets are raw HTML.
    pub fn supports_renderer(&self, renderer: &str) -> (r: bool)
        ensures
            r == (renderer@ == HTML_RENDERER@),
    {
        same_text(renderer, HTML_RENDERER)
    }
}

} // verus!
