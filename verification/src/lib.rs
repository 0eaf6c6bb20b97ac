//! A markdown preprocessing library that replaces `svgbob`-tagged fenced code
//! blocks with rendered SVG diagrams.
//!
//! The heart of the library is a verified token-stream rewriter
//! ([`rewrite::rewrite_tokens`]): it scans the event stream produced by a
//! markdown tokenizer, buffers the interior of each fence tagged with the
//! target marker (fragments may arrive split across several text events),
//! and collapses the whole fence into a single raw-HTML event holding the
//! rendered diagram.  Every event outside the target fences is forwarded
//! unchanged, in order.
//! Tokenizing, rendering and re-serialization are done by outside crates
//! behind trusted wrappers; the decisions between them are verified.

use vstd::prelude::*;

pub mod laws;
pub mod options;
pub mod pipeline;
pub mod render;
pub mod rewrite;
pub mod token;

verus! {

/// The preprocessor itself.  It carries no state: the recognition state and
/// the diagram buffer live only inside a single document's rewriting pass.
pub struct Bob;

impl Bob {
    pub fn new() -> (b: Bob)
        ensures
            b == (Bob {}),
    {
        Bob {}
    }

    /// The fixed, stable name under which the host locates the
    /// preprocessor's configuration section.
    pub fn name(&self) -> (r: &'static str)
        ensures
            r@ == "svgbob2"@,
    {
        "svgbob2"
    }

    /// The transformation produces raw HTML, so it applies only when the
    /// host renders to an HTML target; for any other target it must be
    /// skipped.
    pub fn supports_renderer(&self, renderer: &str) -> (r: bool)
        ensures
            r == (renderer@ == "html"@),
    {
        str_eq(renderer, "html")
    }
}

impl Default for Bob {
    fn default() -> (b: Bob)
        ensures
            b == (Bob {}),
    {
        Bob::new()
    }
}

/// Relies on `str`'s `PartialEq`: two string slices compare equal exactly
/// when their byte sequences, and hence their character sequences, are equal.
#[verifier::external_body]
pub(crate) fn str_eq(a: &str, b: &str) -> (r: bool)
    ensures
        r == (a@ == b@),
{
    a == b
}

} // verus!
