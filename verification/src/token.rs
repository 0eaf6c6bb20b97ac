//! The token model: one structural unit of the tokenized document.
//!
//! The tokenizer's own event type is opaque to the library, so each event is
//! paired at the boundary with the one piece of it the rewriting logic
//! reads: whether it opens or closes a fenced code block (and with which
//! language tag), or carries a text fragment.  Everything else is carried
//! through untouched as [`Token::Other`].

use vstd::prelude::*;

use pulldown_cmark::{CodeBlockKind, Event, Tag};

verus! {

#[verifier::external_type_specification]
#[verifier::external_body]
pub struct ExEvent<'a>(Event<'a>);

/// One token of a document's event stream, as the rewriter sees it.
///
/// The first three variants keep the original event beside the extracted
/// plain value, so that forwarding a token forwards the event unchanged.
/// [`Token::Html`] exists only in the rewriter's output: it is the
/// synthesized raw-markup replacement for a whole fenced region.
pub enum Token<'a> {
    FenceStart { tag: String, event: Event<'a> },
    FenceEnd { tag: String, event: Event<'a> },
    Text { content: String, event: Event<'a> },
    Html { content: String },
    Other { event: Event<'a> },
}

/// The fixed language tag that selects the fenced blocks to transform.
pub open spec fn target_tag() -> Seq<char> {
    "svgbob"@
}

/// Does this token open a fenced block whose tag is exactly the target?
pub open spec fn is_target_start(t: Token<'_>) -> bool {
    match t {
        Token::FenceStart { tag, .. } => tag@ == target_tag(),
        _ => false,
    }
}

/// Does this token close a fenced block whose tag is exactly the target?
pub open spec fn is_target_end(t: Token<'_>) -> bool {
    match t {
        Token::FenceEnd { tag, .. } => tag@ == target_tag(),
        _ => false,
    }
}

/// Is this token a text fragment?
pub open spec fn is_text(t: Token<'_>) -> bool {
    t matches Token::Text { .. }
}

/// The characters a text fragment carries; empty for any other token.
pub open spec fn text_of(t: Token<'_>) -> Seq<char> {
    match t {
        Token::Text { content, .. } => content@,
        _ => Seq::empty(),
    }
}

/// The language tag of the event, when it opens a fenced code block;
/// `None` for every other event.  A fixed aspect of the event value alone.
pub uninterp spec fn fence_start_tag(e: Event<'_>) -> Option<Seq<char>>;

/// The language tag of the event, when it closes a fenced code block;
/// `None` for every other event.  A fixed aspect of the event value alone.
pub uninterp spec fn fence_end_tag(e: Event<'_>) -> Option<Seq<char>>;

/// The fragment of literal text the event carries, when it is a text event;
/// `None` for every other event.  A fixed aspect of the event value alone.
pub uninterp spec fn text_fragment(e: Event<'_>) -> Option<Seq<char>>;

/// The raw-markup event whose content is the given text: what the
/// tokenizer's event constructor returns for it.
pub uninterp spec fn html_event_of(content: Seq<char>) -> Event<'static>;

/// Whether a token is the classification of an event: it carries the event
/// itself, its variant is decided by which one aspect the event has — a
/// fence-opening tag, a fence-closing tag, a text fragment, or none — and
/// its plain value is that aspect.  No classification is ever a raw-markup
/// token.
pub open spec fn classifies<'a>(e: Event<'a>, t: Token<'a>) -> bool {
    match t {
        Token::FenceStart { tag, event } => {
            &&& event == e
            &&& fence_start_tag(e) == Some(tag@)
            &&& fence_end_tag(e) is None
            &&& text_fragment(e) is None
        },
        Token::FenceEnd { tag, event } => {
            &&& event == e
            &&& fence_end_tag(e) == Some(tag@)
            &&& fence_start_tag(e) is None
            &&& text_fragment(e) is None
        },
        Token::Text { content, event } => {
            &&& event == e
            &&& text_fragment(e) == Some(content@)
            &&& fence_start_tag(e) is None
            &&& fence_end_tag(e) is None
        },
        Token::Html { .. } => false,
        Token::Other { event } => {
            &&& event == e
            &&& fence_start_tag(e) is None
            &&& fence_end_tag(e) is None
            &&& text_fragment(e) is None
        },
    }
}

/// The event a token stands for: the one it carries, or, for the
/// synthesized raw-markup token, the raw-markup event of its content.
pub open spec fn event_of_token<'a>(t: Token<'a>) -> Event<'a> {
    match t {
        Token::FenceStart { event, .. } => event,
        Token::FenceEnd { event, .. } => event,
        Token::Text { event, .. } => event,
        Token::Other { event } => event,
        Token::Html { content } => html_event_of(content@),
    }
}

/// Relies on `pulldown_cmark`'s `Event` structure: `Start`/`End` of a
/// `CodeBlock` with a `Fenced` kind delimit a fenced code block and carry
/// its language tag, and `Text` carries one fragment of literal text; the
/// three shapes are distinct variants of one enum, so at most one aspect
/// holds of any event.  The original event is kept beside the extraction.
#[verifier::external_body]
pub(crate) fn classify(e: Event<'_>) -> (t: Token<'_>)
    ensures
        classifies(e, t),
        t matches Token::FenceStart { tag, .. } ==> fence_start_tag(e) == Some(tag@),
        t matches Token::FenceEnd { tag, .. } ==> fence_end_tag(e) == Some(tag@),
        t matches Token::Text { content, .. } ==> text_fragment(e) == Some(content@),
{
    match &e {
        Event::Start(Tag::CodeBlock(CodeBlockKind::Fenced(tag))) => {
            let tag = tag.to_string();
            Token::FenceStart { tag, event: e }
        },
        Event::End(Tag::CodeBlock(CodeBlockKind::Fenced(tag))) => {
            let tag = tag.to_string();
            Token::FenceEnd { tag, event: e }
        },
        Event::Text(content) => {
            let content = content.to_string();
            Token::Text { content, event: e }
        },
        _ => Token::Other { event: e },
    }
}

/// Relies on `pulldown_cmark::Event::Html`: constructing a raw-markup event
/// from a text is a pure function of that text, and the serializer passes it
/// through unescaped.  Every other token hands back the very event it was
/// built from.
#[verifier::external_body]
pub(crate) fn to_event(t: Token<'_>) -> (e: Event<'_>)
    ensures
        e == event_of_token(t),
        t matches Token::Html { content } ==> e == html_event_of(content@),
{
    match t {
        Token::FenceStart { event, .. } => event,
        Token::FenceEnd { event, .. } => event,
        Token::Text { event, .. } => event,
        Token::Other { event } => event,
        Token::Html { content } => Event::Html(content.into()),
    }
}

} // verus!
