//! One document's whole pass: tokenize, rewrite, re-serialize.
//!
//! The tokenizer and the serializer are outside collaborators, but both are
//! deterministic functions of their arguments, so their results carry names
//! ([`events_of`], [`markdown_of`]).  Over those names the pass has an exact
//! contract: the text it returns is the serialization of the event sequence
//! obtained by classifying the document's events, rewriting the tokens as
//! [`crate::rewrite::rewrite_tokens`]'s contract demands, and turning each
//! output token back into its event.

use vstd::prelude::*;

use pulldown_cmark::{Event, Options, Parser};
use pulldown_cmark_to_cmark::cmark;

use crate::options::{RenderOptions, RenderOptionsV};
use crate::rewrite::{rewrite_model, rewrite_tokens, steps_match};
use crate::token::{classifies, classify, event_of_token, to_event, Token};

verus! {

/// The serializer could not re-render the rewritten token sequence into
/// text.  Fatal for the document's pass; the caller reports it.  It stands
/// for the propagation policy: with the serializer writing into a string
/// buffer, the pass proves it never arises.
#[derive(Clone, Copy, Debug)]
pub struct SerializeError;

#[verifier::external_type_specification]
#[verifier::external_body]
pub struct ExFmtError(core::fmt::Error);

/// The event sequence the tokenizer produces for a document: a function of
/// the document's text alone.
pub uninterp spec fn events_of(content: Seq<char>) -> Seq<Event<'static>>;

/// The markdown text the serializer renders for an event sequence, when it
/// succeeds: a function of the events alone.
pub uninterp spec fn markdown_of(events: Seq<Event<'_>>) -> Seq<char>;

/// Whether a token sequence is the elementwise classification of an event
/// sequence.
pub open spec fn classified<'a>(evs: Seq<Event<'a>>, toks: Seq<Token<'a>>) -> bool {
    &&& toks.len() == evs.len()
    &&& forall|k: int| 0 <= k < evs.len() ==> classifies(evs[k], #[trigger] toks[k])
}

/// The event sequence a token sequence stands for, token by token.
pub open spec fn events_out<'a>(out: Seq<Token<'a>>) -> Seq<Event<'a>> {
    out.map_values(|t: Token<'a>| event_of_token(t))
}

/// What a successful pass returns for a document: there is a classification
/// `toks` of the document's event sequence, and an output token sequence
/// `out` that is exactly what the rewriting plan for `toks` calls for, such
/// that the text is the serialization of `out`'s events.
pub open spec fn transformed<'a>(
    content: Seq<char>,
    opts: RenderOptionsV,
    text: Seq<char>,
) -> bool {
    exists|toks: Seq<Token<'a>>, out: Seq<Token<'a>>|
        {
            &&& classified(events_of(content), toks)
            &&& #[trigger] steps_match(opts, rewrite_model(toks), out)
            &&& text == markdown_of(events_out(out))
        }
}

/// Relies on `pulldown_cmark::Parser::new_ext`: tokenizing a markdown
/// document, with every extension enabled, yields its events in document
/// order, a deterministic function of the text.
#[verifier::external_body]
fn parse_events<'a>(content: &'a str) -> (r: Vec<Event<'a>>)
    ensures
        r@ == events_of(content@),
{
    Parser::new_ext(content, Options::all()).collect()
}

/// Relies on `pulldown_cmark_to_cmark::cmark`: re-rendering an event
/// sequence as markdown text is a deterministic function of the events,
/// passing raw-markup events through unescaped.  Every failure path of the
/// serializer propagates an error of its formatter, and the formatter here
/// is a `String`, whose writes always succeed — so the call returns `Ok`,
/// and its error is handed back as it came in the case that cannot arise.
#[verifier::external_body]
fn serialize_events<'a>(events: &Vec<Event<'a>>) -> (r: Result<String, core::fmt::Error>)
    ensures
        r is Ok,
        r matches Ok(text) ==> text@ == markdown_of(events@),
{
    let mut buf = String::new();
    match cmark(events.iter(), &mut buf) {
        Ok(_) => Ok(buf),
        Err(e) => Err(e),
    }
}

/// Transforms one document: each fenced block tagged with the target marker
/// is replaced by its rendered diagram, and everything else is carried
/// through the serializer unchanged.  A serializer failure would be fatal
/// for the document and surface as the error; with this serializer writing
/// into a string buffer it does not occur, so the pass promises success —
/// in particular a document with an unterminated target fence still comes
/// back `Ok`, its buffered content silently discarded.
pub fn process_content<'a>(content: &'a str, opts: &RenderOptions) -> (r: Result<
    String,
    SerializeError,
>)
    ensures
        r is Ok,
        r matches Ok(text) ==> transformed(content@, opts@, text@),
{
    let mut events = parse_events(content);
    let ghost all_events: Seq<Event<'a>> = events@;
    let mut toks: Vec<Token<'a>> = Vec::new();
    proof {
        assert(all_events.skip(0) =~= all_events);
    }
    while events.len() > 0
        invariant
            toks@.len() + events@.len() == all_events.len(),
            events@ == all_events.skip(toks@.len() as int),
            forall|k: int| 0 <= k < toks@.len() ==> classifies(all_events[k], #[trigger] toks@[k]),
        decreases events@.len(),
    {
        proof {
            assert(events@[0] == all_events[toks@.len() as int]);
            assert(events@.drop_first() =~= all_events.skip(toks@.len() as int + 1));
        }
        let e = events.remove(0);
        toks.push(classify(e));
    }
    let ghost toks_seq: Seq<Token<'a>> = toks@;
    proof {
        assert(classified(all_events, toks_seq));
    }
    let mut rewritten = rewrite_tokens(toks, opts);
    let ghost out_seq: Seq<Token<'a>> = rewritten@;
    let mut evs: Vec<Event<'a>> = Vec::new();
    proof {
        assert(out_seq.skip(0) =~= out_seq);
    }
    while rewritten.len() > 0
        invariant
            evs@.len() + rewritten@.len() == out_seq.len(),
            rewritten@ == out_seq.skip(evs@.len() as int),
            forall|k: int| 0 <= k < evs@.len() ==> evs@[k] == event_of_token(
                #[trigger] out_seq[k],
            ),
        decreases rewritten@.len(),
    {
        proof {
            assert(rewritten@[0] == out_seq[evs@.len() as int]);
            assert(rewritten@.drop_first() =~= out_seq.skip(evs@.len() as int + 1));
        }
        let t = rewritten.remove(0);
        evs.push(to_event(t));
    }
    proof {
        assert(evs@ =~= events_out(out_seq));
    }
    match serialize_events(&evs) {
        Ok(text) => {
            proof {
                assert(classified(events_of(content@), toks_seq));
                assert(steps_match(opts@, rewrite_model(toks_seq), out_seq));
                assert(text@ == markdown_of(events_out(out_seq)));
            }
            Ok(text)
        },
        Err(_) => Err(SerializeError),
    }
}

} // verus!
