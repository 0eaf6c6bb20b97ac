//! The fence detector and buffer: the verified heart of the library.
//!
//! [`rewrite_tokens`] makes one forward pass over a document's token
//! sequence.  Outside a target fence every token is forwarded unchanged and
//! in order.  A fence start whose tag is exactly the target marker switches
//! the pass into buffering: text fragments are accumulated (a single logical
//! block may arrive split across many fragments) and suppressed, until the
//! matching fence end arrives, at which point the whole region collapses to
//! a single synthesized raw-markup token holding the rendered diagram.
//! While a block is open, a token that is neither a text fragment nor the
//! matching fence end counts as still-interior content: it is suppressed and
//! the block stays open, so no fence is ever half-emitted.  A target fence
//! that never closes leaves its buffered text behind without a trace, by
//! design.
//!
//! The plan of the pass is the spec function [`rewrite_model`]; the
//! executable function is proved to produce exactly the tokens the plan
//! calls for.

use vstd::prelude::*;

use crate::options::{RenderOptions, RenderOptionsV};
use crate::render::{create_svg_html, html_of};
use crate::str_eq;
use crate::token::{is_target_end, is_target_start, is_text, text_of, Token};

verus! {

/// One step of the rewriting plan: either forward this input token
/// unchanged, or emit the replacement for a fence whose buffered interior
/// text is given.
pub enum OutStep<'a> {
    Fwd(Token<'a>),
    Render(Seq<char>),
}

/// The recognition pass from position `i` onward, given the current
/// recognition state and the buffered interior text.  This is the whole
/// contract of the detector, written as the table it implements:
///
/// * outside a target block, a target fence start is suppressed and opens a
///   block with a cleared buffer; every other token is forwarded;
/// * inside a target block, a target fence end emits the one replacement
///   step and closes the block; a text fragment is appended to the buffer
///   and suppressed; any other token is treated as still-interior content of
///   the current buffer — suppressed, contributing no text, with the block
///   staying open (a defensive default: the tokenizer's own grammar does not
///   nest fences, so such a token does not arise from a real document).
pub open spec fn scan<'a>(s: Seq<Token<'a>>, i: int, inside: bool, buf: Seq<char>) -> Seq<
    OutStep<'a>,
>
    decreases s.len() - i,
{
    if i < 0 || i >= s.len() {
        seq![]
    } else if !inside {
        if is_target_start(s[i]) {
            scan(s, i + 1, true, Seq::empty())
        } else {
            seq![OutStep::Fwd(s[i])] + scan(s, i + 1, false, Seq::empty())
        }
    } else {
        if is_target_end(s[i]) {
            seq![OutStep::Render(buf)] + scan(s, i + 1, false, Seq::empty())
        } else if is_text(s[i]) {
            scan(s, i + 1, true, buf + text_of(s[i]))
        } else {
            scan(s, i + 1, true, buf)
        }
    }
}

/// The recognition state after the pass: whether it is still inside a
/// target block, and with what buffered text.
pub open spec fn scan_state<'a>(s: Seq<Token<'a>>, i: int, inside: bool, buf: Seq<char>) -> (
    bool,
    Seq<char>,
)
    decreases s.len() - i,
{
    if i < 0 || i >= s.len() {
        (inside, buf)
    } else if !inside {
        if is_target_start(s[i]) {
            scan_state(s, i + 1, true, Seq::empty())
        } else {
            scan_state(s, i + 1, false, Seq::empty())
        }
    } else {
        if is_target_end(s[i]) {
            scan_state(s, i + 1, false, Seq::empty())
        } else if is_text(s[i]) {
            scan_state(s, i + 1, true, buf + text_of(s[i]))
        } else {
            scan_state(s, i + 1, true, buf)
        }
    }
}

/// The rewriting plan for a whole document: the pass starts outside any
/// block, with an empty buffer.
pub open spec fn rewrite_model<'a>(s: Seq<Token<'a>>) -> Seq<OutStep<'a>> {
    scan(s, 0, false, Seq::empty())
}

/// Whether an output token is what a plan step calls for: a forwarded step
/// demands the input token itself, a replacement step demands a raw-markup
/// token holding exactly the rendered buffered text.
pub open spec fn step_matches<'a>(opts: RenderOptionsV, st: OutStep<'a>, t: Token<'a>) -> bool {
    match st {
        OutStep::Fwd(orig) => t == orig,
        OutStep::Render(text) => t matches Token::Html { content } && content@ == html_of(
            text,
            opts,
        ),
    }
}

/// Whether an output sequence is exactly what a plan calls for, step by
/// step.  Since each step pins its token down, the plan determines the
/// output uniquely.
pub open spec fn steps_match<'a>(
    opts: RenderOptionsV,
    m: Seq<OutStep<'a>>,
    out: Seq<Token<'a>>,
) -> bool {
    &&& out.len() == m.len()
    &&& forall|k: int| 0 <= k < m.len() ==> step_matches(opts, m[k], #[trigger] out[k])
}

/// Does this token open a fenced block tagged with the target marker?
fn is_target_start_x(t: &Token<'_>) -> (b: bool)
    ensures
        b == is_target_start(*t),
{
    match t {
        Token::FenceStart { tag, .. } => str_eq(tag.as_str(), "svgbob"),
        _ => false,
    }
}

/// One forward pass over a document's tokens: every target-tagged fence
/// collapses to a single rendered replacement token, everything outside the
/// target fences is forwarded unchanged, in the original order, and interior
/// tokens are consumed by the block that holds them.
pub fn rewrite_tokens<'a>(toks: Vec<Token<'a>>, opts: &RenderOptions) -> (out: Vec<Token<'a>>)
    ensures
        steps_match(opts@, rewrite_model(toks@), out@),
{
    let ghost orig: Seq<Token<'a>> = toks@;
    let mut toks = toks;
    let mut out: Vec<Token<'a>> = Vec::new();
    let mut inside: bool = false;
    let mut buf: String = String::new();
    let ghost mut done: Seq<OutStep<'a>> = Seq::empty();
    let ghost mut i: int = 0;
    proof {
        assert(orig.skip(0) =~= orig);
    }
    while toks.len() > 0
        invariant
            0 <= i <= orig.len(),
            toks@ == orig.skip(i),
            !inside ==> buf@ == Seq::<char>::empty(),
            steps_match(opts@, done, out@),
            rewrite_model(orig) == done + scan(orig, i, inside, buf@),
        decreases orig.len() - i,
    {
        proof {
            assert(orig.skip(i)[0] == orig[i]);
            assert(orig.skip(i).drop_first() =~= orig.skip(i + 1));
        }
        let t = toks.remove(0);
        let ghost cur: Token<'a> = orig[i];
        if !inside {
            if is_target_start_x(&t) {
                inside = true;
                buf = String::new();
            } else {
                proof {
                    assert(scan(orig, i, false, Seq::empty()) =~= seq![OutStep::Fwd(cur)] + scan(
                        orig,
                        i + 1,
                        false,
                        Seq::empty(),
                    ));
                    done = done.push(OutStep::Fwd(cur));
                    assert(rewrite_model(orig) =~= done + scan(orig, i + 1, false, Seq::empty()));
                }
                out.push(t);
            }
        } else {
            match t {
                Token::Text { content, event: _ } => {
                    buf.append(content.as_str());
                },
                Token::FenceEnd { tag, event: _ } => {
                    if str_eq(tag.as_str(), "svgbob") {
                        let html = create_svg_html(buf.as_str(), opts);
                        proof {
                            assert(scan(orig, i, true, buf@) =~= seq![OutStep::Render(buf@)]
                                + scan(orig, i + 1, false, Seq::empty()));
                            done = done.push(OutStep::Render(buf@));
                            assert(rewrite_model(orig) =~= done + scan(
                                orig,
                                i + 1,
                                false,
                                Seq::empty(),
                            ));
                        }
                        out.push(Token::Html { content: html });
                        inside = false;
                        buf = String::new();
                    } else {
                        proof {
                            assert(scan(orig, i, true, buf@) == scan(orig, i + 1, true, buf@));
                        }
                    }
                },
                _ => {
                    proof {
                        assert(scan(orig, i, true, buf@) == scan(orig, i + 1, true, buf@));
                    }
                },
            }
        }
        proof {
            i = i + 1;
        }
    }
    proof {
        assert(scan(orig, orig.len() as int, inside, buf@) =~= Seq::<OutStep<'a>>::empty());
        assert(rewrite_model(orig) =~= done);
    }
    out
}

} // verus!
