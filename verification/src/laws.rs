//! The library's laws: what the rewriting pass guarantees for whole
//! documents, proved once and for all over the plan ([`scan`]) that
//! [`crate::rewrite::rewrite_tokens`] is proved to follow.

use vstd::prelude::*;

use crate::options::{apply_entry, resolve, ConfigValue, RenderOptionsV};
use crate::rewrite::{rewrite_model, scan, scan_state, step_matches, steps_match, OutStep};
use crate::token::{is_target_end, is_target_start, is_text, text_of, Token};

verus! {

/// The plan that forwards every token of `s` unchanged.
pub open spec fn fwd_steps<'a>(s: Seq<Token<'a>>) -> Seq<OutStep<'a>> {
    Seq::new(s.len(), |k: int| OutStep::Fwd(s[k]))
}

/// The concatenation of the text carried by a run of text fragments.
pub open spec fn texts_concat(s: Seq<Token<'_>>) -> Seq<char>
    decreases s.len(),
{
    if s.len() == 0 {
        Seq::empty()
    } else {
        text_of(s[0]) + texts_concat(s.drop_first())
    }
}

/// Scanning a concatenation from inside the second part ignores the first.
proof fn lemma_scan_shift<'a>(
    s1: Seq<Token<'a>>,
    s2: Seq<Token<'a>>,
    j: int,
    inside: bool,
    buf: Seq<char>,
)
    requires
        0 <= j <= s2.len(),
    ensures
        scan(s1 + s2, s1.len() + j, inside, buf) == scan(s2, j, inside, buf),
    decreases s2.len() - j,
{
    let s = s1 + s2;
    if j == s2.len() {
        assert(scan(s, s1.len() + j, inside, buf) =~= scan(s2, j, inside, buf));
    } else {
        let t = s2[j];
        assert(s[s1.len() + j] == t);
        if !inside {
            if is_target_start(t) {
                lemma_scan_shift(s1, s2, j + 1, true, Seq::empty());
            } else {
                lemma_scan_shift(s1, s2, j + 1, false, Seq::empty());
            }
        } else {
            if is_target_end(t) {
                lemma_scan_shift(s1, s2, j + 1, false, Seq::empty());
            } else if is_text(t) {
                lemma_scan_shift(s1, s2, j + 1, true, buf + text_of(t));
            } else {
                lemma_scan_shift(s1, s2, j + 1, true, buf);
            }
        }
    }
}

/// The buffer's value is irrelevant while the pass is outside a block.
proof fn lemma_scan_outside_buf<'a>(s: Seq<Token<'a>>, i: int, b1: Seq<char>, b2: Seq<char>)
    ensures
        scan(s, i, false, b1) == scan(s, i, false, b2),
{
}

/// Scanning a concatenation splits at the seam: the second part is scanned
/// from whatever state the first part ends in.
proof fn lemma_scan_split<'a>(
    s1: Seq<Token<'a>>,
    s2: Seq<Token<'a>>,
    i: int,
    inside: bool,
    buf: Seq<char>,
)
    requires
        0 <= i <= s1.len(),
    ensures
        ({
            let st = scan_state(s1, i, inside, buf);
            scan(s1 + s2, i, inside, buf) == scan(s1, i, inside, buf) + scan(s2, 0, st.0, st.1)
        }),
    decreases s1.len() - i,
{
    let s = s1 + s2;
    let st = scan_state(s1, i, inside, buf);
    if i == s1.len() {
        lemma_scan_shift(s1, s2, 0, inside, buf);
        assert(scan(s1, i, inside, buf) =~= Seq::<OutStep<'a>>::empty());
        assert(scan(s1, i, inside, buf) + scan(s2, 0, inside, buf) =~= scan(s2, 0, inside, buf));
    } else {
        let t = s1[i];
        assert(s[i] == t);
        if !inside {
            if is_target_start(t) {
                lemma_scan_split(s1, s2, i + 1, true, Seq::empty());
            } else {
                lemma_scan_split(s1, s2, i + 1, false, Seq::empty());
                assert(seq![OutStep::Fwd(t)] + (scan(s1, i + 1, false, Seq::empty()) + scan(
                    s2,
                    0,
                    st.0,
                    st.1,
                )) =~= (seq![OutStep::Fwd(t)] + scan(s1, i + 1, false, Seq::empty())) + scan(
                    s2,
                    0,
                    st.0,
                    st.1,
                ));
            }
        } else {
            if is_target_end(t) {
                lemma_scan_split(s1, s2, i + 1, false, Seq::empty());
                assert(seq![OutStep::Render(buf)] + (scan(s1, i + 1, false, Seq::empty()) + scan(
                    s2,
                    0,
                    st.0,
                    st.1,
                )) =~= (seq![OutStep::Render(buf)] + scan(s1, i + 1, false, Seq::empty())) + scan(
                    s2,
                    0,
                    st.0,
                    st.1,
                ));
            } else if is_text(t) {
                lemma_scan_split(s1, s2, i + 1, true, buf + text_of(t));
            } else {
                lemma_scan_split(s1, s2, i + 1, true, buf);
            }
        }
    }
}

/// A stretch with no target fence start, scanned from outside any block, is
/// forwarded token for token, and the pass stays outside.
proof fn lemma_scan_outside_fwd<'a>(s: Seq<Token<'a>>, i: int, buf: Seq<char>)
    requires
        0 <= i <= s.len(),
        forall|k: int| i <= k < s.len() ==> !is_target_start(#[trigger] s[k]),
    ensures
        scan(s, i, false, buf) == Seq::new((s.len() - i) as nat, |k: int| OutStep::Fwd(s[i + k])),
        !scan_state(s, i, false, buf).0,
    decreases s.len() - i,
{
    if i == s.len() {
        assert(scan(s, i, false, buf) =~= Seq::new(
            (s.len() - i) as nat,
            |k: int| OutStep::Fwd(s[i + k]),
        ));
    } else {
        lemma_scan_outside_fwd(s, i + 1, Seq::empty());
        assert(seq![OutStep::Fwd(s[i])] + Seq::new(
            (s.len() - i - 1) as nat,
            |k: int| OutStep::Fwd(s[i + 1 + k]),
        ) =~= Seq::new((s.len() - i) as nat, |k: int| OutStep::Fwd(s[i + k])));
    }
}

/// Scanning a run of text fragments inside a block emits nothing and
/// appends their concatenated text to the buffer.
proof fn lemma_scan_buffer_texts<'a>(s: Seq<Token<'a>>, i: int, n: int, buf: Seq<char>)
    requires
        0 <= i,
        0 <= n,
        i + n <= s.len(),
        forall|k: int| i <= k < i + n ==> is_text(#[trigger] s[k]),
    ensures
        scan(s, i, true, buf) == scan(s, i + n, true, buf + texts_concat(s.subrange(i, i + n))),
        scan_state(s, i, true, buf) == scan_state(
            s,
            i + n,
            true,
            buf + texts_concat(s.subrange(i, i + n)),
        ),
    decreases n,
{
    if n == 0 {
        assert(s.subrange(i, i) =~= Seq::<Token<'a>>::empty());
        assert(buf + texts_concat(s.subrange(i, i)) =~= buf);
    } else {
        let t = s[i];
        assert(is_text(t));
        assert(!is_target_end(t));
        lemma_scan_buffer_texts(s, i + 1, n - 1, buf + text_of(t));
        let run = s.subrange(i, i + n);
        assert(run[0] == t);
        assert(run.drop_first() =~= s.subrange(i + 1, i + n));
        assert((buf + text_of(t)) + texts_concat(s.subrange(i + 1, i + n)) =~= buf + texts_concat(
            run,
        ));
    }
}

/// Pass-through invariant: a document with no target-tagged fence start
/// comes out of the rewriting pass exactly as it went in.
pub proof fn lemma_pass_through<'a>(opts: RenderOptionsV, s: Seq<Token<'a>>, out: Seq<Token<'a>>)
    requires
        forall|k: int| 0 <= k < s.len() ==> !is_target_start(#[trigger] s[k]),
        steps_match(opts, rewrite_model(s), out),
    ensures
        out == s,
{
    lemma_scan_outside_fwd(s, 0, Seq::empty());
    assert forall|k: int| 0 <= k < s.len() implies out[k] == s[k] by {
        assert(step_matches(opts, rewrite_model(s)[k], out[k]));
        assert(rewrite_model(s)[k] == OutStep::Fwd(s[k]));
    }
    assert(out =~= s);
}

/// Single-block substitution: a document holding exactly one target-tagged
/// fence rewrites to the surrounding content unchanged, with the whole fence
/// collapsed, at its own position, into the one replacement step for the
/// fence's concatenated interior text.
pub proof fn lemma_single_block<'a>(
    pre: Seq<Token<'a>>,
    start: Token<'a>,
    texts: Seq<Token<'a>>,
    end: Token<'a>,
    post: Seq<Token<'a>>,
)
    requires
        forall|k: int| 0 <= k < pre.len() ==> !is_target_start(#[trigger] pre[k]),
        is_target_start(start),
        forall|k: int| 0 <= k < texts.len() ==> is_text(#[trigger] texts[k]),
        is_target_end(end),
        forall|k: int| 0 <= k < post.len() ==> !is_target_start(#[trigger] post[k]),
    ensures
        rewrite_model(pre + seq![start] + texts + seq![end] + post) == fwd_steps(pre) + seq![
            OutStep::Render(texts_concat(texts)),
        ] + fwd_steps(post),
{
    let head = seq![start] + texts + seq![end];
    let tail = head + post;
    let doc = pre + seq![start] + texts + seq![end] + post;
    assert(doc =~= pre + tail);
    lemma_scan_outside_fwd(pre, 0, Seq::empty());
    lemma_scan_split(pre, tail, 0, false, Seq::empty());
    let st = scan_state(pre, 0, false, Seq::empty());
    lemma_scan_outside_buf(tail, 0, st.1, Seq::empty());
    assert(tail[0] == start);
    assert(scan(tail, 0, false, Seq::empty()) == scan(tail, 1, true, Seq::empty()));
    assert forall|k: int| 1 <= k < 1 + texts.len() implies is_text(#[trigger] tail[k]) by {
        assert(tail[k] == texts[k - 1]);
    }
    lemma_scan_buffer_texts(tail, 1, texts.len() as int, Seq::empty());
    assert(tail.subrange(1, 1 + texts.len() as int) =~= texts);
    let body = texts_concat(texts);
    assert(Seq::<char>::empty() + texts_concat(tail.subrange(1, 1 + texts.len() as int)) =~= body);
    assert(tail[1 + texts.len() as int] == end);
    assert(!is_text(end) || is_target_end(end));
    assert(scan(tail, 1 + texts.len() as int, true, body) == seq![OutStep::Render(body)] + scan(
        tail,
        2 + texts.len() as int,
        false,
        Seq::empty(),
    ));
    lemma_scan_shift(head, post, 0, false, Seq::empty());
    assert(head.len() == 2 + texts.len() as int);
    lemma_scan_outside_fwd(post, 0, Seq::empty());
    assert(rewrite_model(doc) =~= fwd_steps(pre) + seq![OutStep::Render(body)] + fwd_steps(post));
}

/// From any recognition state, a target-tagged fence whose interior is a
/// run of text fragments scans to one replacement step — the buffered text
/// so far (empty when the fence opens the block itself) followed by the
/// fragments' concatenation — and leaves the rest of the document to a
/// fresh scan.
proof fn lemma_scan_block_any_state<'a>(
    start: Token<'a>,
    texts: Seq<Token<'a>>,
    end: Token<'a>,
    post: Seq<Token<'a>>,
    inside: bool,
    buf: Seq<char>,
)
    requires
        is_target_start(start),
        forall|k: int| 0 <= k < texts.len() ==> is_text(#[trigger] texts[k]),
        is_target_end(end),
    ensures
        ({
            let tail = seq![start] + texts + seq![end] + post;
            let buf0 = if inside {
                buf
            } else {
                Seq::<char>::empty()
            };
            scan(tail, 0, inside, buf) == seq![OutStep::Render(buf0 + texts_concat(texts))] + scan(
                post,
                0,
                false,
                Seq::empty(),
            )
        }),
{
    let head = seq![start] + texts + seq![end];
    let tail = seq![start] + texts + seq![end] + post;
    assert(tail =~= head + post);
    assert(tail[0] == start);
    let buf0 = if inside {
        buf
    } else {
        Seq::<char>::empty()
    };
    if inside {
        assert(scan(tail, 0, true, buf) == scan(tail, 1, true, buf));
    } else {
        assert(scan(tail, 0, false, buf) == scan(tail, 1, true, Seq::empty()));
    }
    assert forall|k: int| 1 <= k < 1 + texts.len() implies is_text(#[trigger] tail[k]) by {
        assert(tail[k] == texts[k - 1]);
    }
    lemma_scan_buffer_texts(tail, 1, texts.len() as int, buf0);
    assert(tail.subrange(1, 1 + texts.len() as int) =~= texts);
    let body = buf0 + texts_concat(texts);
    assert(tail[1 + texts.len() as int] == end);
    assert(scan(tail, 1 + texts.len() as int, true, body) == seq![OutStep::Render(body)] + scan(
        tail,
        2 + texts.len() as int,
        false,
        Seq::empty(),
    ));
    lemma_scan_shift(head, post, 0, false, Seq::empty());
    assert(head.len() == 2 + texts.len() as int);
    assert(scan(tail, 0, inside, buf) =~= seq![OutStep::Render(body)] + scan(
        post,
        0,
        false,
        Seq::empty(),
    ));
}

/// Fragmentation invariance: splitting a target block's interior into any
/// run of fragments whose concatenation is the same text yields the same
/// rewriting plan, whatever surrounds the block.
pub proof fn lemma_fragmentation<'a>(
    pre: Seq<Token<'a>>,
    start: Token<'a>,
    texts1: Seq<Token<'a>>,
    texts2: Seq<Token<'a>>,
    end: Token<'a>,
    post: Seq<Token<'a>>,
)
    requires
        is_target_start(start),
        forall|k: int| 0 <= k < texts1.len() ==> is_text(#[trigger] texts1[k]),
        forall|k: int| 0 <= k < texts2.len() ==> is_text(#[trigger] texts2[k]),
        is_target_end(end),
        texts_concat(texts1) == texts_concat(texts2),
    ensures
        rewrite_model(pre + seq![start] + texts1 + seq![end] + post) == rewrite_model(
            pre + seq![start] + texts2 + seq![end] + post,
        ),
{
    let tail1 = seq![start] + texts1 + seq![end] + post;
    let tail2 = seq![start] + texts2 + seq![end] + post;
    let doc1 = pre + seq![start] + texts1 + seq![end] + post;
    let doc2 = pre + seq![start] + texts2 + seq![end] + post;
    assert(doc1 =~= pre + tail1);
    assert(doc2 =~= pre + tail2);
    lemma_scan_split(pre, tail1, 0, false, Seq::empty());
    lemma_scan_split(pre, tail2, 0, false, Seq::empty());
    let st = scan_state(pre, 0, false, Seq::empty());
    lemma_scan_block_any_state(start, texts1, end, post, st.0, st.1);
    lemma_scan_block_any_state(start, texts2, end, post, st.0, st.1);
}

/// Non-matching fence preservation: a fenced block whose tag is anything but
/// the exact target marker — empty, a superstring, a substring — is
/// forwarded token for token, with no buffering triggered, provided no
/// target-tagged fence starts elsewhere in the document either.
pub proof fn lemma_non_matching_fence<'a>(
    opts: RenderOptionsV,
    pre: Seq<Token<'a>>,
    start: Token<'a>,
    texts: Seq<Token<'a>>,
    end: Token<'a>,
    post: Seq<Token<'a>>,
    out: Seq<Token<'a>>,
)
    requires
        forall|k: int| 0 <= k < pre.len() ==> !is_target_start(#[trigger] pre[k]),
        start matches Token::FenceStart { tag, .. } && tag@ != crate::token::target_tag(),
        forall|k: int| 0 <= k < texts.len() ==> is_text(#[trigger] texts[k]),
        end matches Token::FenceEnd { .. },
        forall|k: int| 0 <= k < post.len() ==> !is_target_start(#[trigger] post[k]),
        steps_match(opts, rewrite_model(pre + seq![start] + texts + seq![end] + post), out),
    ensures
        out == pre + seq![start] + texts + seq![end] + post,
{
    let doc = pre + seq![start] + texts + seq![end] + post;
    assert forall|k: int| 0 <= k < doc.len() implies !is_target_start(#[trigger] doc[k]) by {
        if k < pre.len() {
            assert(doc[k] == pre[k]);
        } else if k == pre.len() {
            assert(doc[k] == start);
        } else if k < pre.len() + 1 + texts.len() {
            assert(doc[k] == texts[k - pre.len() - 1]);
        } else if k == pre.len() + 1 + texts.len() {
            assert(doc[k] == end);
        } else {
            assert(doc[k] == post[k - pre.len() - texts.len() - 2]);
        }
    }
    lemma_pass_through(opts, doc, out);
}

/// Non-matching fence preservation in any context: wherever the content
/// before the fence leaves the pass outside a block — that content may
/// itself hold whole target blocks — a fenced block with any other tag
/// contributes exactly its own tokens to the plan, forwarded in place with
/// no buffering triggered, and what follows is rewritten independently.
pub proof fn lemma_non_matching_fence_in_context<'a>(
    pre: Seq<Token<'a>>,
    start: Token<'a>,
    texts: Seq<Token<'a>>,
    end: Token<'a>,
    post: Seq<Token<'a>>,
)
    requires
        !scan_state(pre, 0, false, Seq::empty()).0,
        start matches Token::FenceStart { tag, .. } && tag@ != crate::token::target_tag(),
        forall|k: int| 0 <= k < texts.len() ==> !is_target_start(#[trigger] texts[k]),
        end matches Token::FenceEnd { .. },
    ensures
        rewrite_model(pre + seq![start] + texts + seq![end] + post) == rewrite_model(pre)
            + fwd_steps(seq![start] + texts + seq![end]) + rewrite_model(post),
{
    let fence = seq![start] + texts + seq![end];
    let doc = pre + seq![start] + texts + seq![end] + post;
    assert(doc =~= pre + (fence + post));
    lemma_blocks_compose(pre, fence + post);
    assert forall|k: int| 0 <= k < fence.len() implies !is_target_start(#[trigger] fence[k]) by {
        if k == 0 {
            assert(fence[k] == start);
        } else if k < 1 + texts.len() {
            assert(fence[k] == texts[k - 1]);
        } else {
            assert(fence[k] == end);
        }
    }
    lemma_scan_outside_fwd(fence, 0, Seq::empty());
    lemma_blocks_compose(fence, post);
    assert(rewrite_model(fence) =~= fwd_steps(fence));
    assert(rewrite_model(doc) =~= rewrite_model(pre) + fwd_steps(fence) + rewrite_model(post));
}

/// Independent blocks: once a stretch of the document leaves the pass
/// outside any block, what follows is rewritten independently of it.
/// Applied once per block, this gives a document with N separated
/// target-tagged fences a plan of N replacement steps, each reflecting only
/// its own block's interior, with everything between and around forwarded.
pub proof fn lemma_blocks_compose<'a>(s1: Seq<Token<'a>>, s2: Seq<Token<'a>>)
    requires
        !scan_state(s1, 0, false, Seq::empty()).0,
    ensures
        rewrite_model(s1 + s2) == rewrite_model(s1) + rewrite_model(s2),
{
    lemma_scan_split(s1, s2, 0, false, Seq::empty());
    lemma_scan_outside_buf(s2, 0, scan_state(s1, 0, false, Seq::empty()).1, Seq::empty());
}

/// A target block at the head of the remaining document: its plan is
/// exactly one replacement step — for its own concatenated interior, no
/// other block's — followed by the rest's plan, whatever the rest holds.
/// Together with the composition law this peels off a document's target
/// blocks one by one: a document with N separated target blocks plans N
/// replacement steps in order, the content between and around forwarded.
pub proof fn lemma_block_then_rest<'a>(
    start: Token<'a>,
    texts: Seq<Token<'a>>,
    end: Token<'a>,
    rest: Seq<Token<'a>>,
)
    requires
        is_target_start(start),
        forall|k: int| 0 <= k < texts.len() ==> is_text(#[trigger] texts[k]),
        is_target_end(end),
    ensures
        rewrite_model(seq![start] + texts + seq![end] + rest) == seq![
            OutStep::Render(texts_concat(texts)),
        ] + rewrite_model(rest),
{
    lemma_scan_block_any_state(start, texts, end, rest, false, Seq::empty());
    assert(Seq::<char>::empty() + texts_concat(texts) =~= texts_concat(texts));
}

/// Unterminated block: a target fence start that never finds its matching
/// end swallows its buffered interior — the output is the content before
/// the fence, and nothing of the block itself, with no error raised.
pub proof fn lemma_unterminated<'a>(
    opts: RenderOptionsV,
    pre: Seq<Token<'a>>,
    start: Token<'a>,
    texts: Seq<Token<'a>>,
    out: Seq<Token<'a>>,
)
    requires
        forall|k: int| 0 <= k < pre.len() ==> !is_target_start(#[trigger] pre[k]),
        is_target_start(start),
        forall|k: int| 0 <= k < texts.len() ==> is_text(#[trigger] texts[k]),
        steps_match(opts, rewrite_model(pre + seq![start] + texts), out),
    ensures
        out == pre,
{
    let tail = seq![start] + texts;
    let doc = pre + seq![start] + texts;
    assert(doc =~= pre + tail);
    lemma_scan_outside_fwd(pre, 0, Seq::empty());
    lemma_scan_split(pre, tail, 0, false, Seq::empty());
    let st = scan_state(pre, 0, false, Seq::empty());
    lemma_scan_outside_buf(tail, 0, st.1, Seq::empty());
    assert(tail[0] == start);
    assert(scan(tail, 0, false, Seq::empty()) == scan(tail, 1, true, Seq::empty()));
    assert forall|k: int| 1 <= k < 1 + texts.len() implies is_text(#[trigger] tail[k]) by {
        assert(tail[k] == texts[k - 1]);
    }
    lemma_scan_buffer_texts(tail, 1, texts.len() as int, Seq::empty());
    assert(scan(tail, 1 + texts.len() as int, true, Seq::empty() + texts_concat(
        tail.subrange(1, 1 + texts.len() as int),
    )) =~= Seq::<OutStep<'a>>::empty());
    assert(rewrite_model(doc) =~= fwd_steps(pre));
    assert forall|k: int| 0 <= k < pre.len() implies out[k] == pre[k] by {
        assert(step_matches(opts, rewrite_model(doc)[k], out[k]));
        assert(rewrite_model(doc)[k] == OutStep::Fwd(pre[k]));
    }
    assert(out =~= pre);
}

/// Configuration override: resolving a map that sets `scale` to a numeric
/// value yields the same options with exactly the scale replaced by that
/// value's rendering; every omitted key keeps what it had, in particular
/// the two overridden defaults and the renderer's remaining defaults.
pub proof fn lemma_scale_override(o: RenderOptionsV, key: String, v: ConfigValue)
    requires
        key@ == "scale"@,
        v matches ConfigValue::Int { .. } || v matches ConfigValue::Real { .. },
    ensures
        ({
            let scale = match v {
                ConfigValue::Int { repr, .. } => repr@,
                ConfigValue::Real { repr } => repr@,
                _ => o.scale,
            };
            resolve(o, seq![(key, v)]) == Ok::<RenderOptionsV, Seq<char>>(
                (RenderOptionsV { scale, ..o }),
            )
        }),
{
    reveal_strlit("scale");
    reveal_strlit("font_size");
    reveal_strlit("font_family");
    reveal_strlit("fill_color");
    reveal_strlit("background");
    reveal_strlit("stroke_color");
    reveal_strlit("stroke_width");
    assert("scale"@.len() == 5);
    assert("font_size"@.len() == 9);
    assert("font_family"@.len() == 11);
    assert("fill_color"@.len() == 10);
    assert("background"@.len() == 10);
    assert("stroke_color"@.len() == 12);
    assert("stroke_width"@.len() == 12);
    let es = seq![(key, v)];
    assert(es[0] == (key, v));
    assert(es.drop_first() =~= Seq::<(String, ConfigValue)>::empty());
    let scale = match v {
        ConfigValue::Int { repr, .. } => repr@,
        ConfigValue::Real { repr } => repr@,
        _ => o.scale,
    };
    assert(apply_entry(o, key@, v) == Some((RenderOptionsV { scale, ..o })));
    assert(resolve((RenderOptionsV { scale, ..o }), es.drop_first())
        == Ok::<RenderOptionsV, Seq<char>>((RenderOptionsV { scale, ..o })));
}

} // verus!
