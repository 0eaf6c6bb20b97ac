//! The rendering boundary: turning a buffered diagram text into the raw
//! markup block that replaces the fence.

use vstd::prelude::*;

use crate::options::{RenderOptions, RenderOptionsV};

verus! {

/// The rendered SVG markup for a diagram text under given options.  The
/// renderer is a deterministic pure function of the two, so its result has a
/// name; nothing further is assumed about its shape.
pub uninterp spec fn svg_of(text: Seq<char>, opts: RenderOptionsV) -> Seq<char>;

/// The replacement block for a fence whose interior was `text`: an
/// HTML-like container element with a fixed styling class, holding the
/// rendered diagram as its sole content.
pub open spec fn html_of(text: Seq<char>, opts: RenderOptionsV) -> Seq<char> {
    "<pre class=\"svgbob\">"@ + svg_of(text, opts) + "</pre>"@
}

/// Relies on `svgbob::to_svg_with_settings`: the rendered markup is a
/// deterministic function of the diagram text and the settings alone.  The
/// two width-like settings travel as decimal renderings and are read back
/// into numbers here (an unreadable rendering becomes zero, so the call is
/// still a deterministic function of the options).
#[verifier::external_body]
fn render_svg(text: &str, opts: &RenderOptions) -> (r: String)
    ensures
        r@ == svg_of(text@, opts@),
{
    let s = svgbob::Settings {
        font_size: opts.font_size as usize,
        font_family: opts.font_family.clone(),
        fill_color: opts.fill_color.clone(),
        background: opts.background.clone(),
        stroke_color: opts.stroke_color.clone(),
        stroke_width: opts.stroke_width.parse().unwrap_or_default(),
        scale: opts.scale.parse().unwrap_or_default(),
        enhance_circuitries: opts.enhance_circuitries,
        include_backdrop: opts.include_backdrop,
        include_styles: opts.include_styles,
        include_defs: opts.include_defs,
        merge_line_with_shapes: opts.merge_line_with_shapes,
    };
    svgbob::to_svg_with_settings(text, &s)
}

/// Renders a buffered diagram and wraps it in the fixed container element.
pub fn create_svg_html(s: &str, opts: &RenderOptions) -> (r: String)
    ensures
        r@ == html_of(s@, opts@),
{
    let svg = render_svg(s, opts);
    let mut out = String::from_str("<pre class=\"svgbob\">");
    out.append(svg.as_str());
    out.append("</pre>");
    out
}

} // verus!
