//! The rendering options and the resolution of a key-value configuration
//! map into them.
//!
//! The options mirror the renderer's settings as plain values.  The two
//! width-like settings are real numbers for the renderer; the library holds
//! each as its decimal rendering, a string the renderer's boundary reads
//! back as a number, so that the resolution logic itself stays within plain
//! values.  The host supplies each numeric configuration entry both as the
//! integer it was written as (when it was one) and as such a decimal
//! rendering, since different options consume different forms.

use vstd::prelude::*;

use crate::str_eq;

verus! {

/// The resolved rendering options, shared read-only across all documents of
/// one pass.
#[derive(Clone, Debug)]
pub struct RenderOptions {
    pub font_size: u64,
    pub font_family: String,
    pub fill_color: String,
    pub background: String,
    pub stroke_color: String,
    /// Decimal rendering of the stroke width.
    pub stroke_width: String,
    /// Decimal rendering of the scale multiplier.
    pub scale: String,
    pub enhance_circuitries: bool,
    pub include_backdrop: bool,
    pub include_styles: bool,
    pub include_defs: bool,
    pub merge_line_with_shapes: bool,
}

/// The mathematical model of [`RenderOptions`].
#[verifier::ext_equal]
pub struct RenderOptionsV {
    pub font_size: u64,
    pub font_family: Seq<char>,
    pub fill_color: Seq<char>,
    pub background: Seq<char>,
    pub stroke_color: Seq<char>,
    pub stroke_width: Seq<char>,
    pub scale: Seq<char>,
    pub enhance_circuitries: bool,
    pub include_backdrop: bool,
    pub include_styles: bool,
    pub include_defs: bool,
    pub merge_line_with_shapes: bool,
}

impl View for RenderOptions {
    type V = RenderOptionsV;

    open spec fn view(&self) -> RenderOptionsV {
        RenderOptionsV {
            font_size: self.font_size,
            font_family: self.font_family@,
            fill_color: self.fill_color@,
            background: self.background@,
            stroke_color: self.stroke_color@,
            stroke_width: self.stroke_width@,
            scale: self.scale@,
            enhance_circuitries: self.enhance_circuitries,
            include_backdrop: self.include_backdrop,
            include_styles: self.include_styles,
            include_defs: self.include_defs,
            merge_line_with_shapes: self.merge_line_with_shapes,
        }
    }
}

/// One typed value of the configuration map, as the host hands it over.
///
/// A numeric entry that was written as an integer carries both the integer
/// and its decimal rendering; one written as a real number carries only the
/// rendering.  Values of any other shape (dates, arrays, tables) arrive as
/// [`ConfigValue::Unsupported`].
#[derive(Clone, Debug)]
pub enum ConfigValue {
    Int { val: i64, repr: String },
    Real { repr: String },
    Str { text: String },
    Flag { on: bool },
    Unsupported,
}

/// A configuration value could not be coerced to the type its key expects.
/// This aborts the whole pass before any document is processed.
#[derive(Clone, Debug)]
pub struct ConfigError {
    pub key: String,
}

/// What one configuration entry does to the options: `None` when the value
/// cannot be coerced to the type the key expects, `Some` of the updated
/// options otherwise.  Unrecognized keys are ignored.
pub open spec fn apply_entry(o: RenderOptionsV, key: Seq<char>, v: ConfigValue) -> Option<
    RenderOptionsV,
> {
    if key == "font_size"@ {
        match v {
            ConfigValue::Int { val, repr } => if 0 <= val {
                Some(RenderOptionsV { font_size: val as u64, ..o })
            } else {
                None
            },
            _ => None,
        }
    } else if key == "font_family"@ {
        match v {
            ConfigValue::Str { text } => Some(RenderOptionsV { font_family: text@, ..o }),
            _ => None,
        }
    } else if key == "fill_color"@ {
        match v {
            ConfigValue::Str { text } => Some(RenderOptionsV { fill_color: text@, ..o }),
            _ => None,
        }
    } else if key == "background"@ {
        match v {
            ConfigValue::Str { text } => Some(RenderOptionsV { background: text@, ..o }),
            _ => None,
        }
    } else if key == "stroke_color"@ {
        match v {
            ConfigValue::Str { text } => Some(RenderOptionsV { stroke_color: text@, ..o }),
            _ => None,
        }
    } else if key == "stroke_width"@ {
        match v {
            ConfigValue::Int { val, repr } => Some(RenderOptionsV { stroke_width: repr@, ..o }),
            ConfigValue::Real { repr } => Some(RenderOptionsV { stroke_width: repr@, ..o }),
            _ => None,
        }
    } else if key == "scale"@ {
        match v {
            ConfigValue::Int { val, repr } => Some(RenderOptionsV { scale: repr@, ..o }),
            ConfigValue::Real { repr } => Some(RenderOptionsV { scale: repr@, ..o }),
            _ => None,
        }
    } else if key == "enhance_circuitries"@ {
        match v {
            ConfigValue::Flag { on } => Some(RenderOptionsV { enhance_circuitries: on, ..o }),
            _ => None,
        }
    } else if key == "include_backdrop"@ {
        match v {
            ConfigValue::Flag { on } => Some(RenderOptionsV { include_backdrop: on, ..o }),
            _ => None,
        }
    } else if key == "include_styles"@ {
        match v {
            ConfigValue::Flag { on } => Some(RenderOptionsV { include_styles: on, ..o }),
            _ => None,
        }
    } else if key == "include_defs"@ {
        match v {
            ConfigValue::Flag { on } => Some(RenderOptionsV { include_defs: on, ..o }),
            _ => None,
        }
    } else if key == "merge_line_with_shapes"@ {
        match v {
            ConfigValue::Flag { on } => Some(RenderOptionsV { merge_line_with_shapes: on, ..o }),
            _ => None,
        }
    } else {
        Some(o)
    }
}

/// Folds a whole configuration map over the options, left to right,
/// stopping at the first entry whose value fails to coerce; that entry's
/// key is the error.
pub open spec fn resolve(o: RenderOptionsV, es: Seq<(String, ConfigValue)>) -> Result<
    RenderOptionsV,
    Seq<char>,
>
    decreases es.len(),
{
    if es.len() == 0 {
        Ok(o)
    } else {
        match apply_entry(o, es[0].0@, es[0].1) {
            Some(o2) => resolve(o2, es.drop_first()),
            None => Err(es[0].0@),
        }
    }
}

/// Relies on `svgbob::Settings::default()`: the renderer's library defaults
/// are font size 14, font family "Iosevka Fixed, monospace", fill color
/// "black", background "white", stroke color "black", stroke width 2
/// and scale 8, and the flags below, of which only
/// `merge_line_with_shapes` is off.  The two numbers render as "2" and "8".
#[verifier::external_body]
fn renderer_default_options() -> (r: RenderOptions)
    ensures
        r.font_size == 14,
        r.font_family@ == "Iosevka Fixed, monospace"@,
        r.fill_color@ == "black"@,
        r.background@ == "white"@,
        r.stroke_color@ == "black"@,
        r.stroke_width@ == "2"@,
        r.scale@ == "8"@,
        r.enhance_circuitries == true,
        r.include_backdrop == true,
        r.include_styles == true,
        r.include_defs == true,
        r.merge_line_with_shapes == false,
{
    let s = svgbob::Settings::default();
    RenderOptions {
        font_size: s.font_size as u64, font_family: s.font_family,
        fill_color: s.fill_color, background: s.background,
        stroke_color: s.stroke_color, stroke_width: format!("{}", s.stroke_width),
        scale: format!("{}", s.scale), enhance_circuitries: s.enhance_circuitries,
        include_backdrop: s.include_backdrop, include_styles: s.include_styles,
        include_defs: s.include_defs, merge_line_with_shapes: s.merge_line_with_shapes,
    }
}

impl RenderOptions {
    /// The defaults a book pass starts from: the renderer's own defaults
    /// with two overridden, a transparent background and a theme-aware
    /// stroke color.
    pub fn for_book() -> (r: RenderOptions)
        ensures
            r@ == (RenderOptionsV {
                font_size: 14,
                font_family: "Iosevka Fixed, monospace"@,
                fill_color: "black"@,
                background: "transparent"@,
                stroke_color: "var(--fg)"@,
                stroke_width: "2"@,
                scale: "8"@,
                enhance_circuitries: true,
                include_backdrop: true,
                include_styles: true,
                include_defs: true,
                merge_line_with_shapes: false,
            }),
    {
        let mut r = renderer_default_options();
        r.background = String::from_str("transparent");
        r.stroke_color = String::from_str("var(--fg)");
        assert(r@ =~= (RenderOptionsV {
            font_size: 14,
            font_family: "Iosevka Fixed, monospace"@,
            fill_color: "black"@,
            background: "transparent"@,
            stroke_color: "var(--fg)"@,
            stroke_width: "2"@,
            scale: "8"@,
            enhance_circuitries: true,
            include_backdrop: true,
            include_styles: true,
            include_defs: true,
            merge_line_with_shapes: false,
        }));
        r
    }
}

/// Applies a configuration map to the options, entry by entry in the given
/// order.  On success the options are exactly `resolve`'s result; the first
/// value that fails to coerce to its key's expected type aborts with that
/// key as the error, per the fail-fast configuration policy.
#[verifier::rlimit(100)]
pub fn apply_config(opts: &mut RenderOptions, entries: &Vec<(String, ConfigValue)>) -> (r: Result<
    (),
    ConfigError,
>)
    ensures
        match r {
            Ok(_) => resolve(old(opts)@, entries@) == Ok::<RenderOptionsV, Seq<char>>(
                final(opts)@,
            ),
            Err(e) => resolve(old(opts)@, entries@) == Err::<RenderOptionsV, Seq<char>>(e.key@),
        },
{
    let ghost orig: RenderOptionsV = opts@;
    let ghost es: Seq<(String, ConfigValue)> = entries@;
    proof {
        assert(es.skip(0) =~= es);
    }
    let mut i: usize = 0;
    while i < entries.len()
        invariant
            0 <= i <= es.len(),
            entries@ == es,
            orig == old(opts)@,
            resolve(orig, es) == resolve(opts@, es.skip(i as int)),
        decreases es.len() - i,
    {
        let k = &entries[i].0;
        let v = &entries[i].1;
        let ghost before: RenderOptionsV = opts@;
        proof {
            assert(es.skip(i as int)[0] == es[i as int]);
            assert(es.skip(i as int).drop_first() =~= es.skip(i as int + 1));
        }
        let applied: bool = if str_eq(k.as_str(), "font_size") {
            match v {
                ConfigValue::Int { val, repr } => {
                    if *val >= 0 {
                        opts.font_size = *val as u64;
                        true
                    } else {
                        false
                    }
                },
                _ => false,
            }
        } else if str_eq(k.as_str(), "font_family") {
            match v {
                ConfigValue::Str { text } => {
                    opts.font_family = text.clone();
                    true
                },
                _ => false,
            }
        } else if str_eq(k.as_str(), "fill_color") {
            match v {
                ConfigValue::Str { text } => {
                    opts.fill_color = text.clone();
                    true
                },
                _ => false,
            }
        } else if str_eq(k.as_str(), "background") {
            match v {
                ConfigValue::Str { text } => {
                    opts.background = text.clone();
                    true
                },
                _ => false,
            }
        } else if str_eq(k.as_str(), "stroke_color") {
            match v {
                ConfigValue::Str { text } => {
                    opts.stroke_color = text.clone();
                    true
                },
                _ => false,
            }
        } else if str_eq(k.as_str(), "stroke_width") {
            match v {
                ConfigValue::Int { val, repr } => {
                    opts.stroke_width = repr.clone();
                    true
                },
                ConfigValue::Real { repr } => {
                    opts.stroke_width = repr.clone();
                    true
                },
                _ => false,
            }
        } else if str_eq(k.as_str(), "scale") {
            match v {
                ConfigValue::Int { val, repr } => {
                    opts.scale = repr.clone();
                    true
                },
                ConfigValue::Real { repr } => {
                    opts.scale = repr.clone();
                    true
                },
                _ => false,
            }
        } else if str_eq(k.as_str(), "enhance_circuitries") {
            match v {
                ConfigValue::Flag { on } => {
                    opts.enhance_circuitries = *on;
                    true
                },
                _ => false,
            }
        } else if str_eq(k.as_str(), "include_backdrop") {
            match v {
                ConfigValue::Flag { on } => {
                    opts.include_backdrop = *on;
                    true
                },
                _ => false,
            }
        } else if str_eq(k.as_str(), "include_styles") {
            match v {
                ConfigValue::Flag { on } => {
                    opts.include_styles = *on;
                    true
                },
                _ => false,
            }
        } else if str_eq(k.as_str(), "include_defs") {
            match v {
                ConfigValue::Flag { on } => {
                    opts.include_defs = *on;
                    true
                },
                _ => false,
            }
        } else if str_eq(k.as_str(), "merge_line_with_shapes") {
            match v {
                ConfigValue::Flag { on } => {
                    opts.merge_line_with_shapes = *on;
                    true
                },
                _ => false,
            }
        } else {
            true
        };
        if !applied {
            proof {
                assert(apply_entry(before, es[i as int].0@, es[i as int].1) is None);
                assert(resolve(opts@, es.skip(i as int)) == Err::<RenderOptionsV, Seq<char>>(
                    es[i as int].0@,
                ));
            }
            return Err(ConfigError { key: k.clone() });
        }
        proof {
            let stepped = apply_entry(before, es[i as int].0@, es[i as int].1);
            assert(stepped matches Some(o2) && o2 =~= opts@);
            assert(resolve(before, es.skip(i as int)) == resolve(opts@, es.skip(i as int + 1)));
        }
        i = i + 1;
    }
    proof {
        assert(es.skip(es.len() as int) =~= Seq::<(String, ConfigValue)>::empty());
    }
    Ok(())
}

} // verus!
