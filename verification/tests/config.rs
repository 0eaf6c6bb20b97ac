use mdbook_svgbob::options::{apply_config, ConfigValue, RenderOptions};
use mdbook_svgbob::render::create_svg_html;

fn entry(key: &str, v: ConfigValue) -> (String, ConfigValue) {
    (key.to_string(), v)
}

fn real_value(repr: &str) -> ConfigValue {
    ConfigValue::Real {
        repr: repr.to_string(),
    }
}

fn int_value(val: i64) -> ConfigValue {
    ConfigValue::Int {
        val,
        repr: val.to_string(),
    }
}

fn string(s: &str) -> ConfigValue {
    ConfigValue::Str {
        text: s.to_string(),
    }
}

fn flag(b: bool) -> ConfigValue {
    ConfigValue::Flag { on: b }
}

#[test]
fn book_defaults_override_background_and_stroke() {
    let o = RenderOptions::for_book();
    assert_eq!(o.font_size, 14);
    assert_eq!(o.font_family, "Iosevka Fixed, monospace");
    assert_eq!(o.fill_color, "black");
    assert_eq!(o.background, "transparent");
    assert_eq!(o.stroke_color, "var(--fg)");
    assert_eq!(o.stroke_width, "2");
    assert_eq!(o.scale, "8");
    assert!(o.enhance_circuitries);
    assert!(o.include_backdrop);
    assert!(o.include_styles);
    assert!(o.include_defs);
    assert!(!o.merge_line_with_shapes);
}

#[test]
fn scale_override_keeps_other_defaults() {
    let mut o = RenderOptions::for_book();
    let entries = vec![entry("scale", real_value("4.5"))];
    assert!(apply_config(&mut o, &entries).is_ok());
    assert_eq!(o.scale, "4.5");
    assert_eq!(o.background, "transparent");
    assert_eq!(o.stroke_color, "var(--fg)");
    assert_eq!(o.font_size, 14);
    assert_eq!(o.stroke_width, "2");
}

#[test]
fn every_recognized_key_is_applied() {
    let mut o = RenderOptions::for_book();
    let entries = vec![
        entry("font_size", int_value(20)),
        entry("font_family", string("monospace")),
        entry("fill_color", string("red")),
        entry("background", string("white")),
        entry("stroke_color", string("blue")),
        entry("stroke_width", int_value(3)),
        entry("scale", int_value(2)),
        entry("enhance_circuitries", flag(false)),
        entry("include_backdrop", flag(false)),
        entry("include_styles", flag(false)),
        entry("include_defs", flag(false)),
        entry("merge_line_with_shapes", flag(true)),
    ];
    assert!(apply_config(&mut o, &entries).is_ok());
    assert_eq!(o.font_size, 20);
    assert_eq!(o.font_family, "monospace");
    assert_eq!(o.fill_color, "red");
    assert_eq!(o.background, "white");
    assert_eq!(o.stroke_color, "blue");
    assert_eq!(o.stroke_width, "3");
    assert_eq!(o.scale, "2");
    assert!(!o.enhance_circuitries);
    assert!(!o.include_backdrop);
    assert!(!o.include_styles);
    assert!(!o.include_defs);
    assert!(o.merge_line_with_shapes);
}

#[test]
fn unrecognized_keys_are_ignored() {
    let mut o = RenderOptions::for_book();
    let before = o.clone();
    let entries = vec![
        entry("no_such_key", string("x")),
        entry("another", flag(true)),
    ];
    assert!(apply_config(&mut o, &entries).is_ok());
    assert_eq!(o.scale, before.scale);
    assert_eq!(o.background, before.background);
    assert_eq!(o.font_size, before.font_size);
}

#[test]
fn mistyped_value_fails_with_its_key() {
    let mut o = RenderOptions::for_book();
    let entries = vec![entry("scale", string("big"))];
    let err = apply_config(&mut o, &entries).unwrap_err();
    assert_eq!(err.key, "scale");

    let mut o = RenderOptions::for_book();
    let entries = vec![entry("font_family", flag(true))];
    let err = apply_config(&mut o, &entries).unwrap_err();
    assert_eq!(err.key, "font_family");

    let mut o = RenderOptions::for_book();
    let entries = vec![entry("include_defs", int_value(1))];
    let err = apply_config(&mut o, &entries).unwrap_err();
    assert_eq!(err.key, "include_defs");
}

#[test]
fn negative_font_size_is_a_config_error() {
    let mut o = RenderOptions::for_book();
    let entries = vec![entry("font_size", int_value(-3))];
    let err = apply_config(&mut o, &entries).unwrap_err();
    assert_eq!(err.key, "font_size");
}

#[test]
fn first_failing_entry_wins() {
    let mut o = RenderOptions::for_book();
    let entries = vec![
        entry("scale", int_value(3)),
        entry("background", flag(false)),
        entry("font_size", string("ten")),
    ];
    let err = apply_config(&mut o, &entries).unwrap_err();
    assert_eq!(err.key, "background");
    assert_eq!(o.scale, "3");
}

#[test]
fn scale_changes_what_the_renderer_sees() {
    let small = RenderOptions::for_book();
    let mut large = RenderOptions::for_book();
    let entries = vec![entry("scale", int_value(16))];
    assert!(apply_config(&mut large, &entries).is_ok());
    let a = create_svg_html("+--+\n|  |\n+--+", &small);
    let b = create_svg_html("+--+\n|  |\n+--+", &large);
    assert_ne!(a, b);
}
