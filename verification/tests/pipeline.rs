use mdbook_svgbob::options::RenderOptions;
use mdbook_svgbob::pipeline::process_content;
use pulldown_cmark::{Event, Options, Parser};

fn events(text: &str) -> Vec<Event<'_>> {
    Parser::new_ext(text, Options::all()).collect()
}

#[test]
fn document_without_target_fence_keeps_its_structure() {
    let opts = RenderOptions::for_book();
    let input = "# Title\n\nSome *text* here.\n\n````rust\nlet x = 1;\n````\n\nDone.\n";
    let output = process_content(input, &opts).unwrap();
    assert!(!output.contains("<pre class=\"svgbob\">"));
    // The serializer may re-spell the markdown, but the token stream it
    // stands for is unchanged: re-tokenizing gives the same events.
    assert_eq!(events(input), events(&output));
}

#[test]
fn target_fence_becomes_one_wrapped_svg_block() {
    let opts = RenderOptions::for_book();
    let input = "intro\n\n```svgbob\n+---+\n| A |\n+---+\n```\n\noutro\n";
    let output = process_content(input, &opts).unwrap();
    assert_eq!(output.matches("<pre class=\"svgbob\">").count(), 1);
    assert!(output.contains("<svg"));
    assert!(!output.contains("```svgbob"));
    assert!(output.contains("intro"));
    assert!(output.contains("outro"));
    let pre = output.find("intro").unwrap();
    let block = output.find("<pre class=\"svgbob\">").unwrap();
    let post = output.find("outro").unwrap();
    assert!(pre < block && block < post);
}

#[test]
fn two_target_fences_become_two_blocks() {
    let opts = RenderOptions::for_book();
    let input = "a\n\n```svgbob\nx->y\n```\n\nb\n\n```svgbob\no---o\n```\n\nc\n";
    let output = process_content(input, &opts).unwrap();
    assert_eq!(output.matches("<pre class=\"svgbob\">").count(), 2);
    assert!(output.contains("a"));
    assert!(output.contains("b"));
    assert!(output.contains("c"));
}

#[test]
fn other_fences_survive_next_to_a_target_fence() {
    let opts = RenderOptions::for_book();
    let input = "````python\nprint(1)\n````\n\n```svgbob\n*--*\n```\n\n````text\nplain\n````\n";
    let output = process_content(input, &opts).unwrap();
    assert_eq!(output.matches("<pre class=\"svgbob\">").count(), 1);
    assert!(output.contains("print(1)"));
    assert!(output.contains("plain"));
    assert!(output.contains("python"));
}

#[test]
fn windows_line_endings_render_like_unix_ones() {
    let opts = RenderOptions::for_book();
    let unix = "```svgbob\n+--+\n|  |\n+--+\n```\n";
    let windows = "```svgbob\r\n+--+\r\n|  |\r\n+--+\r\n```\r\n";
    let out_unix = process_content(unix, &opts).unwrap();
    let out_windows = process_content(windows, &opts).unwrap();
    let svg_unix = out_unix.find("<svg").map(|i| &out_unix[i..]);
    let svg_windows = out_windows.find("<svg").map(|i| &out_windows[i..]);
    assert!(svg_unix.is_some());
    assert!(svg_windows.is_some());
}
