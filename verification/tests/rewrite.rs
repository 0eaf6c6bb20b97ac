use mdbook_svgbob::options::RenderOptions;
use mdbook_svgbob::render::create_svg_html;
use mdbook_svgbob::rewrite::rewrite_tokens;
use mdbook_svgbob::token::Token;
use mdbook_svgbob::Bob;
use pulldown_cmark::{CodeBlockKind, CowStr, Event, Tag};

fn fence_start(tag: &str) -> Token<'static> {
    Token::FenceStart {
        tag: tag.to_string(),
        event: Event::Start(Tag::CodeBlock(CodeBlockKind::Fenced(CowStr::from(
            tag.to_string(),
        )))),
    }
}

fn fence_end(tag: &str) -> Token<'static> {
    Token::FenceEnd {
        tag: tag.to_string(),
        event: Event::End(Tag::CodeBlock(CodeBlockKind::Fenced(CowStr::from(
            tag.to_string(),
        )))),
    }
}

fn text(s: &str) -> Token<'static> {
    Token::Text {
        content: s.to_string(),
        event: Event::Text(CowStr::from(s.to_string())),
    }
}

fn text_content(t: &Token<'_>) -> String {
    match t {
        Token::Text { content, .. } => content.clone(),
        _ => panic!("expected a text token"),
    }
}

fn html_content(t: &Token<'_>) -> String {
    match t {
        Token::Html { content } => content.clone(),
        _ => panic!("expected a raw-markup token"),
    }
}

#[test]
fn pass_through_without_target_fence() {
    let opts = RenderOptions::for_book();
    let toks = vec![
        text("hello"),
        fence_start("rust"),
        text("let x = 1;"),
        fence_end("rust"),
        text("bye"),
    ];
    let out = rewrite_tokens(toks, &opts);
    assert_eq!(out.len(), 5);
    assert_eq!(text_content(&out[0]), "hello");
    assert!(matches!(&out[1], Token::FenceStart { tag, .. } if tag == "rust"));
    assert_eq!(text_content(&out[2]), "let x = 1;");
    assert!(matches!(&out[3], Token::FenceEnd { tag, .. } if tag == "rust"));
    assert_eq!(text_content(&out[4]), "bye");
}

#[test]
fn single_block_is_substituted_in_place() {
    let opts = RenderOptions::for_book();
    let toks = vec![
        text("before"),
        fence_start("svgbob"),
        text("+---+\n| A |\n+---+\n"),
        fence_end("svgbob"),
        text("after"),
    ];
    let out = rewrite_tokens(toks, &opts);
    assert_eq!(out.len(), 3);
    assert_eq!(text_content(&out[0]), "before");
    let html = html_content(&out[1]);
    assert_eq!(html, create_svg_html("+---+\n| A |\n+---+\n", &opts));
    assert!(html.starts_with("<pre class=\"svgbob\">"));
    assert!(html.ends_with("</pre>"));
    assert!(html.contains("<svg"));
    assert_eq!(text_content(&out[2]), "after");
}

#[test]
fn fragmented_interior_renders_like_one_fragment() {
    let opts = RenderOptions::for_book();
    let diagram = "o---o\n|   |\no---o\n";
    let fragmented = vec![
        fence_start("svgbob"),
        text("o---o\n"),
        text("|   |\n"),
        text("o---o\n"),
        fence_end("svgbob"),
    ];
    let whole = vec![fence_start("svgbob"), text(diagram), fence_end("svgbob")];
    let out_frag = rewrite_tokens(fragmented, &opts);
    let out_whole = rewrite_tokens(whole, &opts);
    assert_eq!(out_frag.len(), 1);
    assert_eq!(out_whole.len(), 1);
    assert_eq!(html_content(&out_frag[0]), html_content(&out_whole[0]));
}

#[test]
fn non_matching_tags_are_not_buffered() {
    let opts = RenderOptions::for_book();
    for tag in ["", "svg", "svgbobx", "Svgbob", "bob"] {
        let toks = vec![fence_start(tag), text("+--+"), fence_end(tag)];
        let out = rewrite_tokens(toks, &opts);
        assert_eq!(out.len(), 3, "tag {:?} must be forwarded", tag);
        assert!(matches!(&out[0], Token::FenceStart { tag: t, .. } if t == tag));
        assert_eq!(text_content(&out[1]), "+--+");
        assert!(matches!(&out[2], Token::FenceEnd { tag: t, .. } if t == tag));
    }
}

#[test]
fn multiple_blocks_render_independently() {
    let opts = RenderOptions::for_book();
    let toks = vec![
        text("a"),
        fence_start("svgbob"),
        text("x->y"),
        fence_end("svgbob"),
        text("b"),
        fence_start("svgbob"),
        text("o---o"),
        fence_end("svgbob"),
        text("c"),
    ];
    let out = rewrite_tokens(toks, &opts);
    assert_eq!(out.len(), 5);
    assert_eq!(text_content(&out[0]), "a");
    assert_eq!(html_content(&out[1]), create_svg_html("x->y", &opts));
    assert_eq!(text_content(&out[2]), "b");
    assert_eq!(html_content(&out[3]), create_svg_html("o---o", &opts));
    assert_eq!(text_content(&out[4]), "c");
    assert_ne!(html_content(&out[1]), html_content(&out[3]));
}

#[test]
fn stray_tokens_inside_a_block_are_interior_content() {
    let opts = RenderOptions::for_book();
    let toks = vec![
        fence_start("svgbob"),
        text("a"),
        fence_start("rust"),
        text("b"),
        fence_end("rust"),
        text("c"),
        fence_end("svgbob"),
    ];
    let out = rewrite_tokens(toks, &opts);
    assert_eq!(out.len(), 1);
    assert_eq!(html_content(&out[0]), create_svg_html("abc", &opts));
}

#[test]
fn unterminated_block_vanishes() {
    let opts = RenderOptions::for_book();
    let toks = vec![
        text("before"),
        fence_start("svgbob"),
        text("+--+"),
        text("|  |"),
    ];
    let out = rewrite_tokens(toks, &opts);
    assert_eq!(out.len(), 1);
    assert_eq!(text_content(&out[0]), "before");
}

#[test]
fn rendering_is_not_an_echo_of_the_diagram() {
    let opts = RenderOptions::for_book();
    let html = create_svg_html("+--->", &opts);
    assert_ne!(html, "+--->");
    assert_ne!(html, "<pre class=\"svgbob\">+---></pre>");
    assert!(html.contains("<svg"));
}

#[test]
fn preprocessor_identity_and_capability() {
    let bob = Bob::new();
    assert_eq!(bob.name(), "svgbob2");
    assert!(bob.supports_renderer("html"));
    assert!(!bob.supports_renderer("markdown"));
    assert!(!bob.supports_renderer("htm"));
    let other = Bob::default();
    assert_eq!(other.name(), "svgbob2");
}
