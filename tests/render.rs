use mdfmt::ast::{block_quote, heading, paragraph, text, AlignKind, MdNode};
use mdfmt::error::NoteError;
use mdfmt::escape::escape;
use mdfmt::render::AstPrinter;

fn render(n: &MdNode) -> String {
    AstPrinter::print(n).unwrap()
}

#[test]
fn paragraph_attaches_trailing_separator() {
    assert_eq!(render(&paragraph(vec![text("foo"), text(".")])), "foo.");
}

#[test]
fn paragraph_spaces_fragments() {
    let p = paragraph(vec![
        text("foo"),
        MdNode::Strong(vec![text("bar")]),
        text(", baz"),
        MdNode::InlineCode("x".into()),
    ]);
    assert_eq!(render(&p), "foo **bar**, baz `x`");
}

#[test]
fn paragraph_no_space_after_break() {
    let p = paragraph(vec![text("a"), MdNode::Break, text("b")]);
    assert_eq!(render(&p), "a\nb");
}

#[test]
fn inline_constructs() {
    assert_eq!(render(&MdNode::Emphasis(vec![text("a")])), "*a*");
    assert_eq!(render(&MdNode::Delete(vec![text("a")])), "~~a~~");
    assert_eq!(render(&MdNode::InlineMath("x^2".into())), "$x^2$");
    assert_eq!(render(&MdNode::Math("x".into())), "$$\nx\n$$");
    assert_eq!(render(&MdNode::FootnoteReference("1".into())), "[^1]");
    assert_eq!(render(&MdNode::Html("<br>".into())), "<br>");
    assert_eq!(render(&MdNode::ThematicBreak), "---");
    assert_eq!(
        render(&MdNode::Image { alt: "a".into(), url: "u".into() }),
        "![a](u)"
    );
}

#[test]
fn link_collapses_when_text_is_url() {
    let same = MdNode::Link { url: "http://x".into(), children: vec![text("http://x")] };
    let other = MdNode::Link { url: "http://x".into(), children: vec![text("site")] };
    assert_eq!(render(&same), "http://x");
    assert_eq!(render(&other), "[site](http://x)");
}

#[test]
fn code_block_with_lang_and_meta() {
    let c = MdNode::Code {
        lang: Some("rust".into()),
        meta: Some("title".into()),
        value: "fn main() {}".into(),
    };
    assert_eq!(render(&c), "```rust title\nfn main() {}\n```");
    let bare = MdNode::Code { lang: None, meta: None, value: "x".into() };
    assert_eq!(render(&bare), "```\nx\n```");
}

#[test]
fn heading_renders_marks() {
    assert_eq!(render(&heading(3, vec![text("t")])), "### t");
}

#[test]
fn nested_lists() {
    let inner = MdNode::List {
        ordered: true,
        children: vec![
            MdNode::ListItem { checked: None, children: vec![paragraph(vec![text("x")])] },
            MdNode::ListItem { checked: None, children: vec![paragraph(vec![text("y")])] },
        ],
    };
    let outer = MdNode::List {
        ordered: false,
        children: vec![
            MdNode::ListItem {
                checked: None,
                children: vec![paragraph(vec![text("a")]), inner],
            },
            MdNode::ListItem { checked: Some(true), children: vec![paragraph(vec![text("b")])] },
            MdNode::ListItem { checked: Some(false), children: vec![paragraph(vec![text("c")])] },
        ],
    };
    assert_eq!(
        render(&outer),
        "- a\n    1. x\n    2. y\n- [x] b\n- [ ] c"
    );
}

#[test]
fn table_with_alignment_row() {
    let row = |a: &str, b: &str| {
        MdNode::TableRow(vec![
            MdNode::TableCell(vec![text(a)]),
            MdNode::TableCell(vec![text(b)]),
        ])
    };
    let t = MdNode::Table {
        align: vec![AlignKind::Left, AlignKind::Right],
        children: vec![row("h1", "h2"), row("a", "b")],
    };
    assert_eq!(render(&t), "| h1 | h2 |\n| :-- | --: |\n| a | b |");
    let t2 = MdNode::Table {
        align: vec![AlignKind::Center, AlignKind::Unaligned],
        children: vec![row("h1", "h2")],
    };
    assert_eq!(render(&t2), "| h1 | h2 |\n| :-: | --- |");
}

#[test]
fn block_quote_prefixes_lines() {
    let q = block_quote(vec![paragraph(vec![text("a")]), paragraph(vec![text("b")])]);
    assert_eq!(render(&q), "> a\n>\n> b");
}

#[test]
fn footnote_definition_renders() {
    let d = MdNode::FootnoteDefinition {
        identifier: "n".into(),
        children: vec![paragraph(vec![text("body")])],
    };
    assert_eq!(render(&d), "[^n]: body");
}

#[test]
fn unsupported_node_fails() {
    let p = paragraph(vec![text("a"), MdNode::Other("linkReference".into())]);
    assert_eq!(
        AstPrinter::print(&p),
        Err(NoteError::UnsupportedSyntax("linkReference".into()))
    );
}

#[test]
fn escape_wraps_image_in_link() {
    assert_eq!(
        escape("see [![alt](img.png) caption](http://x) here"),
        "see `[![alt](img.png) caption](http://x)` here"
    );
    assert_eq!(escape("plain [link](u)"), "plain [link](u)");
}

#[test]
fn tree_debug_view() {
    let t = mdfmt::ast::root(vec![
        heading(1, vec![text("a")]),
        paragraph(vec![text("b"), MdNode::Break]),
        MdNode::Other("definition".into()),
    ]);
    assert_eq!(
        t.debug_print(),
        "[Root]\n  [Heading]\n    [Text]a\n  [Paragraph]\n    [Text]b\n\n  [definition]"
    );
}

#[test]
fn checkbox_overrides_number() {
    let node = MdNode::List {
        ordered: true,
        children: vec![MdNode::ListItem {
            checked: Some(true),
            children: vec![paragraph(vec![text("x")])],
        }],
    };
    assert_eq!(AstPrinter::print(&node), Ok("- [x] x".to_string()));
}
