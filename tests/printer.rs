use mdfmt::metadata::{Bookmark, Meta, Metadata};
use mdfmt::model::{Block, Note, NoteKind};
use mdfmt::printer::{block_quote, heading, BlockPrinterOptions};
use mdfmt::toc::FlattenNode;

fn metadata_note() -> Note {
    Note::new(
        Some(Metadata::Meta(Meta {
            title: Some("foo".into()),
            ..Default::default()
        })),
        vec![],
    )
}

fn toc_note() -> Note {
    Note::new(
        Some(Metadata::Meta(Meta {
            bookmark: Some(Bookmark::toc("# aaa\n## bbb\n")),
            ..Default::default()
        })),
        vec![],
    )
    .normalize()
}

fn cards(with_todo: bool) -> Note {
    let mut body = vec![
        Block::card(NoteKind::default(), None, vec![]),
        Block::card(NoteKind::Note, Some("title".into()), vec![]),
        Block::card(NoteKind::Note, None, vec![]),
        Block::card(NoteKind::Summary, None, vec![]),
        Block::card(NoteKind::Quote, None, vec![]),
        Block::card(NoteKind::Question, None, vec![]),
    ];
    if with_todo {
        body.push(Block::card(NoteKind::Todo, None, vec![]));
    }
    Note::new(None, body)
}

#[test]
fn printer_convert_metadata() {
    assert_eq!(metadata_note().print("title: foo\n"), "---\ntitle: foo\n---\n");
}

#[test]
fn note_data_convert_metadata() {
    assert_eq!(metadata_note().print("title: foo\n"), "---\ntitle: foo\n---\n");
}

#[test]
fn printer_convert_toc() {
    assert_eq!(toc_note().print(""), "> [!toc]\n> - aaa\n>     - bbb\n");
}

#[test]
fn note_data_convert_toc() {
    assert_eq!(toc_note().print(""), "> [!toc]\n> - aaa\n>     - bbb\n");
}

#[test]
fn printer_convert_head_text() {
    assert_eq!(Note::new(None, vec![Block::text("foo")]).print(""), "foo\n");
}

#[test]
fn note_data_convert_head_text() {
    assert_eq!(Note::new(None, vec![Block::text("foo")]).print(""), "foo\n");
}

#[test]
fn printer_convert_head_heading() {
    let note = Note::new(
        None,
        vec![Block::anonymous_section(vec![Block::section(
            "heading",
            vec![Block::text("foo")],
        )])],
    );
    assert_eq!(note.print(""), "## heading\nfoo\n");
}

#[test]
fn note_data_convert_head_heading() {
    let note = Note::new(
        None,
        vec![Block::anonymous_section(vec![Block::section(
            "heading",
            vec![Block::text("foo")],
        )])],
    );
    assert_eq!(note.print(""), "## heading\nfoo\n");
}

#[test]
fn printer_convert_body_heading() {
    let note = Note::new(None, vec![Block::section("heading", vec![Block::text("foo")])]);
    assert_eq!(note.print(""), "# heading\nfoo\n");
}

#[test]
fn note_data_convert_body_heading() {
    let note = Note::new(None, vec![Block::section("heading", vec![Block::text("foo")])]);
    assert_eq!(note.print(""), "# heading\nfoo\n");
}

#[test]
fn printer_convert_body_text() {
    assert_eq!(Note::new(None, vec![Block::section("foo", vec![])]).print(""), "# foo\n");
}

#[test]
fn note_data_convert_body_text() {
    assert_eq!(Note::new(None, vec![Block::section("foo", vec![])]).print(""), "# foo\n");
}

#[test]
fn printer_convert_card() {
    assert_eq!(
        cards(true).print(""),
        "> [!note]\n\n> [!note] title\n\n> [!note]\n\n> [!summary]\n\n> [!quote]\n\n> [!question]\n\n> [!todo]\n"
    );
}

#[test]
fn note_data_convert_card() {
    assert_eq!(
        cards(false).print(""),
        "> [!note]\n\n> [!note] title\n\n> [!note]\n\n> [!summary]\n\n> [!quote]\n\n> [!question]\n"
    );
}

#[test]
fn card_without_title_prints_marker() {
    let note = Note::new(None, vec![Block::card(NoteKind::Note, None, vec![])]);
    assert_eq!(note.print(""), "> [!note]\n");
}

#[test]
fn card_with_title_prints_marker_and_title() {
    let note = Note::new(
        None,
        vec![Block::card(NoteKind::Note, Some("title".into()), vec![])],
    );
    assert_eq!(note.print(""), "> [!note] title\n");
}

#[test]
fn card_body_is_quoted() {
    let note = Note::new(
        None,
        vec![Block::card(
            NoteKind::Summary,
            None,
            vec![Block::text("one\n\ntwo")],
        )],
    );
    assert_eq!(note.print(""), "> [!summary]\n> one\n>\n> two\n");
}

#[test]
fn raw_metadata_printed_as_is() {
    let note = Note::new(Some(Metadata::Raw("a: [b".into())), vec![Block::text("x")]);
    assert_eq!(note.print("ignored"), "---\na: [b\n---\nx\n");
}

#[test]
fn single_blocks_are_tight() {
    let note = Note::new(
        None,
        vec![
            Block::text("para"),
            Block::single("[^1]: a"),
            Block::single("[^2]: b"),
        ],
    );
    assert_eq!(note.print(""), "para\n\n[^1]: a\n[^2]: b\n");
}

#[test]
fn empty_note_prints_one_line_break() {
    assert_eq!(Note::new(None, vec![Block::Empty]).print(""), "\n");
}

#[test]
fn toc_block_prints_entries() {
    let note = Note::new(
        None,
        vec![Block::toc(vec![
            FlattenNode(1, "a".into()),
            FlattenNode(3, "b".into()),
        ])],
    );
    assert_eq!(note.print(""), "> [!toc]\n> - a\n>         - b\n");
}

#[test]
fn block_print_at_depth() {
    let b = Block::section("t", vec![Block::section("u", vec![])]);
    assert_eq!(b.print(BlockPrinterOptions { depth: 2 }), "## t\n### u");
}

#[test]
fn heading_and_block_quote_helpers() {
    assert_eq!(heading(3, "x"), "### x");
    assert_eq!(block_quote("a\n\nb\n"), "> a\n>\n> b\n");
    assert_eq!(block_quote(""), "\n");
}

#[test]
fn debug_view_of_blocks() {
    let b = Block::section("t", vec![Block::text("x"), Block::single("y")]);
    assert_eq!(b.debug_print(0), "[Section] t\n  [Text] x\n\n  [Single] y\n\n");
    let toc = Block::toc(vec![FlattenNode(1, "a".into())]);
    assert_eq!(toc.debug_print(1), "1[toc]\n    a");
    let card = Block::card(NoteKind::Quote, None, vec![]);
    assert_eq!(card.debug_print(0), "[card] quote\n\n");
}
