use mdfmt::ast::{block_quote, heading, paragraph, root, text, yaml, MdNode};
use mdfmt::error::NoteError;
use mdfmt::metadata::{Meta, Metadata};
use mdfmt::model::{Block, Note, NoteKind};
use mdfmt::parser::NoteParser;
use mdfmt::toc::FlattenNode;

#[test]
fn parser_text_to_invalid() {
    let err = NoteParser::parse(&text("foo"), None).unwrap_err();
    assert_eq!(err, NoteError::InvalidDocument);
}

#[test]
fn parser_text_to_note() {
    assert_eq!(
        NoteParser::parse(&root(vec![text("foo")]), None).unwrap(),
        Note::new(
            None,
            vec![Block::anonymous_section(vec![Block::text("foo")])]
        ),
    );
}

#[test]
fn parser_heading_2_to_note() {
    assert_eq!(
        NoteParser::parse(&root(vec![heading(2, vec![text("foo")])]), None).unwrap(),
        Note::new(
            None,
            vec![Block::anonymous_section(vec![Block::section("foo", vec![])])]
        ),
    );
}

#[test]
fn parser_heading_1_to_note() {
    assert_eq!(
        NoteParser::parse(&root(vec![heading(1, vec![text("foo")])]), None).unwrap(),
        Note::new(None, vec![Block::section("foo", vec![])]),
    );
}

#[test]
fn parser_heading_1_2_to_note() {
    assert_eq!(
        NoteParser::parse(
            &root(vec![
                heading(1, vec![text("foo")]),
                heading(2, vec![text("bar")])
            ]),
            None
        )
        .unwrap(),
        Note::new(
            None,
            vec![Block::section("foo", vec![Block::section("bar", vec![])])]
        ),
    );
}

#[test]
fn parser_heading_1_2_1_2_to_note() {
    assert_eq!(
        NoteParser::parse(
            &root(vec![
                heading(1, vec![text("aaa")]),
                heading(2, vec![text("bbb")]),
                heading(1, vec![text("ccc")]),
                heading(2, vec![text("ddd")])
            ]),
            None
        )
        .unwrap(),
        Note::new(
            None,
            vec![
                Block::section("aaa", vec![Block::section("bbb", vec![])]),
                Block::section("ccc", vec![Block::section("ddd", vec![])])
            ]
        ),
    );
}

#[test]
fn parser_heading_2_1_to_note() {
    assert_eq!(
        NoteParser::parse(
            &root(vec![
                heading(2, vec![text("foo")]),
                heading(1, vec![text("bar")]),
            ]),
            None
        )
        .unwrap(),
        Note::new(
            None,
            vec![
                Block::anonymous_section(vec![Block::section("foo", vec![])]),
                Block::section("bar", vec![])
            ],
        ),
    );
}

#[test]
fn parser_block_quote_paragraph_to_note() {
    assert_eq!(
        NoteParser::parse(
            &root(vec![
                block_quote(vec![paragraph(vec![text("foo")])]),
                block_quote(vec![paragraph(vec![text("[!note] title\nfoo")])]),
                block_quote(vec![paragraph(vec![text("[!note]\nfoo")])]),
                block_quote(vec![paragraph(vec![text("[!summary]\nfoo")])]),
                block_quote(vec![paragraph(vec![text("[!quote]\nfoo")])]),
                block_quote(vec![paragraph(vec![text("[!question]\nfoo")])]),
                block_quote(vec![paragraph(vec![text("[!toc]\n- foo")])]),
                block_quote(vec![paragraph(vec![text("[!todo]\nfoo")])]),
            ]),
            None
        )
        .unwrap(),
        Note::new(
            None,
            vec![Block::anonymous_section(vec![
                Block::card(NoteKind::Note, None, vec![Block::text("foo")]),
                Block::card(
                    NoteKind::Note,
                    Some("title".into()),
                    vec![Block::text("foo")]
                ),
                Block::card(NoteKind::Note, None, vec![Block::text("foo")]),
                Block::card(NoteKind::Summary, None, vec![Block::text("foo")]),
                Block::card(NoteKind::Quote, None, vec![Block::text("foo")]),
                Block::card(NoteKind::Question, None, vec![Block::text("foo")]),
                Block::toc(vec![FlattenNode(1, String::from("foo"))]),
                Block::card(NoteKind::Todo, None, vec![Block::text("foo")]),
            ])],
        )
    );
}

#[test]
fn parser_yaml_to_note() {
    let decoded = Meta {
        title: Some("foo".into()),
        ..Default::default()
    };
    assert_eq!(
        NoteParser::parse(&root(vec![yaml("title: foo")]), Some(decoded)).unwrap(),
        Note::new(
            Some(Metadata::Meta(Meta {
                title: Some("foo".into()),
                ..Default::default()
            })),
            vec![]
        )
    );
}

#[test]
fn parser_yaml_undecoded_kept_raw() {
    assert_eq!(
        NoteParser::parse(&root(vec![yaml("title: [foo"), text("bar")]), None).unwrap(),
        Note::new(
            Some(Metadata::Raw("title: [foo".into())),
            vec![Block::anonymous_section(vec![Block::text("bar")])]
        )
    );
}

#[test]
fn parser_root_to_note() {
    assert_eq!(
        NoteParser::parse(&root(vec![text("foo")]), None).unwrap(),
        Note::new(
            None,
            vec![Block::anonymous_section(vec![Block::text("foo")])]
        )
    );
}

#[test]
fn parser_unsupported_syntax_aborts() {
    let err = NoteParser::parse(
        &root(vec![text("foo"), MdNode::Other("definition".into())]),
        None,
    )
    .unwrap_err();
    assert_eq!(err, NoteError::UnsupportedSyntax("definition".into()));
}

#[test]
fn parser_footnote_definition_is_single() {
    let def = MdNode::FootnoteDefinition {
        identifier: "1".into(),
        children: vec![paragraph(vec![text("note")])],
    };
    assert_eq!(
        NoteParser::parse(&root(vec![heading(1, vec![text("a")]), def]), None).unwrap(),
        Note::new(
            None,
            vec![Block::section("a", vec![Block::single("[^1]: note")])]
        )
    );
}

#[test]
fn parser_heading_title_joins_children() {
    let h = heading(
        1,
        vec![text("a"), MdNode::Emphasis(vec![text("b")])],
    );
    assert_eq!(
        NoteParser::parse(&root(vec![h]), None).unwrap(),
        Note::new(None, vec![Block::section("a *b*", vec![])])
    );
}

#[test]
fn parser_empty_block_quote() {
    assert_eq!(
        NoteParser::parse(&root(vec![block_quote(vec![])]), None).unwrap(),
        Note::new(None, vec![Block::anonymous_section(vec![Block::Empty])])
    );
}

#[test]
fn parser_card_with_several_children() {
    assert_eq!(
        NoteParser::parse(
            &root(vec![block_quote(vec![
                paragraph(vec![text("[!question] Why?")]),
                paragraph(vec![text("one")]),
                paragraph(vec![text("two")]),
            ])]),
            None
        )
        .unwrap(),
        Note::new(
            None,
            vec![Block::anonymous_section(vec![Block::card(
                NoteKind::Question,
                Some("Why?".into()),
                vec![Block::text("one\n\ntwo")]
            )])]
        )
    );
}

#[test]
fn parser_depth_zero_heading_drops_nothing() {
    let note = NoteParser::parse(
        &root(vec![heading(0, vec![text("z")]), text("after")]),
        None,
    )
    .unwrap();
    assert_eq!(
        note,
        Note::new(None, vec![Block::section("z", vec![Block::text("after")])])
    );
}
