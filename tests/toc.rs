use mdfmt::toc::{FlattenNode, Line, Node, Toc};

fn flat(entries: &[(usize, &str)]) -> Vec<FlattenNode> {
    entries
        .iter()
        .map(|(d, l)| FlattenNode(*d, l.to_string()))
        .collect()
}

#[test]
fn sharp_style_heading() {
    let toc = Toc::parse("# aaa\n## bbb\n### ccc\n# ddd\n");
    assert_eq!(
        toc,
        Toc::new(vec![
            Node::new("aaa", vec![Node::new("bbb", vec![Node::new("ccc", vec![])])]),
            Node::new("ddd", vec![])
        ])
    );
}

#[test]
fn bullet_style_heading() {
    let toc = Toc::parse("- aaa\n  - bbb\n    - ccc\n- ddd\n");
    assert_eq!(
        toc,
        Toc::new(vec![
            Node::new("aaa", vec![Node::new("bbb", vec![Node::new("ccc", vec![])])]),
            Node::new("ddd", vec![])
        ])
    );
}

#[test]
fn number_list_style_heading() {
    let toc = Toc::parse("1. aaa\n  2. bbb\n    3. ccc\n1. ddd\n");
    assert_eq!(
        toc,
        Toc::new(vec![
            Node::new("aaa", vec![Node::new("bbb", vec![Node::new("ccc", vec![])])]),
            Node::new("ddd", vec![])
        ])
    );
}

#[test]
fn mixed_list_style_heading() {
    let toc = Toc::parse("# aaa\n## bbb\n- ccc\n  - ddd\n# eee\n");
    assert_eq!(
        toc,
        Toc::new(vec![
            Node::new(
                "aaa",
                vec![Node::new(
                    "bbb",
                    vec![Node::new("ccc", vec![Node::new("ddd", vec![])])]
                )]
            ),
            Node::new("eee", vec![])
        ])
    );
}

#[test]
fn node_flatten() {
    let node = Node::new(
        "aaa",
        vec![
            Node::new("bbb", vec![Node::new("ccc", vec![])]),
            Node::new("ddd", vec![]),
        ],
    );
    assert_eq!(
        node.flatten(),
        flat(&[(1, "aaa"), (2, "bbb"), (3, "ccc"), (2, "ddd")])
    );
}

#[test]
fn outline_flatten_headings() {
    let toc = Toc::parse("# aaa\n## bbb\n");
    assert_eq!(toc.flatten(), flat(&[(1, "aaa"), (2, "bbb")]));
}

#[test]
fn outline_flatten_mixed() {
    let toc = Toc::parse("# aaa\n## bbb\n- ccc\n  - ddd\n# eee\n");
    assert_eq!(
        toc.flatten(),
        flat(&[(1, "aaa"), (2, "bbb"), (3, "ccc"), (4, "ddd"), (1, "eee")])
    );
}

#[test]
fn outline_skips_unknown_lines() {
    let toc = Toc::parse("intro\n# aaa\n\nnot an item\n## bbb\n");
    assert_eq!(toc.flatten(), flat(&[(1, "aaa"), (2, "bbb")]));
}

#[test]
fn outline_empty_text() {
    let toc = Toc::parse("");
    assert_eq!(toc, Toc::new(vec![]));
    assert_eq!(toc.flatten(), vec![]);
}

#[test]
fn outline_crlf_lines() {
    let toc = Toc::parse("- aaa\r\n- bbb\r\n");
    assert_eq!(toc.flatten(), flat(&[(1, "aaa"), (1, "bbb")]));
}

#[test]
fn line_classification() {
    assert_eq!(Line::parse("# aaa"), Line::Block(1, "aaa".to_string()));
    assert_eq!(Line::parse("### c d"), Line::Block(3, "c d".to_string()));
    assert_eq!(Line::parse("# "), Line::Block(1, String::new()));
    assert_eq!(Line::parse("#"), Line::Unknown);
    assert_eq!(Line::parse("#aaa"), Line::Unknown);
    assert_eq!(Line::parse(" # aaa"), Line::Unknown);
    assert_eq!(Line::parse("- aaa"), Line::List(0, "aaa".to_string()));
    assert_eq!(Line::parse("  - bbb"), Line::List(2, "bbb".to_string()));
    assert_eq!(Line::parse("-"), Line::Unknown);
    assert_eq!(Line::parse("-x"), Line::Unknown);
    assert_eq!(Line::parse("1. aaa"), Line::List(0, "aaa".to_string()));
    assert_eq!(Line::parse("  2. bbb"), Line::List(2, "bbb".to_string()));
    assert_eq!(Line::parse("12. aaa"), Line::List(0, "aaa".to_string()));
    assert_eq!(Line::parse("1."), Line::Unknown);
    assert_eq!(Line::parse("1.x"), Line::Unknown);
    assert_eq!(Line::parse(""), Line::Unknown);
    assert_eq!(Line::parse("text"), Line::Unknown);
}

#[test]
fn outline_equal_indents_are_siblings() {
    let toc = Toc::parse("- a\n  - b\n  - c\n");
    assert_eq!(toc.flatten(), flat(&[(1, "a"), (2, "b"), (2, "c")]));
}

#[test]
fn outline_multi_digit_numbers() {
    let toc = Toc::parse("10. a\n  11. b\n12. c\n");
    assert_eq!(toc.flatten(), flat(&[(1, "a"), (2, "b"), (1, "c")]));
}

#[test]
fn outline_list_under_heading_counts_from_heading() {
    let toc = Toc::parse("## h\n- a\n    - b\n  - c\n");
    assert_eq!(toc.flatten(), flat(&[(1, "h"), (2, "a"), (3, "b"), (3, "c")]));
}
