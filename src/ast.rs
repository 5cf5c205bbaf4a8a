//! The generic Markdown syntax tree that the library reads: the constructs
//! of GFM, frontmatter and math that the renderer knows, and one variant
//! for every other kind of node, named by its kind.

use vstd::prelude::*;

verus! {

/// Alignment of a table column.
#[derive(Clone, Copy, Debug, PartialEq, Eq, Structural)]
pub enum AlignKind {
    Left,
    Right,
    Center,
    Unaligned,
}

/// A node of the generic syntax tree.
#[derive(Debug, PartialEq)]
pub enum MdNode {
    Root(Vec<MdNode>),
    BlockQuote(Vec<MdNode>),
    List { ordered: bool, children: Vec<MdNode> },
    ListItem { checked: Option<bool>, children: Vec<MdNode> },
    Heading { depth: u8, children: Vec<MdNode> },
    Code { lang: Option<String>, meta: Option<String>, value: String },
    Paragraph(Vec<MdNode>),
    Emphasis(Vec<MdNode>),
    Strong(Vec<MdNode>),
    Delete(Vec<MdNode>),
    FootnoteDefinition { identifier: String, children: Vec<MdNode> },
    Break,
    Link { url: String, children: Vec<MdNode> },
    Table { align: Vec<AlignKind>, children: Vec<MdNode> },
    TableRow(Vec<MdNode>),
    TableCell(Vec<MdNode>),
    Html(String),
    Text(String),
    Math(String),
    InlineMath(String),
    Yaml(String),
    FootnoteReference(String),
    InlineCode(String),
    ThematicBreak,
    Image { alt: String, url: String },
    /// A node of a kind that the renderer does not handle, by kind name.
    Other(String),
}

/// A document root.
pub fn root(children: Vec<MdNode>) -> (r: MdNode)
    ensures
        r == MdNode::Root(children),
{
    MdNode::Root(children)
}

/// A YAML frontmatter node.
pub fn yaml(value: &str) -> (r: MdNode)
    ensures
        r matches MdNode::Yaml(v) && v@ == value@,
{
    MdNode::Yaml(value.to_string())
}

/// A heading of the given depth.
pub fn heading(depth: u8, children: Vec<MdNode>) -> (r: MdNode)
    ensures
        r == (MdNode::Heading { depth, children }),
{
    MdNode::Heading { depth, children }
}

/// A block quote.
pub fn block_quote(children: Vec<MdNode>) -> (r: MdNode)
    ensures
        r == MdNode::BlockQuote(children),
{
    MdNode::BlockQuote(children)
}

/// A text leaf.
pub fn text(value: &str) -> (r: MdNode)
    ensures
        r matches MdNode::Text(v) && v@ == value@,
{
    MdNode::Text(value.to_string())
}

/// A paragraph.
pub fn paragraph(children: Vec<MdNode>) -> (r: MdNode)
    ensures
        r == MdNode::Paragraph(children),
{
    MdNode::Paragraph(children)
}

} // verus!
