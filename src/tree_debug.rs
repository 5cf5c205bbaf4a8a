//! A debugging view of a syntax tree: one line per node, indented by
//! nesting, each with its kind.

use vstd::prelude::*;

use crate::ast::MdNode;
use crate::debug::pad;
use crate::render::sat_inc;
use crate::text::{join, join_chars, push_all, push_str, repeat_chars, string_of, views};

verus! {

/// A parent node: its kind, then its children's views one per line.
pub open spec fn parent_text(name: Seq<char>, kids: Seq<Seq<char>>, depth: nat) -> Seq<char> {
    pad(depth) + seq!['['] + name + seq![']', '\n'] + join(kids, seq!['\n'])
}

/// A leaf node: its kind, then its text.
pub open spec fn literal_text(name: Seq<char>, value: Seq<char>, depth: nat) -> Seq<char> {
    pad(depth) + seq!['['] + name + seq![']'] + value
}

/// A node's debugging view at nesting `depth`.
pub open spec fn tree_text(n: MdNode, depth: nat) -> Seq<char>
    decreases n, 1nat,
{
    let d = sat_inc(depth);
    match n {
        MdNode::Root(c) => parent_text("Root"@, tree_all(c@, d), depth),
        MdNode::BlockQuote(c) => parent_text("BlockQuote"@, tree_all(c@, d), depth),
        MdNode::FootnoteDefinition { children, .. } => parent_text(
            "FootnoteDefinition"@,
            tree_all(children@, d),
            depth,
        ),
        MdNode::List { children, .. } => parent_text("List"@, tree_all(children@, d), depth),
        MdNode::Delete(c) => parent_text("Delete"@, tree_all(c@, d), depth),
        MdNode::Emphasis(c) => parent_text("Emphasis"@, tree_all(c@, d), depth),
        MdNode::Link { children, .. } => parent_text("Link"@, tree_all(children@, d), depth),
        MdNode::Strong(c) => parent_text("Strong"@, tree_all(c@, d), depth),
        MdNode::Heading { children, .. } => parent_text("Heading"@, tree_all(children@, d), depth),
        MdNode::Table { children, .. } => parent_text("Table"@, tree_all(children@, d), depth),
        MdNode::TableRow(c) => parent_text("TableRow"@, tree_all(c@, d), depth),
        MdNode::TableCell(c) => parent_text("TableCell"@, tree_all(c@, d), depth),
        MdNode::ListItem { children, .. } => parent_text(
            "ListItem"@,
            tree_all(children@, d),
            depth,
        ),
        MdNode::Paragraph(c) => parent_text("Paragraph"@, tree_all(c@, d), depth),
        MdNode::Yaml(v) => literal_text("Yaml"@, v@, depth),
        MdNode::InlineCode(v) => literal_text("InlineCode"@, v@, depth),
        MdNode::InlineMath(v) => literal_text("InlineMath"@, v@, depth),
        MdNode::Html(v) => literal_text("Html"@, v@, depth),
        MdNode::Text(v) => literal_text("Text"@, v@, depth),
        MdNode::Code { value, .. } => literal_text("Code"@, value@, depth),
        MdNode::Math(v) => literal_text("Math"@, v@, depth),
        MdNode::Other(k) => literal_text(k@, Seq::empty(), depth),
        MdNode::Break => Seq::empty(),
        MdNode::FootnoteReference(_) => Seq::empty(),
        MdNode::Image { .. } => Seq::empty(),
        MdNode::ThematicBreak => Seq::empty(),
    }
}

/// The debugging views of sibling nodes.
pub open spec fn tree_all(s: Seq<MdNode>, depth: nat) -> Seq<Seq<char>>
    decreases s, 0nat,
{
    if s.len() == 0 {
        Seq::empty()
    } else {
        tree_all(s.subrange(0, s.len() - 1), depth).push(tree_text(s[s.len() - 1], depth))
    }
}

fn pad_to(n: usize) -> (r: Vec<char>)
    ensures
        r@ == pad(n as nat),
{
    let unit: Vec<char> = vec![' ', ' '];
    assert(unit@ =~= seq![' ', ' ']);
    repeat_chars(&unit, n)
}

fn parent_chars(name: &str, children: &Vec<MdNode>, depth: usize) -> (r: Vec<char>)
    ensures
        r@ == parent_text(name@, tree_all(children@, sat_inc(depth as nat)), depth as nat),
    decreases children,
{
    let d: usize = if depth < usize::MAX {
        depth + 1
    } else {
        depth
    };
    let mut parts: Vec<Vec<char>> = Vec::new();
    let mut i: usize = 0;
    assert(children@.subrange(0, 0) =~= Seq::<MdNode>::empty());
    assert(views(parts@) =~= Seq::<Seq<char>>::empty());
    while i < children.len()
        invariant
            i <= children.len(),
            d as nat == sat_inc(depth as nat),
            views(parts@) == tree_all(children@.subrange(0, i as int), d as nat),
        decreases children.len() - i,
    {
        let x = tree_chars(&children[i], d);
        let ghost o = parts@;
        parts.push(x);
        assert(views(parts@) =~= views(o).push(x@));
        assert(children@.subrange(0, i + 1).subrange(0, i as int) =~= children@.subrange(0, i as int));
        i = i + 1;
    }
    assert(children@.subrange(0, children.len() as int) =~= children@);
    let nl: Vec<char> = vec!['\n'];
    assert(nl@ =~= seq!['\n']);
    let body = join_chars(&parts, &nl);
    let mut out = pad_to(depth);
    out.push('[');
    push_str(&mut out, name);
    out.push(']');
    out.push('\n');
    push_all(&mut out, &body);
    assert(out@ =~= parent_text(name@, tree_all(children@, d as nat), depth as nat));
    out
}

fn literal_chars(name: &str, value: &str, depth: usize) -> (r: Vec<char>)
    ensures
        r@ == literal_text(name@, value@, depth as nat),
{
    let mut out = pad_to(depth);
    out.push('[');
    push_str(&mut out, name);
    out.push(']');
    push_str(&mut out, value);
    assert(out@ =~= literal_text(name@, value@, depth as nat));
    out
}

fn tree_chars(n: &MdNode, depth: usize) -> (r: Vec<char>)
    ensures
        r@ == tree_text(*n, depth as nat),
    decreases n,
{
    match n {
        MdNode::Root(c) => parent_chars("Root", c, depth),
        MdNode::BlockQuote(c) => parent_chars("BlockQuote", c, depth),
        MdNode::FootnoteDefinition { children, .. } => parent_chars(
            "FootnoteDefinition",
            children,
            depth,
        ),
        MdNode::List { children, .. } => parent_chars("List", children, depth),
        MdNode::Delete(c) => parent_chars("Delete", c, depth),
        MdNode::Emphasis(c) => parent_chars("Emphasis", c, depth),
        MdNode::Link { children, .. } => parent_chars("Link", children, depth),
        MdNode::Strong(c) => parent_chars("Strong", c, depth),
        MdNode::Heading { children, .. } => parent_chars("Heading", children, depth),
        MdNode::Table { children, .. } => parent_chars("Table", children, depth),
        MdNode::TableRow(c) => parent_chars("TableRow", c, depth),
        MdNode::TableCell(c) => parent_chars("TableCell", c, depth),
        MdNode::ListItem { children, .. } => parent_chars("ListItem", children, depth),
        MdNode::Paragraph(c) => parent_chars("Paragraph", c, depth),
        MdNode::Yaml(v) => literal_chars("Yaml", v.as_str(), depth),
        MdNode::InlineCode(v) => literal_chars("InlineCode", v.as_str(), depth),
        MdNode::InlineMath(v) => literal_chars("InlineMath", v.as_str(), depth),
        MdNode::Html(v) => literal_chars("Html", v.as_str(), depth),
        MdNode::Text(v) => literal_chars("Text", v.as_str(), depth),
        MdNode::Code { value, .. } => literal_chars("Code", value.as_str(), depth),
        MdNode::Math(v) => literal_chars("Math", v.as_str(), depth),
        MdNode::Other(k) => {
            proof {
                reveal_strlit("");
            }
            literal_chars(k.as_str(), "", depth)
        },
        _ => Vec::new(),
    }
}

impl MdNode {
    /// The tree's debugging view.
    pub fn debug_print(&self) -> (r: String)
        ensures
            r@ == tree_text(*self, 0),
    {
        let v = tree_chars(self, 0);
        string_of(&v)
    }
}

} // verus!
