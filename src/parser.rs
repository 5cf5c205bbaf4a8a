//! The note parser: a document tree turned into a note. Content before the
//! first top-level heading becomes an anonymous section, headings open
//! sections nested by depth, block quotes become cards or tables of
//! contents, and everything else is rendered as text.

use vstd::prelude::*;

use crate::ast::MdNode;
use crate::error::NoteError;
use crate::metadata::{Meta, Metadata};
use crate::model::{
    block_view, block_views, lemma_block_views_push, opt_view, Block, BlockView, Card, Note,
    NoteKind, Section,
};
use crate::printer::{kind_chars, kind_name};
use crate::render::{
    paragraph_from, render_list, rendered, rendered_chars, rendered_paragraph_chars,
};
use crate::text::{
    chars_of, join, join_chars, lines, push_all, slice_chars, split, split_chars,
    starts_with_chars, string_of, trim_start, trim_start_chars, views,
};
use crate::toc::{
    flatten_forest, lemma_flatten_forest_well_nested, lines_chars, outline_of_lines, well_nested,
    Toc,
};

verus! {

/// Each node rendered on its own, or the first failure.
pub open spec fn rendered_all(s: Seq<MdNode>) -> Result<Seq<Seq<char>>, Seq<char>>
    decreases s.len(),
{
    if s.len() == 0 {
        Ok(Seq::empty())
    } else {
        match rendered_all(s.drop_last()) {
            Err(e) => Err(e),
            Ok(p) => match rendered(s.last()) {
                Ok(x) => Ok(p.push(x)),
                Err(e) => Err(e),
            },
        }
    }
}

/// The marker that opens a card of the given kind.
pub open spec fn kind_marker(k: NoteKind) -> Seq<char> {
    seq!['[', '!'] + kind_name(k) + seq![']']
}

/// The kind, and the title after the marker, where `line` starts with the
/// kind's marker.
pub open spec fn marked_title(line: Seq<char>, k: NoteKind) -> Option<(NoteKind, Option<Seq<char>>)> {
    let m = kind_marker(k);
    if m.len() <= line.len() && line.subrange(0, m.len() as int) == m {
        let t = trim_start(line.subrange(m.len() as int, line.len() as int));
        Some(
            (
                k,
                if t.len() == 0 {
                    None
                } else {
                    Some(t)
                },
            ),
        )
    } else {
        None
    }
}

pub open spec fn first_some<T>(a: Option<T>, b: Option<T>) -> Option<T> {
    match a {
        Some(x) => Some(x),
        None => b,
    }
}

/// The card marker that a line starts with, tried in a fixed order, and
/// the title after it.
pub open spec fn card_kind(line: Seq<char>) -> Option<(NoteKind, Option<Seq<char>>)> {
    first_some(
        marked_title(line, NoteKind::Note),
        first_some(
            marked_title(line, NoteKind::Question),
            first_some(
                marked_title(line, NoteKind::Quote),
                first_some(
                    marked_title(line, NoteKind::Summary),
                    first_some(marked_title(line, NoteKind::Toc), marked_title(line, NoteKind::Todo)),
                ),
            ),
        ),
    )
}

/// Where the first child of a block quote is a paragraph whose leading
/// text opens with a card marker: the kind, the title, and the rest of
/// that text after its first line.
pub open spec fn card_head(first: MdNode) -> Option<(NoteKind, Option<Seq<char>>, Seq<char>)> {
    match first {
        MdNode::Paragraph(pc) => if pc@.len() > 0 {
            match pc@[0] {
                MdNode::Text(v) => {
                    let ls = lines(v@);
                    if ls.len() > 0 {
                        match card_kind(ls[0]) {
                            Some(kt) => Some(
                                (kt.0, kt.1, join(ls.subrange(1, ls.len() as int), seq!['\n'])),
                            ),
                            None => None,
                        }
                    } else {
                        None
                    }
                },
                _ => None,
            }
        } else {
            None
        },
        _ => None,
    }
}

pub open spec fn paragraph_children(n: MdNode) -> Seq<MdNode> {
    match n {
        MdNode::Paragraph(pc) => pc@,
        _ => Seq::empty(),
    }
}

/// The rendered pieces of a block quote's body: the first child without
/// its marker line, then the other children.
pub open spec fn card_lines(c: Seq<MdNode>) -> Result<Seq<Seq<char>>, Seq<char>> {
    match card_head(c[0]) {
        None => rendered_all(c),
        Some(h) => {
            let pc = paragraph_children(c[0]);
            let others = pc.subrange(1, pc.len() as int);
            if h.2.len() == 0 && others.len() == 0 {
                rendered_all(c.subrange(1, c.len() as int))
            } else {
                match render_list(others, 0, None) {
                    Err(e) => Err(e),
                    Ok(p) => match rendered_all(c.subrange(1, c.len() as int)) {
                        Ok(q) => Ok(seq![paragraph_from(seq![h.2] + p)] + q),
                        Err(e) => Err(e),
                    },
                }
            }
        },
    }
}

/// Every piece split at its line breaks.
pub open spec fn split_all(ls: Seq<Seq<char>>) -> Seq<Seq<char>>
    decreases ls.len(),
{
    if ls.len() == 0 {
        Seq::empty()
    } else {
        split_all(ls.drop_last()) + split(ls.last(), '\n')
    }
}

/// What a block quote becomes: nothing when empty; a table of contents
/// for the `toc` marker; else a card, of kind note when unmarked, holding
/// its rendered pieces as one text.
pub open spec fn quote_block(c: Seq<MdNode>) -> Result<BlockView, Seq<char>> {
    if c.len() == 0 {
        Ok(BlockView::Empty)
    } else {
        let kt = match card_head(c[0]) {
            Some(h) => (h.0, h.1),
            None => (NoteKind::Note, None),
        };
        match card_lines(c) {
            Err(e) => Err(e),
            Ok(ls) => if kt.0 == NoteKind::Toc {
                Ok(BlockView::Toc(flatten_forest(outline_of_lines(split_all(ls)), 1)))
            } else {
                Ok(BlockView::Card(kt.0, kt.1, seq![BlockView::Text(join(ls, seq!['\n', '\n']))]))
            },
        }
    }
}

/// A heading's title: its children rendered and joined by spaces.
pub open spec fn heading_title(c: Seq<MdNode>) -> Result<Seq<char>, Seq<char>> {
    match rendered_all(c) {
        Ok(p) => Ok(join(p, seq![' '])),
        Err(e) => Err(e),
    }
}

pub open spec fn prefixed(pre: Seq<BlockView>, r: Result<(nat, Seq<BlockView>), Seq<char>>) -> Result<
    (nat, Seq<BlockView>),
    Seq<char>,
> {
    match r {
        Ok(p) => Ok((p.0, pre + p.1)),
        Err(e) => Err(e),
    }
}

/// The level a heading opens: its depth, a depth of zero counting as one.
pub open spec fn heading_level(depth: u8) -> nat {
    if depth == 0 {
        1
    } else {
        depth as nat
    }
}

/// The blocks read from sibling `i` on, up to the first heading of depth at
/// most `min_depth`; and the sibling where reading stopped.
pub open spec fn consume(s: Seq<MdNode>, i: nat, min_depth: nat) -> Result<
    (nat, Seq<BlockView>),
    Seq<char>,
>
    decreases s.len() - i,
{
    if i >= s.len() {
        Ok((i, Seq::empty()))
    } else {
        match s[i as int] {
            MdNode::Heading { depth, children } => {
                if heading_level(depth) <= min_depth {
                    Ok((i, Seq::empty()))
                } else {
                    match heading_title(children@) {
                        Err(e) => Err(e),
                        Ok(title) => match consume(s, i + 1, heading_level(depth)) {
                            Err(e) => Err(e),
                            Ok(sub) => if i < sub.0 <= s.len() {
                                prefixed(
                                    seq![BlockView::Section(title, sub.1)],
                                    consume(s, sub.0, min_depth),
                                )
                            } else {
                                Ok((i, Seq::empty()))
                            },
                        },
                    }
                }
            },
            MdNode::BlockQuote(c) => match quote_block(c@) {
                Err(e) => Err(e),
                Ok(b) => prefixed(seq![b], consume(s, i + 1, min_depth)),
            },
            MdNode::FootnoteDefinition { .. } => match rendered(s[i as int]) {
                Err(e) => Err(e),
                Ok(x) => prefixed(seq![BlockView::Single(x)], consume(s, i + 1, min_depth)),
            },
            _ => match rendered(s[i as int]) {
                Err(e) => Err(e),
                Ok(x) => prefixed(seq![BlockView::Text(x)], consume(s, i + 1, min_depth)),
            },
        }
    }
}

/// The body of a document from sibling `start` on: what comes before the
/// first top-level heading, one level lower, in an anonymous section; then
/// the top-level sections.
pub open spec fn body_from(s: Seq<MdNode>, start: nat) -> Result<Seq<BlockView>, Seq<char>> {
    match consume(s, start, 1) {
        Err(e) => Err(e),
        Ok(head) => {
            let pre = if head.1.len() > 0 {
                seq![BlockView::AnonymousSection(head.1)]
            } else {
                Seq::empty()
            };
            match consume(s, head.0, 0) {
                Ok(rest) => Ok(pre + rest.1),
                Err(e) => Err(e),
            }
        },
    }
}

/// The text of the document's leading frontmatter, where it starts with one.
pub open spec fn frontmatter(s: Seq<MdNode>) -> Option<Seq<char>> {
    if s.len() > 0 {
        match s[0] {
            MdNode::Yaml(v) => Some(v@),
            _ => None,
        }
    } else {
        None
    }
}

/// A table of contents read from a block quote can be read back as a
/// forest rooted at depth one.
pub proof fn lemma_quote_toc_well_nested(c: Seq<MdNode>)
    ensures
        quote_block(c) matches Ok(BlockView::Toc(e)) ==> well_nested(e, 1),
{
    if c.len() > 0 {
        match card_lines(c) {
            Ok(ls) => lemma_flatten_forest_well_nested(outline_of_lines(split_all(ls)), 1),
            Err(_) => {},
        }
    }
}

/// Reading with no enclosing heading goes on to the last sibling: the
/// second pass drops nothing.
pub proof fn lemma_consume_top_reaches_end(s: Seq<MdNode>, i: nat)
    requires
        i <= s.len(),
    ensures
        consume(s, i, 0) matches Ok(r) ==> r.0 == s.len(),
    decreases s.len() - i,
{
    if i < s.len() {
        match s[i as int] {
            MdNode::Heading { depth, children } => {
                let sub = consume(s, i + 1, heading_level(depth));
                if sub is Ok {
                    lemma_consume_bounds(s, i + 1, heading_level(depth));
                    let k = sub->Ok_0.0;
                    if i < k <= s.len() {
                        lemma_consume_top_reaches_end(s, k);
                    }
                }
            },
            _ => lemma_consume_top_reaches_end(s, i + 1),
        }
    }
}

proof fn lemma_consume_bounds(s: Seq<MdNode>, i: nat, m: nat)
    requires
        i <= s.len(),
        consume(s, i, m) is Ok,
    ensures
        i <= consume(s, i, m)->Ok_0.0 <= s.len(),
    decreases s.len() - i,
{
    if i < s.len() {
        match s[i as int] {
            MdNode::Heading { depth, children } => {
                if heading_level(depth) > m {
                    let sub = consume(s, i + 1, heading_level(depth));
                    if sub is Ok {
                        lemma_consume_bounds(s, i + 1, heading_level(depth));
                        let k = sub->Ok_0.0;
                        if i < k <= s.len() {
                            lemma_consume_bounds(s, k, m);
                        }
                    }
                }
            },
            _ => {
                if consume(s, i + 1, m) is Ok {
                    lemma_consume_bounds(s, i + 1, m);
                }
            },
        }
    }
}

proof fn lemma_rendered_all_err(s: Seq<MdNode>, k: int)
    requires
        0 <= k <= s.len(),
        rendered_all(s.subrange(0, k)) is Err,
    ensures
        rendered_all(s) == rendered_all(s.subrange(0, k)),
    decreases s.len(),
{
    if k < s.len() {
        let t = s.drop_last();
        assert(t.subrange(0, k) =~= s.subrange(0, k));
        lemma_rendered_all_err(t, k);
    } else {
        assert(s.subrange(0, k) =~= s);
    }
}

pub open spec fn lines_view(r: Result<Vec<Vec<char>>, String>) -> Result<Seq<Seq<char>>, Seq<char>> {
    match r {
        Ok(v) => Ok(views(v@)),
        Err(e) => Err(e@),
    }
}

/// Renders each node from index `lo` on, stopping at the first failure.
fn rendered_from(c: &Vec<MdNode>, lo: usize) -> (r: Result<Vec<Vec<char>>, String>)
    requires
        lo <= c.len(),
    ensures
        lines_view(r) == rendered_all(c@.subrange(lo as int, c.len() as int)),
{
    let ghost t = c@.subrange(lo as int, c.len() as int);
    let mut out: Vec<Vec<char>> = Vec::new();
    let mut i: usize = lo;
    assert(t.subrange(0, 0) =~= Seq::<MdNode>::empty());
    assert(views(out@) =~= Seq::<Seq<char>>::empty());
    while i < c.len()
        invariant
            lo <= i <= c.len(),
            t == c@.subrange(lo as int, c.len() as int),
            rendered_all(t.subrange(0, i - lo)) == Ok::<Seq<Seq<char>>, Seq<char>>(views(out@)),
        decreases c.len() - i,
    {
        let ghost k = i - lo;
        let ghost now = t.subrange(0, k + 1);
        assert(now.drop_last() =~= t.subrange(0, k));
        assert(now.last() == c@[i as int]);
        match rendered_chars(&c[i]) {
            Ok(x) => {
                let ghost o = out@;
                out.push(x);
                assert(views(out@) =~= views(o).push(x@));
            },
            Err(e) => {
                proof {
                    lemma_rendered_all_err(t, k + 1);
                }
                return Err(e);
            },
        }
        i = i + 1;
    }
    assert(t.subrange(0, c.len() - lo) =~= t);
    Ok(out)
}

/// Every piece split at its line breaks.
fn split_all_chars(ls: &Vec<Vec<char>>) -> (r: Vec<Vec<char>>)
    ensures
        views(r@) == split_all(views(ls@)),
{
    let ghost lv = views(ls@);
    let mut out: Vec<Vec<char>> = Vec::new();
    let mut i: usize = 0;
    assert(lv.subrange(0, 0) =~= Seq::<Seq<char>>::empty());
    assert(views(out@) =~= Seq::<Seq<char>>::empty());
    while i < ls.len()
        invariant
            i <= ls.len(),
            lv == views(ls@),
            views(out@) == split_all(lv.subrange(0, i as int)),
        decreases ls.len() - i,
    {
        let mut pieces = split_chars(&ls[i], '\n');
        let ghost o = views(out@);
        let ghost p = views(pieces@);
        out.append(&mut pieces);
        assert(views(out@) =~= o + p);
        i = i + 1;
        assert(lv.subrange(0, i as int).drop_last() =~= lv.subrange(0, i - 1));
    }
    assert(lv.subrange(0, ls.len() as int) =~= lv);
    out
}

/// The kind and title where `line` starts with the marker of `k`.
fn try_kind(line: &Vec<char>, k: NoteKind) -> (r: Option<(NoteKind, Option<String>)>)
    ensures
        match r {
            Some(p) => marked_title(line@, k) == Some((p.0, opt_view(p.1))),
            None => marked_title(line@, k) is None,
        },
{
    let mut marker: Vec<char> = vec!['[', '!'];
    let name = kind_chars(k);
    push_all(&mut marker, &name);
    marker.push(']');
    assert(marker@ =~= kind_marker(k));
    if starts_with_chars(line, &marker) {
        let after = slice_chars(line, marker.len(), line.len());
        let t = trim_start_chars(&after);
        if t.len() == 0 {
            Some((k, None))
        } else {
            Some((k, Some(string_of(&t))))
        }
    } else {
        None
    }
}

/// The card marker that a line starts with, and the title after it.
fn find_card_kind(line: &Vec<char>) -> (r: Option<(NoteKind, Option<String>)>)
    ensures
        match r {
            Some(p) => card_kind(line@) == Some((p.0, opt_view(p.1))),
            None => card_kind(line@) is None,
        },
{
    let r = try_kind(line, NoteKind::Note);
    if r.is_some() {
        return r;
    }
    let r = try_kind(line, NoteKind::Question);
    if r.is_some() {
        return r;
    }
    let r = try_kind(line, NoteKind::Quote);
    if r.is_some() {
        return r;
    }
    let r = try_kind(line, NoteKind::Summary);
    if r.is_some() {
        return r;
    }
    let r = try_kind(line, NoteKind::Toc);
    if r.is_some() {
        return r;
    }
    try_kind(line, NoteKind::Todo)
}

/// The parser from document trees to notes.
pub struct NoteParser {}

impl NoteParser {
    /// The note of a document tree. `decoded` is what the YAML decoder made
    /// of the document's leading frontmatter, where it could decode it; where
    /// it could not, the frontmatter is kept as raw text.
    pub fn parse(node: &MdNode, decoded: Option<Meta>) -> (r: Result<Note, NoteError>)
        ensures
            !(node is Root) ==> r == Err::<Note, NoteError>(NoteError::InvalidDocument),
            node matches MdNode::Root(c) ==> {
                let start: nat = if frontmatter(c@) is Some {
                    1
                } else {
                    0
                };
                match body_from(c@, start) {
                    Err(e) => r matches Err(NoteError::UnsupportedSyntax(k)) && k@ == e,
                    Ok(b) => r matches Ok(n) && block_views(n.body@) == b && match frontmatter(c@) {
                        Some(v) => match decoded {
                            Some(m) => n.metadata == Some(Metadata::Meta(m)),
                            None => n.metadata matches Some(Metadata::Raw(t)) && t@ == v,
                        },
                        None => n.metadata is None,
                    },
                }
            },
    {
        match node {
            MdNode::Root(c) => {
                let mut metadata: Option<Metadata> = None;
                let mut start: usize = 0;
                if c.len() > 0 {
                    match &c[0] {
                        MdNode::Yaml(v) => {
                            metadata = Some(
                                match decoded {
                                    Some(m) => Metadata::Meta(m),
                                    None => Metadata::Raw(v.clone()),
                                },
                            );
                            start = 1;
                        },
                        _ => {},
                    }
                }
                let head = match Self::parse_block(c, start, 1) {
                    Ok(p) => p,
                    Err(e) => return Err(NoteError::UnsupportedSyntax(e)),
                };
                proof {
                    lemma_consume_bounds(c@, start as nat, 1);
                }
                let (k, head_blocks) = head;
                let mut body: Vec<Block> = Vec::new();
                if head_blocks.len() > 0 {
                    let b = Block::AnonymousSection(head_blocks);
                    proof {
                        lemma_block_views_push(Seq::empty(), b);
                        assert(Seq::<Block>::empty().push(b) =~= seq![b]);
                    }
                    body.push(b);
                    assert(body@ =~= Seq::<Block>::empty().push(b));
                } else {
                    assert(block_views(body@) =~= Seq::<BlockView>::empty());
                }
                let rest = match Self::parse_block(c, k, 0) {
                    Ok(p) => p,
                    Err(e) => return Err(NoteError::UnsupportedSyntax(e)),
                };
                let (_, mut rest_blocks) = rest;
                let ghost b0 = body@;
                let ghost r0 = rest_blocks@;
                body.append(&mut rest_blocks);
                proof {
                    lemma_block_views_concat(b0, r0);
                }
                Ok(Note { metadata, body })
            },
            _ => Err(NoteError::InvalidDocument),
        }
    }

    /// The blocks from sibling `index` on, up to the first heading of depth
    /// at most `min_depth`; and the sibling where reading stopped.
    fn parse_block(s: &Vec<MdNode>, index: usize, min_depth: u8) -> (r: Result<
        (usize, Vec<Block>),
        String,
    >)
        requires
            index <= s.len(),
        ensures
            match r {
                Ok(p) => consume(s@, index as nat, min_depth as nat) == Ok::<
                    (nat, Seq<BlockView>),
                    Seq<char>,
                >((p.0 as nat, block_views(p.1@))),
                Err(e) => consume(s@, index as nat, min_depth as nat) == Err::<
                    (nat, Seq<BlockView>),
                    Seq<char>,
                >(e@),
            },
        decreases s.len() - index, 1nat,
    {
        let ghost m = min_depth as nat;
        let mut res: Vec<Block> = Vec::new();
        let mut i: usize = index;
        assert(block_views(res@) =~= Seq::<BlockView>::empty());
        assert(consume(s@, index as nat, m) =~= prefixed(Seq::empty(), consume(s@, index as nat, m)));
        while i < s.len()
            invariant
                index <= i <= s.len(),
                m == min_depth as nat,
                consume(s@, index as nat, m) == prefixed(block_views(res@), consume(s@, i as nat, m)),
            ensures
                consume(s@, index as nat, m) == Ok::<(nat, Seq<BlockView>), Seq<char>>(
                    (i as nat, block_views(res@)),
                ),
            decreases s.len() - i,
        {
            let ghost r0 = res@;
            match Self::parse_one(s, i, min_depth) {
                Err(e) => {
                    return Err(e);
                },
                Ok(None) => {
                    assert(block_views(res@) + Seq::<BlockView>::empty() =~= block_views(res@));
                    break;
                },
                Ok(Some((next, b))) => {
                    res.push(b);
                    proof {
                        lemma_prefix_step(r0, b, consume(s@, next as nat, m));
                    }
                    i = next;
                },
            }
        }
        Ok((i, res))
    }

    /// The block that starts at sibling `i` and the sibling after it, or
    /// none where a heading of depth at most `min_depth` ends the run.
    fn parse_one(s: &Vec<MdNode>, i: usize, min_depth: u8) -> (r: Result<
        Option<(usize, Block)>,
        String,
    >)
        requires
            i < s.len(),
        ensures
            match r {
                Ok(None) => consume(s@, i as nat, min_depth as nat) == Ok::<
                    (nat, Seq<BlockView>),
                    Seq<char>,
                >((i as nat, Seq::empty())),
                Ok(Some(p)) => i < p.0 <= s.len() && consume(s@, i as nat, min_depth as nat)
                    == prefixed(seq![block_view(p.1)], consume(s@, p.0 as nat, min_depth as nat)),
                Err(e) => consume(s@, i as nat, min_depth as nat) == Err::<
                    (nat, Seq<BlockView>),
                    Seq<char>,
                >(e@),
            },
        decreases s.len() - i, 0nat,
    {
        match &s[i] {
            MdNode::Heading { depth, children } => {
                let level: u8 = if *depth == 0 {
                    1
                } else {
                    *depth
                };
                if level <= min_depth {
                    return Ok(None);
                }
                assert(children@.subrange(0, children.len() as int) =~= children@);
                let title = match rendered_from(children, 0) {
                    Ok(p) => {
                        let sp: Vec<char> = vec![' '];
                        assert(sp@ =~= seq![' ']);
                        join_chars(&p, &sp)
                    },
                    Err(e) => {
                        return Err(e);
                    },
                };
                let sub = match Self::parse_block(s, i + 1, level) {
                    Ok(p) => p,
                    Err(e) => return Err(e),
                };
                proof {
                    lemma_consume_bounds(s@, (i + 1) as nat, level as nat);
                }
                let (next, children_blocks) = sub;
                let b = Block::Section(Section { title: string_of(&title), children: children_blocks });
                Ok(Some((next, b)))
            },
            MdNode::BlockQuote(c) => {
                let b = match Self::parse_block_quote(c) {
                    Ok(b) => b,
                    Err(e) => return Err(e),
                };
                Ok(Some((i + 1, b)))
            },
            MdNode::FootnoteDefinition { .. } => {
                let x = match rendered_chars(&s[i]) {
                    Ok(x) => x,
                    Err(e) => return Err(e),
                };
                Ok(Some((i + 1, Block::Single(string_of(&x)))))
            },
            _ => {
                let x = match rendered_chars(&s[i]) {
                    Ok(x) => x,
                    Err(e) => return Err(e),
                };
                Ok(Some((i + 1, Block::Text(string_of(&x)))))
            },
        }
    }

    /// What a block quote becomes.
    fn parse_block_quote(c: &Vec<MdNode>) -> (r: Result<Block, String>)
        ensures
            match r {
                Ok(b) => quote_block(c@) == Ok::<BlockView, Seq<char>>(block_view(b)),
                Err(e) => quote_block(c@) == Err::<BlockView, Seq<char>>(e@),
            },
    {
        if c.len() == 0 {
            return Ok(Block::Empty);
        }
        let head = Self::parse_card(&c[0]);
        let (kind, title, lines) = match head {
            None => {
                let ls = match rendered_from(c, 0) {
                    Ok(ls) => ls,
                    Err(e) => {
                        assert(c@.subrange(0, c.len() as int) =~= c@);
                        return Err(e);
                    },
                };
                assert(c@.subrange(0, c.len() as int) =~= c@);
                (NoteKind::Note, None, ls)
            },
            Some((k, t, s)) => {
                let pc = match &c[0] {
                    MdNode::Paragraph(pc) => pc,
                    _ => {
                        return Ok(Block::Empty);
                    },
                };
                if s.len() == 0 && pc.len() == 1 {
                    let ls = match rendered_from(c, 1) {
                        Ok(ls) => ls,
                        Err(e) => return Err(e),
                    };
                    (k, t, ls)
                } else {
                    let first = match rendered_paragraph_chars(s, pc, 1) {
                        Ok(f) => f,
                        Err(e) => return Err(e),
                    };
                    let mut others = match rendered_from(c, 1) {
                        Ok(ls) => ls,
                        Err(e) => return Err(e),
                    };
                    let mut ls: Vec<Vec<char>> = Vec::new();
                    let ghost f = first@;
                    ls.push(first);
                    let ghost o = views(others@);
                    ls.append(&mut others);
                    assert(views(ls@) =~= seq![f] + o);
                    (k, t, ls)
                }
            },
        };
        if kind == NoteKind::Toc {
            let pieces = split_all_chars(&lines);
            let entries = Toc::parse_lines(&pieces).flatten();
            Ok(Block::Toc(entries))
        } else {
            let sep: Vec<char> = vec!['\n', '\n'];
            assert(sep@ =~= seq!['\n', '\n']);
            let text = join_chars(&lines, &sep);
            let t = Block::Text(string_of(&text));
            let children = vec![t];
            proof {
                lemma_block_views_push(Seq::empty(), t);
                assert(children@ =~= Seq::<Block>::empty().push(t));
            }
            Ok(Block::Card(Card { kind, title, children }))
        }
    }

    /// The card kind, title and remaining first-line text of a block
    /// quote's first child.
    fn parse_card(node: &MdNode) -> (r: Option<(NoteKind, Option<String>, Vec<char>)>)
        ensures
            match r {
                Some(p) => card_head(*node) == Some((p.0, opt_view(p.1), p.2@)),
                None => card_head(*node) is None,
            },
    {
        match node {
            MdNode::Paragraph(pc) => {
                if pc.len() == 0 {
                    return None;
                }
                match &pc[0] {
                    MdNode::Text(v) => {
                        let chars = chars_of(v.as_str());
                        let ls = lines_chars(&chars);
                        if ls.len() == 0 {
                            return None;
                        }
                        match find_card_kind(&ls[0]) {
                            Some((k, t)) => {
                                let mut rest: Vec<Vec<char>> = Vec::new();
                                let mut i: usize = 1;
                                while i < ls.len()
                                    invariant
                                        1 <= i <= ls.len(),
                                        views(rest@) == views(ls@).subrange(1, i as int),
                                    decreases ls.len() - i,
                                {
                                    let x = slice_chars(&ls[i], 0, ls[i].len());
                                    assert(ls[i as int]@.subrange(0, ls[i as int]@.len() as int)
                                        =~= ls[i as int]@);
                                    let ghost o = rest@;
                                    rest.push(x);
                                    assert(views(rest@) =~= views(o).push(x@));
                                    i = i + 1;
                                    assert(views(rest@) =~= views(ls@).subrange(1, i as int));
                                }
                                let nl: Vec<char> = vec!['\n'];
                                assert(nl@ =~= seq!['\n']);
                                let s = join_chars(&rest, &nl);
                                Some((k, t, s))
                            },
                            None => None,
                        }
                    },
                    _ => None,
                }
            },
            _ => None,
        }
    }
}

proof fn lemma_prefix_step(r0: Seq<Block>, b: Block, x: Result<(nat, Seq<BlockView>), Seq<char>>)
    ensures
        prefixed(block_views(r0), prefixed(seq![block_view(b)], x)) == prefixed(
            block_views(r0.push(b)),
            x,
        ),
{
    lemma_block_views_push(r0, b);
    match x {
        Ok(p) => {
            assert(block_views(r0) + (seq![block_view(b)] + p.1) =~= block_views(r0.push(b)) + p.1);
        },
        Err(e) => {},
    }
}

proof fn lemma_block_views_concat(a: Seq<Block>, b: Seq<Block>)
    ensures
        block_views(a + b) == block_views(a) + block_views(b),
    decreases b.len(),
{
    if b.len() == 0 {
        assert(a + b =~= a);
        assert(block_views(a) + block_views(b) =~= block_views(a));
    } else {
        let b2 = b.drop_last();
        lemma_block_views_concat(a, b2);
        assert((a + b).subrange(0, (a + b).len() - 1) =~= a + b2);
        assert(b.subrange(0, b.len() - 1) =~= b2);
        assert(block_views(a) + block_views(b) =~= (block_views(a) + block_views(b2)).push(
            block_view(b.last()),
        ));
    }
}

} // verus!
