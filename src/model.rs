//! The structured note model: metadata and a body of blocks.

use vstd::prelude::*;

use crate::metadata::{
    lemma_normalize_idempotent, metadata_wf, normalized_meta, normalized_metadata, outline_text,
    Bookmark, Metadata,
};
use crate::toc::{
    flat_views, flatten_forest, lemma_flatten_forest_well_nested, outline, well_nested,
    FlattenNode, Toc,
};

verus! {

/// The kind of a callout.
#[derive(Clone, Copy, Debug, PartialEq, Eq, Structural)]
pub enum NoteKind {
    Note,
    Summary,
    Quote,
    Question,
    Toc,
    Todo,
}

impl Default for NoteKind {
    fn default() -> (r: NoteKind)
        ensures
            r == NoteKind::Note,
    {
        NoteKind::Note
    }
}

/// A heading-delimited group of blocks.
#[derive(Debug, PartialEq)]
pub struct Section {
    pub title: String,
    pub children: Vec<Block>,
}

/// A callout: a block quote with a kind and an optional title.
#[derive(Debug, PartialEq)]
pub struct Card {
    pub kind: NoteKind,
    pub title: Option<String>,
    pub children: Vec<Block>,
}

/// A block of a note's body.
#[derive(Debug, PartialEq)]
pub enum Block {
    Empty,
    /// Content before the first top-level heading.
    AnonymousSection(Vec<Block>),
    Section(Section),
    Card(Card),
    /// A leaf followed by a blank line.
    Text(String),
    /// A leaf followed by a single line break.
    Single(String),
    /// A table of contents, as (depth, label) entries.
    Toc(Vec<FlattenNode>),
}

/// A note: optional metadata and a body of blocks.
#[derive(Debug, PartialEq)]
pub struct Note {
    pub metadata: Option<Metadata>,
    pub body: Vec<Block>,
}

impl Section {
    pub fn new(title: &str, children: Vec<Block>) -> (r: Section)
        ensures
            r.title@ == title@,
            r.children == children,
    {
        Section { title: title.to_string(), children }
    }
}

impl Block {
    pub fn anonymous_section(children: Vec<Block>) -> (r: Block)
        ensures
            r == Block::AnonymousSection(children),
    {
        Block::AnonymousSection(children)
    }

    pub fn section(title: &str, children: Vec<Block>) -> (r: Block)
        ensures
            r matches Block::Section(s) && s.title@ == title@ && s.children == children,
    {
        Block::Section(Section { title: title.to_string(), children })
    }

    pub fn toc(children: Vec<FlattenNode>) -> (r: Block)
        ensures
            r == Block::Toc(children),
    {
        Block::Toc(children)
    }

    pub fn card(kind: NoteKind, title: Option<String>, children: Vec<Block>) -> (r: Block)
        ensures
            r == Block::Card(Card { kind, title, children }),
    {
        Block::Card(Card { kind, title, children })
    }

    pub fn single(text: &str) -> (r: Block)
        ensures
            r matches Block::Single(s) && s@ == text@,
    {
        Block::Single(text.to_string())
    }

    pub fn text(text: &str) -> (r: Block)
        ensures
            r matches Block::Text(s) && s@ == text@,
    {
        Block::Text(text.to_string())
    }
}

/// A block as a mathematical value.
pub enum BlockView {
    Empty,
    AnonymousSection(Seq<BlockView>),
    Section(Seq<char>, Seq<BlockView>),
    Card(NoteKind, Option<Seq<char>>, Seq<BlockView>),
    Text(Seq<char>),
    Single(Seq<char>),
    Toc(Seq<(nat, Seq<char>)>),
}

pub open spec fn opt_view(o: Option<String>) -> Option<Seq<char>> {
    match o {
        Some(s) => Some(s@),
        None => None,
    }
}

pub open spec fn block_view(b: Block) -> BlockView
    decreases b, 1nat,
{
    match b {
        Block::Empty => BlockView::Empty,
        Block::AnonymousSection(c) => BlockView::AnonymousSection(block_views(c@)),
        Block::Section(s) => BlockView::Section(s.title@, block_views(s.children@)),
        Block::Card(c) => BlockView::Card(c.kind, opt_view(c.title), block_views(c.children@)),
        Block::Text(s) => BlockView::Text(s@),
        Block::Single(s) => BlockView::Single(s@),
        Block::Toc(e) => BlockView::Toc(flat_views(e@)),
    }
}

pub open spec fn block_views(s: Seq<Block>) -> Seq<BlockView>
    decreases s, 0nat,
{
    if s.len() == 0 {
        Seq::empty()
    } else {
        block_views(s.subrange(0, s.len() - 1)).push(block_view(s[s.len() - 1]))
    }
}

pub proof fn lemma_block_views_push(s: Seq<Block>, b: Block)
    ensures
        block_views(s.push(b)) == block_views(s).push(block_view(b)),
{
    assert(s.push(b).subrange(0, s.len() as int) =~= s);
}

/// The table-of-contents entries that normalization puts in front of the
/// body: the flattened outline of the metadata's outline text.
pub open spec fn toc_entries(md: Option<Metadata>) -> Seq<(nat, Seq<char>)> {
    match md {
        Some(Metadata::Meta(m)) => match outline_text(m) {
            Some(t) => flatten_forest(outline(t@), 1),
            None => Seq::empty(),
        },
        _ => Seq::empty(),
    }
}

pub open spec fn normalized_opt(md: Option<Metadata>) -> Option<Metadata> {
    match md {
        Some(m) => normalized_metadata(m),
        None => None,
    }
}

/// The table of contents that normalization puts in front of the body can
/// be read back as a forest rooted at depth one.
pub proof fn lemma_toc_entries_well_nested(md: Option<Metadata>)
    ensures
        well_nested(toc_entries(md), 1),
{
    match md {
        Some(Metadata::Meta(m)) => match outline_text(m) {
            Some(t) => lemma_flatten_forest_well_nested(outline(t@), 1),
            None => {},
        },
        _ => {},
    }
}

/// Normalizing a normalized note changes nothing: no table of contents
/// is put in front again, and the metadata stays as it is.
pub proof fn lemma_note_normalize_idempotent(md: Option<Metadata>)
    ensures
        toc_entries(normalized_opt(md)).len() == 0,
        normalized_opt(normalized_opt(md)) == normalized_opt(md),
{
    match md {
        Some(Metadata::Meta(m)) => {
            if normalized_meta(m) is Some {
                lemma_normalize_idempotent(m);
            }
        },
        _ => {},
    }
}

impl Note {
    pub fn new(metadata: Option<Metadata>, body: Vec<Block>) -> (r: Note)
        ensures
            r.metadata == metadata,
            r.body == body,
    {
        Note { metadata, body }
    }

    /// Normalizes the metadata, and puts the table of contents that its
    /// outline text describes, where there is one, in front of the body.
    pub fn normalize(self) -> (r: Note)
        ensures
            r.metadata == normalized_opt(self.metadata),
            (self.metadata matches Some(m) && metadata_wf(m)) ==> (r.metadata matches Some(n)
                ==> metadata_wf(n)),
            toc_entries(self.metadata).len() == 0 ==> r.body@ == self.body@,
            toc_entries(self.metadata).len() > 0 ==> {
                &&& r.body@.len() == self.body@.len() + 1
                &&& r.body@[0] matches Block::Toc(v) && flat_views(v@) == toc_entries(
                    self.metadata,
                )
                &&& r.body@.subrange(1, r.body@.len() as int) == self.body@
            },
    {
        let Note { metadata, body: mut old_body } = self;
        let ghost body0 = old_body@;
        let mut body: Vec<Block> = Vec::new();
        match &metadata {
            Some(Metadata::Meta(m)) => {
                let text: Option<&String> = match &m.bookmark {
                    Some(Bookmark { toc: Some(t), .. }) => Some(t),
                    _ => match &m.toc {
                        Some(t) => Some(t),
                        None => None,
                    },
                };
                match text {
                    Some(t) => {
                        let entries = Toc::parse(t.as_str()).flatten();
                        if entries.len() > 0 {
                            body.push(Block::Toc(entries));
                        }
                    },
                    None => {},
                }
            },
            _ => {},
        }
        let ghost head = body@;
        body.append(&mut old_body);
        assert(body@.subrange(head.len() as int, body@.len() as int) =~= body0);
        let metadata = match metadata {
            Some(m) => m.normalize(),
            None => None,
        };
        Note { metadata, body }
    }
}

} // verus!
