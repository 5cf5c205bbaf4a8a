//! The note printer: a normalized note as canonical Markdown text.

use vstd::prelude::*;

use crate::chunk::{chunk_view, chunk_views, printed, Chunk, ChunkPrinter, ChunkView};
use crate::metadata::Metadata;
use crate::model::{Block, Card, Note, NoteKind, Section};
use crate::render::{indent, quote_line, sat_dec, sat_inc};
use crate::text::{
    chars_of, join, join_chars, same_chars, lines, push_all, push_str, repeat, repeat_chars, string_of,
    trim_end, trim_end_chars, views,
};
use crate::toc::{flat_views, lines_chars, FlattenNode};

verus! {

/// A heading line of the given depth.
pub open spec fn heading_text(depth: nat, title: Seq<char>) -> Seq<char> {
    repeat(seq!['#'], depth) + seq![' '] + title
}

/// `text` block-quoted: each line prefixed with `> `, a blank line with
/// `>`, and a line break at the end.
pub open spec fn block_quote_text(text: Seq<char>) -> Seq<char> {
    join(lines(trim_end(text)).map_values(|l: Seq<char>| quote_line(l)), seq!['\n']).push('\n')
}

/// The name of a kind, as callouts write it.
pub open spec fn kind_name(k: NoteKind) -> Seq<char> {
    match k {
        NoteKind::Note => seq!['n', 'o', 't', 'e'],
        NoteKind::Summary => seq!['s', 'u', 'm', 'm', 'a', 'r', 'y'],
        NoteKind::Quote => seq!['q', 'u', 'o', 't', 'e'],
        NoteKind::Question => seq!['q', 'u', 'e', 's', 't', 'i', 'o', 'n'],
        NoteKind::Toc => seq!['t', 'o', 'c'],
        NoteKind::Todo => seq!['t', 'o', 'd', 'o'],
    }
}

/// The first line of a card: `[!kind]`, then the title after a space.
pub open spec fn kind_line(k: NoteKind, title: Option<String>) -> Seq<char> {
    seq!['[', '!'] + kind_name(k) + seq![']'] + match title {
        Some(t) => seq![' '] + t@,
        None => Seq::empty(),
    }
}

/// One entry of a table of contents: quoted, indented by its depth.
pub open spec fn toc_line(e: (nat, Seq<char>)) -> Seq<char> {
    seq!['>', ' '] + indent(sat_dec(e.0)) + seq!['-', ' '] + e.1
}

/// A table of contents: the `[!toc]` marker, then one line per entry.
pub open spec fn toc_text(entries: Seq<(nat, Seq<char>)>) -> Seq<char> {
    seq!['>', ' ', '[', '!', 't', 'o', 'c', ']', '\n'] + join(
        entries.map_values(|e: (nat, Seq<char>)| toc_line(e)),
        seq!['\n'],
    )
}

/// The chunks that a block emits at heading depth `depth`.
pub open spec fn block_chunks(b: Block, depth: nat) -> Seq<ChunkView>
    decreases b, 1nat,
{
    match b {
        Block::Empty => Seq::empty(),
        Block::AnonymousSection(c) => blocks_chunks(c@, sat_inc(depth)),
        Block::Section(s) => seq![ChunkView::Single(heading_text(depth, s.title@))] + blocks_chunks(
            s.children@,
            sat_inc(depth),
        ),
        Block::Card(c) => seq![
            ChunkView::Single(
                block_quote_text(
                    printed(
                        seq![ChunkView::Single(kind_line(c.kind, c.title))] + blocks_chunks(
                            c.children@,
                            1,
                        ),
                    ),
                ),
            ),
        ],
        Block::Text(s) => seq![ChunkView::Double(s@)],
        Block::Single(s) => seq![ChunkView::Single(s@)],
        Block::Toc(entries) => seq![ChunkView::Double(toc_text(flat_views(entries@)))],
    }
}

/// The chunks of sibling blocks, in order.
pub open spec fn blocks_chunks(s: Seq<Block>, depth: nat) -> Seq<ChunkView>
    decreases s, 0nat,
{
    if s.len() == 0 {
        Seq::empty()
    } else {
        blocks_chunks(s.subrange(0, s.len() - 1), depth) + block_chunks(s[s.len() - 1], depth)
    }
}

/// The frontmatter text of metadata: raw text as it was, decoded metadata
/// as its encoding `encoded`.
pub open spec fn metadata_text(m: Metadata, encoded: Seq<char>) -> Seq<char> {
    match m {
        Metadata::Raw(v) => v@.push('\n'),
        Metadata::Meta(_) => encoded,
    }
}

/// The chunks of a whole note: the frontmatter, then the body from depth one.
pub open spec fn note_chunks(n: Note, encoded: Seq<char>) -> Seq<ChunkView> {
    let head = match n.metadata {
        Some(m) => seq![
            ChunkView::Single(
                seq!['-', '-', '-', '\n'] + metadata_text(m, encoded) + seq!['-', '-', '-'],
            ),
        ],
        None => Seq::empty(),
    };
    head + blocks_chunks(n.body@, 1)
}

/// The canonical text of a note: its chunks printed, with one final line
/// break.
pub open spec fn note_text(n: Note, encoded: Seq<char>) -> Seq<char> {
    printed(note_chunks(n, encoded)).push('\n')
}

proof fn lemma_blocks_prefix(s: Seq<Block>, i: int, depth: nat)
    requires
        0 <= i < s.len(),
    ensures
        blocks_chunks(s.subrange(0, i + 1), depth) == blocks_chunks(s.subrange(0, i), depth)
            + block_chunks(s[i], depth),
{
    assert(s.subrange(0, i + 1).subrange(0, i) =~= s.subrange(0, i));
}

/// A heading line of the given depth.
pub fn heading(depth: usize, value: &str) -> (r: String)
    ensures
        r@ == heading_text(depth as nat, value@),
{
    let v = heading_chars(depth, value);
    string_of(&v)
}

fn heading_chars(depth: usize, value: &str) -> (r: Vec<char>)
    ensures
        r@ == heading_text(depth as nat, value@),
{
    let hash: Vec<char> = vec!['#'];
    assert(hash@ =~= seq!['#']);
    let mut out = repeat_chars(&hash, depth);
    out.push(' ');
    push_str(&mut out, value);
    assert(out@ =~= heading_text(depth as nat, value@));
    out
}

/// `text` block-quoted line by line.
pub fn block_quote(text: &str) -> (r: String)
    ensures
        r@ == block_quote_text(text@),
{
    let v = chars_of(text);
    let q = block_quote_chars(&v);
    string_of(&q)
}

fn block_quote_chars(text: &Vec<char>) -> (r: Vec<char>)
    ensures
        r@ == block_quote_text(text@),
{
    let t = trim_end_chars(text);
    let ls = lines_chars(&t);
    let ghost ps = views(ls@);
    let mut quoted: Vec<Vec<char>> = Vec::new();
    let mut i: usize = 0;
    while i < ls.len()
        invariant
            i <= ls.len(),
            ps == views(ls@),
            views(quoted@) == ps.subrange(0, i as int).map_values(|l: Seq<char>| quote_line(l)),
        decreases ls.len() - i,
    {
        let line = if ls[i].len() == 0 {
            vec!['>']
        } else {
            let mut l: Vec<char> = vec!['>', ' '];
            push_all(&mut l, &ls[i]);
            l
        };
        assert(line@ =~= quote_line(ps[i as int]));
        let ghost o = quoted@;
        quoted.push(line);
        assert(views(quoted@) =~= views(o).push(line@));
        assert(ps.subrange(0, i + 1) =~= ps.subrange(0, i as int).push(ps[i as int]));
        i = i + 1;
    }
    assert(ps.subrange(0, ls.len() as int) =~= ps);
    let nl: Vec<char> = vec!['\n'];
    assert(nl@ =~= seq!['\n']);
    let mut out = join_chars(&quoted, &nl);
    out.push('\n');
    out
}

/// The printing state: the chunks emitted so far and the current heading
/// depth.
pub struct VisitorContext {
    chunks: ChunkPrinter,
    depth: usize,
}

impl View for VisitorContext {
    type V = (nat, Seq<ChunkView>);

    closed spec fn view(&self) -> (nat, Seq<ChunkView>) {
        (self.depth as nat, chunk_views(self.chunks.0@))
    }
}

impl VisitorContext {
    pub fn new(depth: usize) -> (r: VisitorContext)
        ensures
            r@ == (depth as nat, Seq::<ChunkView>::empty()),
    {
        let chunks = ChunkPrinter::new();
        let r = VisitorContext { chunks, depth };
        assert(chunk_views(r.chunks.0@) =~= Seq::<ChunkView>::empty());
        r
    }

    pub fn get_depth(&self) -> (r: usize)
        ensures
            r as nat == self@.0,
    {
        self.depth
    }

    /// A fresh context at the same depth.
    pub fn sub(&self) -> (r: VisitorContext)
        ensures
            r@ == (self@.0, Seq::<ChunkView>::empty()),
    {
        Self::new(self.depth)
    }

    pub fn push(&mut self, chunk: Chunk)
        ensures
            final(self)@ == (old(self)@.0, old(self)@.1.push(chunk_view(chunk))),
    {
        self.chunks.push(chunk);
        assert(chunk_views(self.chunks.0@) =~= old(self)@.1.push(chunk_view(chunk)));
    }

    /// Visits the blocks one heading level deeper.
    pub fn dive(&mut self, children: &Vec<Block>)
        ensures
            final(self)@ == (old(self)@.0, old(self)@.1 + blocks_chunks(
                children@,
                sat_inc(old(self)@.0),
            )),
        decreases children, 1nat,
    {
        let d = self.depth;
        self.depth = if d < usize::MAX {
            d + 1
        } else {
            d
        };
        self.visit_all(children);
        self.depth = d;
    }

    fn visit_all(&mut self, children: &Vec<Block>)
        ensures
            final(self)@ == (old(self)@.0, old(self)@.1 + blocks_chunks(children@, old(self)@.0)),
        decreases children, 0nat,
    {
        let ghost start = self@;
        let mut i: usize = 0;
        assert(children@.subrange(0, 0) =~= Seq::<Block>::empty());
        assert(start.1 + blocks_chunks(Seq::<Block>::empty(), start.0) =~= start.1);
        while i < children.len()
            invariant
                i <= children.len(),
                self@ == (start.0, start.1 + blocks_chunks(children@.subrange(0, i as int), start.0)),
            decreases children.len() - i,
        {
            children[i].visit(self);
            proof {
                lemma_blocks_prefix(children@, i as int, start.0);
            }
            i = i + 1;
            assert(self@.1 =~= start.1 + blocks_chunks(children@.subrange(0, i as int), start.0));
        }
        assert(children@.subrange(0, children.len() as int) =~= children@);
    }

    pub fn print(&self) -> (r: String)
        ensures
            r@ == printed(self@.1),
    {
        self.chunks.print()
    }

    fn print_chars(&self) -> (r: Vec<char>)
        ensures
            r@ == printed(self@.1),
    {
        self.chunks.print_chars()
    }
}

/// The name of a kind, as callouts write it.
pub fn kind_chars(k: NoteKind) -> (r: Vec<char>)
    ensures
        r@ == kind_name(k),
{
    let r: Vec<char> = match k {
        NoteKind::Note => vec!['n', 'o', 't', 'e'],
        NoteKind::Summary => vec!['s', 'u', 'm', 'm', 'a', 'r', 'y'],
        NoteKind::Quote => vec!['q', 'u', 'o', 't', 'e'],
        NoteKind::Question => vec!['q', 'u', 'e', 's', 't', 'i', 'o', 'n'],
        NoteKind::Toc => vec!['t', 'o', 'c'],
        NoteKind::Todo => vec!['t', 'o', 'd', 'o'],
    };
    assert(r@ =~= kind_name(k));
    r
}

/// The kind a name stands for; note for any other text.
pub open spec fn kind_of_name(n: Seq<char>) -> NoteKind {
    if n == kind_name(NoteKind::Summary) {
        NoteKind::Summary
    } else if n == kind_name(NoteKind::Quote) {
        NoteKind::Quote
    } else if n == kind_name(NoteKind::Question) {
        NoteKind::Question
    } else if n == kind_name(NoteKind::Toc) {
        NoteKind::Toc
    } else if n == kind_name(NoteKind::Todo) {
        NoteKind::Todo
    } else {
        NoteKind::Note
    }
}

impl NoteKind {
    /// The kind a name stands for; note for any other text.
    pub fn from_name(s: &str) -> (r: NoteKind)
        ensures
            r == kind_of_name(s@),
    {
        let v = chars_of(s);
        if same_chars(&v, &kind_chars(NoteKind::Summary)) {
            NoteKind::Summary
        } else if same_chars(&v, &kind_chars(NoteKind::Quote)) {
            NoteKind::Quote
        } else if same_chars(&v, &kind_chars(NoteKind::Question)) {
            NoteKind::Question
        } else if same_chars(&v, &kind_chars(NoteKind::Toc)) {
            NoteKind::Toc
        } else if same_chars(&v, &kind_chars(NoteKind::Todo)) {
            NoteKind::Todo
        } else {
            NoteKind::Note
        }
    }

    /// The kind's name, as callouts and frontmatter write it.
    pub fn name(&self) -> (r: String)
        ensures
            r@ == kind_name(*self),
    {
        let v = kind_chars(*self);
        string_of(&v)
    }
}

fn toc_chars(entries: &Vec<FlattenNode>) -> (r: Vec<char>)
    ensures
        r@ == toc_text(flat_views(entries@)),
{
    let ghost es = flat_views(entries@);
    let mut lines: Vec<Vec<char>> = Vec::new();
    let mut i: usize = 0;
    while i < entries.len()
        invariant
            i <= entries.len(),
            es == flat_views(entries@),
            views(lines@) == es.subrange(0, i as int).map_values(
                |e: (nat, Seq<char>)| toc_line(e),
            ),
        decreases entries.len() - i,
    {
        let e = &entries[i];
        let unit: Vec<char> = vec![' ', ' ', ' ', ' '];
        assert(unit@ =~= seq![' ', ' ', ' ', ' ']);
        let d = if e.0 > 0 {
            e.0 - 1
        } else {
            0
        };
        let mut line: Vec<char> = vec!['>', ' '];
        let ind = repeat_chars(&unit, d);
        push_all(&mut line, &ind);
        line.push('-');
        line.push(' ');
        push_str(&mut line, e.1.as_str());
        assert(line@ =~= toc_line(es[i as int]));
        let ghost o = lines@;
        lines.push(line);
        assert(views(lines@) =~= views(o).push(line@));
        assert(es.subrange(0, i + 1) =~= es.subrange(0, i as int).push(es[i as int]));
        i = i + 1;
    }
    assert(es.subrange(0, entries.len() as int) =~= es);
    let nl: Vec<char> = vec!['\n'];
    assert(nl@ =~= seq!['\n']);
    let body = join_chars(&lines, &nl);
    let mut out: Vec<char> = vec!['>', ' ', '[', '!', 't', 'o', 'c', ']', '\n'];
    push_all(&mut out, &body);
    assert(out@ =~= toc_text(es));
    out
}

/// Where printing a block on its own starts.
pub struct BlockPrinterOptions {
    pub depth: usize,
}

impl Block {
    /// Emits the block's chunks at the context's depth.
    pub fn visit(&self, context: &mut VisitorContext)
        ensures
            final(context)@ == (old(context)@.0, old(context)@.1 + block_chunks(
                *self,
                old(context)@.0,
            )),
        decreases self,
    {
        let ghost start = context@;
        match self {
            Block::Empty => {
                assert(start.1 + Seq::<ChunkView>::empty() =~= start.1);
            },
            Block::AnonymousSection(children) => {
                context.dive(children);
            },
            Block::Section(Section { title, children }) => {
                let h = heading(context.get_depth(), title.as_str());
                context.push(Chunk::Single(h));
                context.dive(children);
                assert(context@.1 =~= start.1 + block_chunks(*self, start.0));
            },
            Block::Card(Card { kind, title, children }) => {
                let mut sub = VisitorContext::new(1);
                let mut first = vec!['[', '!'];
                let name = kind_chars(*kind);
                push_all(&mut first, &name);
                first.push(']');
                match title {
                    Some(t) => {
                        first.push(' ');
                        push_str(&mut first, t.as_str());
                    },
                    None => {},
                }
                assert(first@ =~= kind_line(*kind, *title));
                sub.push(Chunk::Single(string_of(&first)));
                sub.visit_all(children);
                let inner = sub.print_chars();
                let quoted = block_quote_chars(&inner);
                context.push(Chunk::Single(string_of(&quoted)));
                assert(seq![ChunkView::Single(kind_line(*kind, *title))] + blocks_chunks(
                    children@,
                    1,
                ) =~= sub@.1);
                assert(context@.1 =~= start.1 + block_chunks(*self, start.0));
            },
            Block::Text(s) => {
                context.push(Chunk::Double(s.clone()));
                assert(context@.1 =~= start.1 + block_chunks(*self, start.0));
            },
            Block::Single(s) => {
                context.push(Chunk::Single(s.clone()));
                assert(context@.1 =~= start.1 + block_chunks(*self, start.0));
            },
            Block::Toc(entries) => {
                let t = toc_chars(entries);
                context.push(Chunk::Double(string_of(&t)));
                assert(context@.1 =~= start.1 + block_chunks(*self, start.0));
            },
        }
    }

    /// The block printed on its own from the depth the options give.
    pub fn print(&self, options: BlockPrinterOptions) -> (r: String)
        ensures
            r@ == printed(block_chunks(*self, options.depth as nat)),
    {
        let depth = options.depth;
        let mut context = VisitorContext::new(depth);
        self.visit(&mut context);
        assert(Seq::<ChunkView>::empty() + block_chunks(*self, depth as nat) =~= block_chunks(
            *self,
            depth as nat,
        ));
        context.print()
    }
}

impl Note {
    /// The note's canonical text. `encoded` is the YAML encoding of the
    /// note's decoded metadata, each line ending in a line break; raw
    /// metadata is printed as it was.
    pub fn print(&self, encoded: &str) -> (r: String)
        ensures
            r@ == note_text(*self, encoded@),
    {
        let mut context = VisitorContext::new(1);
        match &self.metadata {
            Some(m) => {
                let mut fm: Vec<char> = vec!['-', '-', '-', '\n'];
                match m {
                    Metadata::Raw(v) => {
                        push_str(&mut fm, v.as_str());
                        fm.push('\n');
                    },
                    Metadata::Meta(_) => {
                        push_str(&mut fm, encoded);
                    },
                }
                fm.push('-');
                fm.push('-');
                fm.push('-');
                assert(fm@ =~= seq!['-', '-', '-', '\n'] + metadata_text(*m, encoded@) + seq![
                    '-',
                    '-',
                    '-',
                ]);
                context.push(Chunk::Single(string_of(&fm)));
            },
            None => {},
        }
        context.visit_all(&self.body);
        assert(context@.1 =~= note_chunks(*self, encoded@));
        let mut out = context.print_chars();
        out.push('\n');
        string_of(&out)
    }
}

} // verus!
