//! Output chunks: text followed by one line break or by a blank line.

use vstd::prelude::*;

use crate::text::{chars_of, push_all, string_of, trim, trim_chars};

verus! {

/// A piece of output and the spacing that follows it.
#[derive(Debug, PartialEq)]
pub enum Chunk {
    /// Followed by a line break.
    Single(String),
    /// Followed by a blank line.
    Double(String),
}

/// A chunk as text and spacing.
pub enum ChunkView {
    Single(Seq<char>),
    Double(Seq<char>),
}

pub open spec fn chunk_view(c: Chunk) -> ChunkView {
    match c {
        Chunk::Single(s) => ChunkView::Single(s@),
        Chunk::Double(s) => ChunkView::Double(s@),
    }
}

pub open spec fn chunk_views(s: Seq<Chunk>) -> Seq<ChunkView> {
    s.map_values(|c: Chunk| chunk_view(c))
}

/// A chunk with the spacing after it.
pub open spec fn chunk_text(c: ChunkView) -> Seq<char> {
    match c {
        ChunkView::Single(s) => s.push('\n'),
        ChunkView::Double(s) => s.push('\n').push('\n'),
    }
}

/// The chunks one after the other, each with its spacing.
pub open spec fn chunks_text(cs: Seq<ChunkView>) -> Seq<char>
    decreases cs.len(),
{
    if cs.len() == 0 {
        Seq::empty()
    } else {
        chunks_text(cs.drop_last()) + chunk_text(cs.last())
    }
}

/// The printed chunks: spaced, then trimmed.
pub open spec fn printed(cs: Seq<ChunkView>) -> Seq<char> {
    trim(chunks_text(cs))
}

/// Collects chunks and prints them.
pub struct ChunkPrinter(pub Vec<Chunk>);

impl ChunkPrinter {
    pub fn new() -> (r: ChunkPrinter)
        ensures
            r.0@.len() == 0,
    {
        ChunkPrinter(Vec::new())
    }

    pub fn push(&mut self, v: Chunk)
        ensures
            final(self).0@ == old(self).0@.push(v),
    {
        self.0.push(v);
    }

    /// The chunks' text, trimmed.
    pub fn print(&self) -> (r: String)
        ensures
            r@ == printed(chunk_views(self.0@)),
    {
        let v = self.print_chars();
        string_of(&v)
    }

    pub fn print_chars(&self) -> (r: Vec<char>)
        ensures
            r@ == printed(chunk_views(self.0@)),
    {
        let mut res: Vec<char> = Vec::new();
        let mut i: usize = 0;
        while i < self.0.len()
            invariant
                i <= self.0.len(),
                res@ == chunks_text(chunk_views(self.0@).subrange(0, i as int)),
            decreases self.0.len() - i,
        {
            let ghost before = chunk_views(self.0@).subrange(0, i as int);
            match &self.0[i] {
                Chunk::Single(s) => {
                    let v = chars_of(s.as_str());
                    push_all(&mut res, &v);
                    res.push('\n');
                },
                Chunk::Double(s) => {
                    let v = chars_of(s.as_str());
                    push_all(&mut res, &v);
                    res.push('\n');
                    res.push('\n');
                },
            }
            i = i + 1;
            assert(chunk_views(self.0@).subrange(0, i as int).drop_last() =~= before);
        }
        assert(chunk_views(self.0@).subrange(0, self.0.len() as int) =~= chunk_views(self.0@));
        trim_chars(&res)
    }
}

} // verus!
