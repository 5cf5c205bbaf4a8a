//! A debugging view of a note's body: one line per block, indented by
//! nesting.

use vstd::prelude::*;

use crate::model::{Block, Card, Section};
use crate::printer::{kind_chars, kind_name};
use crate::render::sat_inc;
use crate::text::{decimal, decimal_chars, join, join_chars, push_all, push_str, repeat, repeat_chars, string_of, views};
use crate::toc::{flat_views, sat_add, FlattenNode};

verus! {

pub open spec fn pad(n: nat) -> Seq<char> {
    repeat(seq![' ', ' '], n)
}

pub open spec fn tag(name: Seq<char>) -> Seq<char> {
    seq!['['] + name + seq![']']
}

/// A block's debugging view at nesting `depth`.
pub open spec fn debug_text(b: Block, depth: nat) -> Seq<char>
    decreases b, 1nat,
{
    match b {
        Block::Empty => Seq::empty(),
        Block::AnonymousSection(c) => pad(depth) + seq![
            '[', 'A', 'n', 'o', 'n', 'y', 'm', 'o', 'u', 's', 'S', 'e', 'c', 't', 'i', 'o', 'n', ']',
            '\n',
        ] + pad(depth) + join(debug_all(c@, sat_inc(depth)), seq!['\n']) + seq!['\n'],
        Block::Section(s) => pad(depth) + seq!['[', 'S', 'e', 'c', 't', 'i', 'o', 'n', ']', ' ']
            + s.title@ + seq!['\n'] + pad(depth) + join(debug_all(s.children@, sat_inc(depth)), seq!['\n'])
            + seq!['\n'],
        Block::Card(c) => pad(depth) + seq!['[', 'c', 'a', 'r', 'd', ']', ' '] + kind_name(c.kind)
            + seq!['\n'] + pad(depth) + join(debug_all(c.children@, sat_inc(depth)), seq!['\n'])
            + seq!['\n'],
        Block::Toc(e) => decimal(depth) + seq!['[', 't', 'o', 'c', ']', '\n'] + join(
            flat_views(e@).map_values(|x: (nat, Seq<char>)| pad(sat_add(depth, x.0)) + x.1),
            seq!['\n'],
        ),
        Block::Text(s) => pad(depth) + seq!['[', 'T', 'e', 'x', 't', ']', ' '] + s@ + seq!['\n'],
        Block::Single(s) => pad(depth) + seq!['[', 'S', 'i', 'n', 'g', 'l', 'e', ']', ' '] + s@
            + seq!['\n'],
    }
}

/// The debugging views of sibling blocks.
pub open spec fn debug_all(s: Seq<Block>, depth: nat) -> Seq<Seq<char>>
    decreases s, 0nat,
{
    if s.len() == 0 {
        Seq::empty()
    } else {
        debug_all(s.subrange(0, s.len() - 1), depth).push(debug_text(s[s.len() - 1], depth))
    }
}

fn pad_chars(n: usize) -> (r: Vec<char>)
    ensures
        r@ == pad(n as nat),
{
    let unit: Vec<char> = vec![' ', ' '];
    assert(unit@ =~= seq![' ', ' ']);
    repeat_chars(&unit, n)
}

fn children_to_string(children: &Vec<Block>, depth: usize) -> (r: Vec<char>)
    ensures
        r@ == pad(depth as nat) + join(debug_all(children@, sat_inc(depth as nat)), seq!['\n']),
    decreases children,
{
    let d: usize = if depth < usize::MAX {
        depth + 1
    } else {
        depth
    };
    let mut parts: Vec<Vec<char>> = Vec::new();
    let mut i: usize = 0;
    assert(children@.subrange(0, 0) =~= Seq::<Block>::empty());
    assert(views(parts@) =~= Seq::<Seq<char>>::empty());
    while i < children.len()
        invariant
            i <= children.len(),
            d as nat == sat_inc(depth as nat),
            views(parts@) == debug_all(children@.subrange(0, i as int), d as nat),
        decreases children.len() - i,
    {
        let x = debug_chars(&children[i], d);
        let ghost o = parts@;
        parts.push(x);
        assert(views(parts@) =~= views(o).push(x@));
        assert(children@.subrange(0, i + 1).subrange(0, i as int) =~= children@.subrange(0, i as int));
        i = i + 1;
    }
    assert(children@.subrange(0, children.len() as int) =~= children@);
    let nl: Vec<char> = vec!['\n'];
    assert(nl@ =~= seq!['\n']);
    let body = join_chars(&parts, &nl);
    let mut out = pad_chars(depth);
    push_all(&mut out, &body);
    out
}

fn debug_chars(b: &Block, depth: usize) -> (r: Vec<char>)
    ensures
        r@ == debug_text(*b, depth as nat),
    decreases b,
{
    match b {
        Block::Empty => Vec::new(),
        Block::AnonymousSection(c) => {
            let mut out = pad_chars(depth);
            push_str(&mut out, "[AnonymousSection]\n");
            proof {
                reveal_strlit("[AnonymousSection]\n");
            }
            let kids = children_to_string(c, depth);
            push_all(&mut out, &kids);
            out.push('\n');
            assert(out@ =~= debug_text(*b, depth as nat));
            out
        },
        Block::Section(Section { title, children }) => {
            let mut out = pad_chars(depth);
            push_str(&mut out, "[Section] ");
            proof {
                reveal_strlit("[Section] ");
            }
            push_str(&mut out, title.as_str());
            out.push('\n');
            let kids = children_to_string(children, depth);
            push_all(&mut out, &kids);
            out.push('\n');
            assert(out@ =~= debug_text(*b, depth as nat));
            out
        },
        Block::Card(Card { kind, title: _, children }) => {
            let mut out = pad_chars(depth);
            push_str(&mut out, "[card] ");
            proof {
                reveal_strlit("[card] ");
            }
            let name = kind_chars(*kind);
            push_all(&mut out, &name);
            out.push('\n');
            let kids = children_to_string(children, depth);
            push_all(&mut out, &kids);
            out.push('\n');
            assert(out@ =~= debug_text(*b, depth as nat));
            out
        },
        Block::Toc(entries) => {
            let ghost es = flat_views(entries@);
            let mut lines: Vec<Vec<char>> = Vec::new();
            let mut i: usize = 0;
            while i < entries.len()
                invariant
                    i <= entries.len(),
                    es == flat_views(entries@),
                    views(lines@) == es.subrange(0, i as int).map_values(
                        |x: (nat, Seq<char>)| pad(sat_add(depth as nat, x.0)) + x.1,
                    ),
                decreases entries.len() - i,
            {
                let e: &FlattenNode = &entries[i];
                let n: usize = if depth <= usize::MAX - e.0 {
                    depth + e.0
                } else {
                    usize::MAX
                };
                let mut line = pad_chars(n);
                push_str(&mut line, e.1.as_str());
                let ghost o = lines@;
                lines.push(line);
                assert(views(lines@) =~= views(o).push(line@));
                assert(es.subrange(0, i + 1) =~= es.subrange(0, i as int).push(es[i as int]));
                i = i + 1;
            }
            assert(es.subrange(0, entries.len() as int) =~= es);
            let mut out = decimal_chars(depth);
            push_str(&mut out, "[toc]\n");
            proof {
                reveal_strlit("[toc]\n");
            }
            let nl: Vec<char> = vec!['\n'];
            assert(nl@ =~= seq!['\n']);
            let body = join_chars(&lines, &nl);
            push_all(&mut out, &body);
            assert(out@ =~= debug_text(*b, depth as nat));
            out
        },
        Block::Text(s) => {
            let mut out = pad_chars(depth);
            push_str(&mut out, "[Text] ");
            proof {
                reveal_strlit("[Text] ");
            }
            push_str(&mut out, s.as_str());
            out.push('\n');
            assert(out@ =~= debug_text(*b, depth as nat));
            out
        },
        Block::Single(s) => {
            let mut out = pad_chars(depth);
            push_str(&mut out, "[Single] ");
            proof {
                reveal_strlit("[Single] ");
            }
            push_str(&mut out, s.as_str());
            out.push('\n');
            assert(out@ =~= debug_text(*b, depth as nat));
            out
        },
    }
}

impl Block {
    /// The block's debugging view at nesting `depth`.
    pub fn debug_print(&self, depth: usize) -> (r: String)
        ensures
            r@ == debug_text(*self, depth as nat),
    {
        let v = debug_chars(self, depth);
        string_of(&v)
    }
}

} // verus!
