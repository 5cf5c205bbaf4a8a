//! The outline recognizer: free-form outline text (ATX headings, bullets,
//! numbered items) read into a forest of labels, and the forest flattened
//! to (depth, label) pairs.

use vstd::prelude::*;

use crate::render::sat_inc;
use crate::text::{chars_of, lines, slice_chars, split, split_chars, string_of, strip_cr, views};

verus! {

/// A node of an outline, as a mathematical tree.
pub struct OutlineTree {
    pub label: Seq<char>,
    pub children: Seq<OutlineTree>,
}

/// What one line of outline text is.
pub enum OutlineLine {
    Unknown,
    /// An ATX heading line, with its level and its label.
    Heading(nat, Seq<char>),
    /// A bullet or numbered line, with its number of leading spaces and its
    /// label.
    Item(nat, Seq<char>),
}

/// The number of times `c` repeats at the start of `s`.
pub open spec fn leading(s: Seq<char>, c: char) -> nat
    decreases s.len(),
{
    if s.len() > 0 && s[0] == c {
        1 + leading(s.drop_first(), c)
    } else {
        0
    }
}

/// A run of `#`, one space, then the label; the level is the run's length.
pub open spec fn classify_heading(s: Seq<char>) -> Option<OutlineLine> {
    let k: int = leading(s, '#') as int;
    if k >= 1 && s.len() > k && s[k] == ' ' {
        Some(OutlineLine::Heading(k as nat, s.subrange(k + 1, s.len() as int)))
    } else {
        None
    }
}

/// Spaces, a dash, one space, then the label; the indentation is the
/// number of spaces.
pub open spec fn classify_bullet(s: Seq<char>) -> Option<OutlineLine> {
    let m: int = leading(s, ' ') as int;
    if s.len() > m + 1 && s[m] == '-' && s[m + 1] == ' ' {
        Some(OutlineLine::Item(m as nat, s.subrange(m + 2, s.len() as int)))
    } else {
        None
    }
}

pub open spec fn is_digit(c: char) -> bool {
    '0' <= c && c <= '9'
}

/// The number of decimal digits at the start of `s`.
pub open spec fn leading_digits(s: Seq<char>) -> nat
    decreases s.len(),
{
    if s.len() > 0 && is_digit(s[0]) {
        1 + leading_digits(s.drop_first())
    } else {
        0
    }
}

/// Spaces, one or more digits, a dot, one space, then the label; the
/// indentation is the number of spaces.
pub open spec fn classify_numbered(s: Seq<char>) -> Option<OutlineLine> {
    let m: int = leading(s, ' ') as int;
    let k: int = leading_digits(s.subrange(m, s.len() as int)) as int;
    if k >= 1 && s.len() > m + k + 1 && s[m + k] == '.' && s[m + k + 1] == ' ' {
        Some(OutlineLine::Item(m as nat, s.subrange(m + k + 2, s.len() as int)))
    } else {
        None
    }
}

/// `a + b`, or the largest machine integer where that is larger.
pub open spec fn sat_add(a: nat, b: nat) -> nat {
    if a + b <= usize::MAX {
        a + b
    } else {
        usize::MAX as nat
    }
}

/// The first of the three styles that matches, else unknown.
pub open spec fn classify(s: Seq<char>) -> OutlineLine {
    match classify_heading(s) {
        Some(l) => l,
        None => match classify_bullet(s) {
            Some(l) => l,
            None => match classify_numbered(s) {
                Some(l) => l,
                None => OutlineLine::Unknown,
            },
        },
    }
}

/// The trees read from line `i` on, under a parent at level `parent`, with
/// list indentation counted from `base`, the level of the enclosing
/// heading; and the line where reading stopped. A heading nests under the
/// nearest heading of a lower level; a list item sits one level below the
/// enclosing heading, one more for every two spaces of indentation, and
/// nests under the nearest line of a lower level.
pub open spec fn outline_from(base: nat, parent: nat, ls: Seq<OutlineLine>, i: nat) -> (nat, Seq<
    OutlineTree,
>)
    decreases ls.len() - i,
{
    if i >= ls.len() {
        (i, Seq::empty())
    } else {
        match ls[i as int] {
            OutlineLine::Unknown => outline_from(base, parent, ls, i + 1),
            OutlineLine::Heading(level, label) => {
                if level <= parent {
                    (i, Seq::empty())
                } else {
                    let sub = outline_from(level, level, ls, i + 1);
                    if i < sub.0 <= ls.len() {
                        let rest = outline_from(base, parent, ls, sub.0);
                        (rest.0, seq![OutlineTree { label, children: sub.1 }] + rest.1)
                    } else {
                        (i, Seq::empty())
                    }
                }
            },
            OutlineLine::Item(ind, label) => {
                let level = sat_add(base, ind / 2 + 1);
                if level <= parent {
                    (i, Seq::empty())
                } else {
                    let sub = outline_from(base, level, ls, i + 1);
                    if i < sub.0 <= ls.len() {
                        let rest = outline_from(base, parent, ls, sub.0);
                        (rest.0, seq![OutlineTree { label, children: sub.1 }] + rest.1)
                    } else {
                        (i, Seq::empty())
                    }
                }
            },
        }
    }
}

/// The outline forest of a sequence of lines.
pub open spec fn outline_of_lines(ls: Seq<Seq<char>>) -> Seq<OutlineTree> {
    outline_from(0, 0, ls.map_values(|l: Seq<char>| classify(l)), 0).1
}

/// The outline forest of a text.
pub open spec fn outline(text: Seq<char>) -> Seq<OutlineTree> {
    outline_of_lines(lines(text))
}

/// A tree in pre-order, its root at `depth`, each child one level deeper.
pub open spec fn flatten_tree(t: OutlineTree, depth: nat) -> Seq<(nat, Seq<char>)>
    decreases t, 1nat,
{
    seq![(depth, t.label)] + flatten_forest(t.children, sat_inc(depth))
}

/// Each tree of a forest in pre-order, in turn.
pub open spec fn flatten_forest(ts: Seq<OutlineTree>, depth: nat) -> Seq<(nat, Seq<char>)>
    decreases ts, 0nat,
{
    if ts.len() == 0 {
        Seq::empty()
    } else {
        flatten_forest(ts.subrange(0, ts.len() - 1), depth) + flatten_tree(ts[ts.len() - 1], depth)
    }
}

/// Entries that can be read back as a forest rooted at depth `d`: the
/// first at `d`, none above `d`, and none more than one level deeper than
/// the entry before it.
pub open spec fn well_nested(e: Seq<(nat, Seq<char>)>, d: nat) -> bool {
    &&& e.len() > 0 ==> e[0].0 == d
    &&& forall|i: int| 0 <= i < e.len() ==> #[trigger] e[i].0 >= d
    &&& forall|i: int| 0 < i < e.len() ==> #[trigger] e[i].0 <= e[i - 1].0 + 1
}

/// A flattened tree is well nested from its root's depth.
pub proof fn lemma_flatten_tree_well_nested(t: OutlineTree, d: nat)
    ensures
        well_nested(flatten_tree(t, d), d),
    decreases t, 1nat,
{
    let c = flatten_forest(t.children, sat_inc(d));
    lemma_flatten_forest_well_nested(t.children, sat_inc(d));
    let e = flatten_tree(t, d);
    assert(e == seq![(d, t.label)] + c);
    assert forall|i: int| 0 <= i < e.len() implies #[trigger] e[i].0 >= d by {
        if i > 0 {
            assert(e[i] == c[i - 1]);
        }
    }
    assert forall|i: int| 0 < i < e.len() implies #[trigger] e[i].0 <= e[i - 1].0 + 1 by {
        assert(e[i] == c[i - 1]);
        if i > 1 {
            assert(e[i - 1] == c[i - 2]);
        }
    }
}

/// A flattened forest is well nested from the depth of its roots.
pub proof fn lemma_flatten_forest_well_nested(ts: Seq<OutlineTree>, d: nat)
    ensures
        well_nested(flatten_forest(ts, d), d),
    decreases ts, 0nat,
{
    if ts.len() > 0 {
        let pre = ts.subrange(0, ts.len() - 1);
        lemma_flatten_forest_well_nested(pre, d);
        lemma_flatten_tree_well_nested(ts[ts.len() - 1], d);
        let a = flatten_forest(pre, d);
        let b = flatten_tree(ts[ts.len() - 1], d);
        let e = flatten_forest(ts, d);
        assert(e == a + b);
        assert forall|i: int| 0 <= i < e.len() implies #[trigger] e[i].0 >= d by {
            if i >= a.len() {
                assert(e[i] == b[i - a.len()]);
            } else {
                assert(e[i] == a[i]);
            }
        }
        assert forall|i: int| 0 < i < e.len() implies #[trigger] e[i].0 <= e[i - 1].0 + 1 by {
            if i > a.len() {
                assert(e[i] == b[i - a.len()]);
                assert(e[i - 1] == b[i - 1 - a.len()]);
            } else if i == a.len() {
                assert(e[i] == b[0]);
                assert(e[i - 1] == a[i - 1]);
            } else {
                assert(e[i] == a[i]);
                assert(e[i - 1] == a[i - 1]);
            }
        }
        if a.len() > 0 {
            assert(e[0] == a[0]);
        } else {
            assert(e[0] == b[0]);
        }
    }
}

proof fn lemma_outline_from_bounds(base: nat, parent: nat, ls: Seq<OutlineLine>, i: nat)
    requires
        i <= ls.len(),
    ensures
        i <= outline_from(base, parent, ls, i).0 <= ls.len(),
    decreases ls.len() - i,
{
    if i < ls.len() {
        match ls[i as int] {
            OutlineLine::Unknown => lemma_outline_from_bounds(base, parent, ls, i + 1),
            OutlineLine::Heading(level, label) => {
                if level > parent {
                    lemma_outline_from_bounds(level, level, ls, i + 1);
                    let sub = outline_from(level, level, ls, i + 1);
                    lemma_outline_from_bounds(base, parent, ls, sub.0);
                }
            },
            OutlineLine::Item(ind, label) => {
                if sat_add(base, ind / 2 + 1) > parent {
                    lemma_outline_from_bounds(base, sat_add(base, ind / 2 + 1), ls, i + 1);
                    let sub = outline_from(base, sat_add(base, ind / 2 + 1), ls, i + 1);
                    lemma_outline_from_bounds(base, parent, ls, sub.0);
                }
            },
        }
    }
}


/// A classified line of outline text.
#[derive(Debug, PartialEq)]
pub enum Line {
    Unknown,
    Block(usize, String),
    List(usize, String),
}

pub open spec fn line_view(l: Line) -> OutlineLine {
    match l {
        Line::Unknown => OutlineLine::Unknown,
        Line::Block(n, v) => OutlineLine::Heading(n as nat, v@),
        Line::List(n, v) => OutlineLine::Item(n as nat, v@),
    }
}

pub open spec fn line_views(s: Seq<Line>) -> Seq<OutlineLine> {
    s.map_values(|l: Line| line_view(l))
}

/// A node of an outline.
#[derive(Debug, PartialEq)]
pub struct Node {
    pub value: String,
    pub children: Vec<Node>,
}

/// An outline: the forest of its top-level nodes.
#[derive(Debug, PartialEq)]
pub struct Toc(pub Vec<Node>);

/// One entry of a flattened outline: its depth, from one, and its label.
#[derive(Debug, PartialEq)]
pub struct FlattenNode(pub usize, pub String);

pub open spec fn tree_of(n: Node) -> OutlineTree
    decreases n, 1nat,
{
    OutlineTree { label: n.value@, children: trees_of(n.children@) }
}

pub open spec fn trees_of(s: Seq<Node>) -> Seq<OutlineTree>
    decreases s, 0nat,
{
    if s.len() == 0 {
        Seq::empty()
    } else {
        trees_of(s.subrange(0, s.len() - 1)).push(tree_of(s[s.len() - 1]))
    }
}

pub open spec fn flat_views(s: Seq<FlattenNode>) -> Seq<(nat, Seq<char>)> {
    Seq::new(s.len(), |i: int| (s[i].0 as nat, s[i].1@))
}

proof fn lemma_trees_push(s: Seq<Node>, n: Node)
    ensures
        trees_of(s.push(n)) == trees_of(s).push(tree_of(n)),
{
    assert(s.push(n).subrange(0, s.len() as int) =~= s);
}

proof fn lemma_trees_prefix(s: Seq<Node>, i: int)
    requires
        0 <= i < s.len(),
    ensures
        trees_of(s.subrange(0, i + 1)) == trees_of(s.subrange(0, i)).push(tree_of(s[i])),
{
    assert(s.subrange(0, i + 1).subrange(0, i) =~= s.subrange(0, i));
}

proof fn lemma_forest_push(ts: Seq<OutlineTree>, t: OutlineTree, depth: nat)
    ensures
        flatten_forest(ts.push(t), depth) == flatten_forest(ts, depth) + flatten_tree(t, depth),
{
    assert(ts.push(t).subrange(0, ts.len() as int) =~= ts);
}

impl Node {
    pub fn new(value: &str, children: Vec<Node>) -> (r: Node)
        ensures
            r.value@ == value@,
            r.children == children,
    {
        Node { value: value.to_string(), children }
    }

    /// The node and its descendants in pre-order, the node at depth one.
    pub fn flatten(self) -> (r: Vec<FlattenNode>)
        ensures
            flat_views(r@) == flatten_tree(tree_of(self), 1),
    {
        let mut values: Vec<FlattenNode> = Vec::new();
        self.flatten_inner(1, &mut values);
        assert(flat_views(Seq::<FlattenNode>::empty()) + flatten_tree(tree_of(self), 1)
            =~= flatten_tree(tree_of(self), 1));
        values
    }

    fn flatten_inner(&self, indent: usize, values: &mut Vec<FlattenNode>)
        ensures
            flat_views(final(values)@) == flat_views(old(values)@) + flatten_tree(
                tree_of(*self),
                indent as nat,
            ),
        decreases self,
    {
        let ghost start = flat_views(values@);
        values.push(FlattenNode(indent, self.value.clone()));
        let d = if indent < usize::MAX {
            indent + 1
        } else {
            indent
        };
        let ghost head = seq![(indent as nat, self.value@)];
        assert(flat_views(values@) =~= start + head);
        let mut i: usize = 0;
        assert(self.children@.subrange(0, 0) =~= Seq::<Node>::empty());
        while i < self.children.len()
            invariant
                i <= self.children.len(),
                flat_views(values@) == start + head + flatten_forest(
                    trees_of(self.children@.subrange(0, i as int)),
                    d as nat,
                ),
            decreases self.children.len() - i,
        {
            let ghost before = flat_views(values@);
            self.children[i].flatten_inner(d, values);
            proof {
                lemma_trees_prefix(self.children@, i as int);
                lemma_forest_push(
                    trees_of(self.children@.subrange(0, i as int)),
                    tree_of(self.children@[i as int]),
                    d as nat,
                );
            }
            i = i + 1;
            assert(flat_views(values@) =~= start + head + flatten_forest(
                trees_of(self.children@.subrange(0, i as int)),
                d as nat,
            ));
        }
        assert(self.children@.subrange(0, self.children.len() as int) =~= self.children@);
        assert(flat_views(values@) =~= start + flatten_tree(tree_of(*self), indent as nat));
    }
}

impl Line {
    /// Classifies one line of outline text.
    pub fn parse(s: &str) -> (r: Line)
        ensures
            line_view(r) == classify(s@),
    {
        let v = chars_of(s);
        Self::classify_chars(&v)
    }

    fn classify_chars(s: &Vec<char>) -> (r: Line)
        ensures
            line_view(r) == classify(s@),
    {
        let k = count_leading(s, '#');
        if k >= 1 && s.len() > k && s[k] == ' ' {
            let label = slice_chars(s, k + 1, s.len());
            return Line::Block(k, string_of(&label));
        }
        let m = count_leading(s, ' ');
        if s.len() - m > 1 && s[m] == '-' && s[m + 1] == ' ' {
            let label = slice_chars(s, m + 2, s.len());
            return Line::List(m, string_of(&label));
        }
        let d = count_leading_digits(s, m);
        if d >= 1 && s.len() - m - d > 1 && s[m + d] == '.' && s[m + d + 1] == ' ' {
            let label = slice_chars(s, m + d + 2, s.len());
            return Line::List(m, string_of(&label));
        }
        Line::Unknown
    }
}

/// The number of decimal digits in `s` from index `from` on.
fn count_leading_digits(s: &Vec<char>, from: usize) -> (r: usize)
    requires
        from <= s.len(),
    ensures
        r as nat == leading_digits(s@.subrange(from as int, s.len() as int)),
        from + r <= s.len(),
{
    let mut k: usize = from;
    while k < s.len() && '0' <= s[k] && s[k] <= '9'
        invariant
            from <= k <= s.len(),
            leading_digits(s@.subrange(from as int, s.len() as int)) == (k - from) + leading_digits(
                s@.subrange(k as int, s.len() as int),
            ),
        decreases s.len() - k,
    {
        assert(s@.subrange(k as int, s.len() as int).drop_first() =~= s@.subrange(
            k + 1,
            s.len() as int,
        ));
        k = k + 1;
    }
    k - from
}

/// The number of times `c` repeats at the start of `s`.
fn count_leading(s: &Vec<char>, c: char) -> (r: usize)
    ensures
        r as nat == leading(s@, c),
        r <= s.len(),
{
    let mut k: usize = 0;
    assert(s@.subrange(0, s.len() as int) =~= s@);
    while k < s.len() && s[k] == c
        invariant
            k <= s.len(),
            leading(s@, c) == k + leading(s@.subrange(k as int, s.len() as int), c),
        decreases s.len() - k,
    {
        assert(s@.subrange(k as int, s.len() as int).drop_first() =~= s@.subrange(
            k + 1,
            s.len() as int,
        ));
        k = k + 1;
    }
    k
}

proof fn lemma_split_nonempty(s: Seq<char>, sep: char)
    ensures
        split(s, sep).len() >= 1,
    decreases s.len(),
{
    if s.len() > 0 {
        lemma_split_nonempty(s.drop_last(), sep);
    }
}

/// The lines of `s`, as `str::lines` gives them.
pub fn lines_chars(s: &Vec<char>) -> (r: Vec<Vec<char>>)
    ensures
        views(r@) == lines(s@),
{
    let pieces = split_chars(s, '\n');
    let ghost p = split(s@, '\n');
    let ghost q = Seq::new(
        p.len(),
        |i: int|
            if i + 1 < p.len() {
                strip_cr(p[i])
            } else {
                p[i]
            },
    );
    let mut out: Vec<Vec<char>> = Vec::new();
    let mut i: usize = 0;
    while i < pieces.len()
        invariant
            i <= pieces.len(),
            views(pieces@) == p,
            p.len() == q.len(),
            q == Seq::new(
                p.len(),
                |i: int|
                    if i + 1 < p.len() {
                        strip_cr(p[i])
                    } else {
                        p[i]
                    },
            ),
            views(out@) == q.subrange(0, i as int),
        decreases pieces.len() - i,
    {
        let piece = &pieces[i];
        let line = if i + 1 < pieces.len() && piece.len() > 0 && piece[piece.len() - 1] == '\r' {
            slice_chars(piece, 0, piece.len() - 1)
        } else {
            slice_chars(piece, 0, piece.len())
        };
        assert(piece@.subrange(0, piece.len() as int) =~= piece@);
        if piece.len() > 0 {
            assert(piece@.drop_last() =~= piece@.subrange(0, piece.len() - 1));
        }
        assert(piece@ == p[i as int]);
        assert(line@ == q[i as int]);
        let ghost o = out@;
        out.push(line);
        assert(views(out@) =~= views(o).push(line@));
        i = i + 1;
        assert(views(out@) =~= q.subrange(0, i as int));
    }
    assert(q.subrange(0, pieces.len() as int) =~= q);
    proof {
        lemma_split_nonempty(s@, '\n');
    }
    let n = out.len();
    if out[n - 1].len() == 0 {
        let _ = out.pop();
        assert(views(out@) =~= q.drop_last());
    }
    out
}

impl Toc {
    pub fn new(children: Vec<Node>) -> (r: Toc)
        ensures
            r.0 == children,
    {
        Toc(children)
    }

    /// Reads outline text. Lines that fit no style are skipped.
    pub fn parse(s: &str) -> (r: Toc)
        ensures
            trees_of(r.0@) == outline(s@),
    {
        let chars = chars_of(s);
        let texts = lines_chars(&chars);
        Self::parse_lines(&texts)
    }

    /// Reads outline lines. Lines that fit no style are skipped.
    pub fn parse_lines(texts: &Vec<Vec<char>>) -> (r: Toc)
        ensures
            trees_of(r.0@) == outline_of_lines(views(texts@)),
    {
        let ghost lv = views(texts@).map_values(|l: Seq<char>| classify(l));
        let mut ls: Vec<Line> = Vec::new();
        let mut i: usize = 0;
        while i < texts.len()
            invariant
                i <= texts.len(),
                lv == views(texts@).map_values(|l: Seq<char>| classify(l)),
                line_views(ls@) == lv.subrange(0, i as int),
            decreases texts.len() - i,
        {
            let l = Self::classify_line(&texts[i]);
            let ghost o = ls@;
            ls.push(l);
            assert(line_views(ls@) =~= line_views(o).push(line_view(l)));
            assert(views(texts@)[i as int] == texts@[i as int]@);
            i = i + 1;
        }
        assert(lv.subrange(0, texts.len() as int) =~= lv);
        let (_, nodes) = Self::parse_line(0, 0, &ls, 0);
        Toc(nodes)
    }

    fn classify_line(s: &Vec<char>) -> (r: Line)
        ensures
            line_view(r) == classify(s@),
    {
        Line::classify_chars(s)
    }

    /// The trees from line `index` on, and the line where reading stopped.
    fn parse_line(base: usize, parent: usize, lines: &Vec<Line>, index: usize) -> (r: (
        usize,
        Vec<Node>,
    ))
        requires
            index <= lines.len(),
        ensures
            (r.0 as nat, trees_of(r.1@)) == outline_from(
                base as nat,
                parent as nat,
                line_views(lines@),
                index as nat,
            ),
        decreases lines.len() - index,
    {
        let ghost ls = line_views(lines@);
        let ghost b = base as nat;
        let ghost p = parent as nat;
        let mut res: Vec<Node> = Vec::new();
        let mut i: usize = index;
        assert(trees_of(res@) + outline_from(b, p, ls, index as nat).1 =~= outline_from(
            b,
            p,
            ls,
            index as nat,
        ).1);
        while i < lines.len()
            invariant
                index <= i <= lines.len(),
                b == base as nat,
                p == parent as nat,
                ls == line_views(lines@),
                ls.len() == lines.len(),
                outline_from(b, p, ls, index as nat) == (
                    outline_from(b, p, ls, i as nat).0,
                    trees_of(res@) + outline_from(b, p, ls, i as nat).1,
                ),
            ensures
                outline_from(b, p, ls, index as nat) == (i as nat, trees_of(res@)),
            decreases lines.len() - i,
        {
            assert(ls[i as int] == line_view(lines@[i as int]));
            match &lines[i] {
                Line::Block(indent, value) => {
                    assert(ls[i as int] == OutlineLine::Heading(*indent as nat, value@));
                    if *indent <= parent {
                        assert(outline_from(b, p, ls, i as nat) == (i as nat, Seq::<OutlineTree>::empty()));
                        assert(trees_of(res@) + Seq::<OutlineTree>::empty() =~= trees_of(res@));
                        break;
                    }
                    let (next, children) = Self::parse_line(*indent, *indent, lines, i + 1);
                    proof {
                        lemma_outline_from_bounds(*indent as nat, *indent as nat, ls, (i + 1) as nat);
                    }
                    let node = Node { value: value.clone(), children };
                    let ghost r0 = res@;
                    res.push(node);
                    proof {
                        lemma_trees_push(r0, node);
                    }
                    i = next;
                    assert(trees_of(r0) + (seq![tree_of(node)] + outline_from(b, p, ls, i as nat).1)
                        =~= trees_of(res@) + outline_from(b, p, ls, i as nat).1);
                },
                Line::List(indent, value) => {
                    let step: usize = *indent / 2 + 1;
                    let level: usize = if base <= usize::MAX - step {
                        base + step
                    } else {
                        usize::MAX
                    };
                    assert(level as nat == sat_add(b, *indent as nat / 2 + 1));
                    if level <= parent {
                        assert(outline_from(b, p, ls, i as nat) == (i as nat, Seq::<OutlineTree>::empty()));
                        assert(trees_of(res@) + Seq::<OutlineTree>::empty() =~= trees_of(res@));
                        break;
                    }
                    let (next, children) = Self::parse_line(base, level, lines, i + 1);
                    proof {
                        lemma_outline_from_bounds(b, level as nat, ls, (i + 1) as nat);
                    }
                    let node = Node { value: value.clone(), children };
                    let ghost r0 = res@;
                    res.push(node);
                    proof {
                        lemma_trees_push(r0, node);
                    }
                    i = next;
                    assert(trees_of(r0) + (seq![tree_of(node)] + outline_from(b, p, ls, i as nat).1)
                        =~= trees_of(res@) + outline_from(b, p, ls, i as nat).1);
                },
                Line::Unknown => {
                    i = i + 1;
                },
            }
        }
        (i, res)
    }

    /// Every tree of the outline in pre-order, the top level at depth one.
    pub fn flatten(&self) -> (r: Vec<FlattenNode>)
        ensures
            flat_views(r@) == flatten_forest(trees_of(self.0@), 1),
    {
        let mut values: Vec<FlattenNode> = Vec::new();
        let mut i: usize = 0;
        assert(self.0@.subrange(0, 0) =~= Seq::<Node>::empty());
        assert(flat_views(values@) =~= Seq::<(nat, Seq<char>)>::empty());
        while i < self.0.len()
            invariant
                i <= self.0.len(),
                flat_views(values@) == flatten_forest(
                    trees_of(self.0@.subrange(0, i as int)),
                    1,
                ),
            decreases self.0.len() - i,
        {
            self.0[i].flatten_inner(1, &mut values);
            proof {
                lemma_trees_prefix(self.0@, i as int);
                lemma_forest_push(
                    trees_of(self.0@.subrange(0, i as int)),
                    tree_of(self.0@[i as int]),
                    1,
                );
            }
            i = i + 1;
        }
        assert(self.0@.subrange(0, self.0.len() as int) =~= self.0@);
        values
    }
}

} // verus!
