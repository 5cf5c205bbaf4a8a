//! The inline renderer: a syntax-tree node and its descendants as Markdown
//! text, with list depth and ordinal threaded through explicitly.

use vstd::prelude::*;

use crate::ast::{AlignKind, MdNode};
use crate::error::NoteError;
use crate::text::{
    chars_of, decimal, decimal_chars, join, join_chars, push_all, push_str, repeat, repeat_chars,
    is_space, same_chars, slice_chars, split, split_chars, string_of, strip_spaces,
    strip_spaces_chars, trim, trim_chars, trim_end, trim_end_chars, trim_start, views,
};

verus! {

/// One nesting level of a list.
pub open spec fn indent(n: nat) -> Seq<char> {
    repeat(seq![' ', ' ', ' ', ' '], n)
}

pub open spec fn sat_inc(d: nat) -> nat {
    if d < usize::MAX {
        d + 1
    } else {
        d
    }
}

pub open spec fn sat_dec(d: nat) -> nat {
    if d > 0 {
        (d - 1) as nat
    } else {
        0
    }
}

/// The characters that a paragraph fragment may start with to attach to
/// the fragment before it without a space.
pub open spec fn is_trailing_separator(c: char) -> bool {
    c == ',' || c == '.' || c == ';' || c == ':' || c == '\n'
}

pub open spec fn starts_with_separator(s: Seq<char>) -> bool {
    s.len() > 0 && is_trailing_separator(s[0])
}

pub open spec fn ends_with_break(s: Seq<char>) -> bool {
    s.len() > 0 && (s.last() == '\n' || s.last() == ' ')
}

/// Paragraph joining over the fragments rendered so far: the text, and
/// whether the last fragment ended in a space or a line break.
pub open spec fn para_state(frags: Seq<Seq<char>>) -> (Seq<char>, bool)
    decreases frags.len(),
{
    if frags.len() == 0 {
        (Seq::empty(), false)
    } else {
        let prev = para_state(frags.drop_last());
        let v = strip_spaces(frags.last());
        let spaced = frags.len() > 1 && v.len() > 0 && !prev.1 && !starts_with_separator(v);
        let s = if spaced {
            prev.0.push(' ')
        } else {
            prev.0
        };
        (s + v, ends_with_break(v))
    }
}

/// The fragments of a paragraph joined: a space between two fragments
/// unless the left one ends in white space or the right one starts with a
/// trailing separator.
pub open spec fn paragraph_join(frags: Seq<Seq<char>>) -> Seq<char> {
    para_state(frags).0
}

/// A fragment that starts with a trailing separator attaches to the text
/// before it without a space.
pub proof fn lemma_separator_attaches(frags: Seq<Seq<char>>, v: Seq<char>)
    requires
        starts_with_separator(strip_spaces(v)),
    ensures
        paragraph_join(frags.push(v)) == paragraph_join(frags) + strip_spaces(v),
{
    assert(frags.push(v).drop_last() =~= frags);
}

/// Any other non-empty fragment after one that does not end in white space
/// is set off by one space.
pub proof fn lemma_fragments_spaced(frags: Seq<Seq<char>>, v: Seq<char>)
    requires
        frags.len() > 0,
        !ends_with_break(strip_spaces(frags.last())),
        strip_spaces(v).len() > 0,
        !starts_with_separator(strip_spaces(v)),
    ensures
        paragraph_join(frags.push(v)) == paragraph_join(frags).push(' ') + strip_spaces(v),
{
    assert(frags.push(v).drop_last() =~= frags);
}

/// The space set between two adjacent stripped fragments: one, unless the
/// fragment is empty, the one before it ends in white space, or it starts
/// with a trailing separator.
pub open spec fn gap(prev: Seq<char>, v: Seq<char>) -> Seq<char> {
    if v.len() > 0 && !ends_with_break(prev) && !starts_with_separator(v) {
        seq![' ']
    } else {
        Seq::empty()
    }
}

/// The first fragment, then each later one preceded by its gap.
pub open spec fn spaced(vs: Seq<Seq<char>>) -> Seq<char>
    decreases vs.len(),
{
    if vs.len() == 0 {
        Seq::empty()
    } else if vs.len() == 1 {
        vs[0]
    } else {
        spaced(vs.drop_last()) + gap(vs[vs.len() - 2], vs.last()) + vs.last()
    }
}

proof fn lemma_para_state_spaced(frags: Seq<Seq<char>>)
    ensures
        para_state(frags).0 == spaced(frags.map_values(|f: Seq<char>| strip_spaces(f))),
        para_state(frags).1 == (frags.len() > 0 && ends_with_break(strip_spaces(frags.last()))),
    decreases frags.len(),
{
    if frags.len() > 0 {
        let d = frags.drop_last();
        lemma_para_state_spaced(d);
        let vs = frags.map_values(|f: Seq<char>| strip_spaces(f));
        assert(vs.drop_last() =~= d.map_values(|f: Seq<char>| strip_spaces(f)));
        let v = strip_spaces(frags.last());
        if frags.len() == 1 {
            assert(Seq::<char>::empty() + v =~= v);
        } else {
            assert(d.last() == frags[frags.len() - 2]);
            let prev = para_state(d);
            if frags.len() > 1 && v.len() > 0 && !prev.1 && !starts_with_separator(v) {
                assert(prev.0.push(' ') + v =~= prev.0 + seq![' '] + v);
            } else {
                assert(prev.0 + v =~= prev.0 + Seq::<char>::empty() + v);
            }
        }
    }
}

proof fn lemma_trim_start_head(s: Seq<char>)
    ensures
        trim_start(s).len() == 0 || !is_space(trim_start(s)[0]),
    decreases s.len(),
{
    if s.len() > 0 && is_space(s[0]) {
        lemma_trim_start_head(s.drop_first());
    }
}

proof fn lemma_trim_end_tail(s: Seq<char>)
    ensures
        trim_end(s).len() == 0 || !is_space(trim_end(s).last()),
        s.len() > 0 && !is_space(s[0]) ==> trim_end(s).len() > 0 && trim_end(s)[0] == s[0],
    decreases s.len(),
{
    if s.len() > 0 && is_space(s.last()) {
        lemma_trim_end_tail(s.drop_last());
    }
}

/// Trimming again after adding a line break changes nothing.
proof fn lemma_trim_line_break(x: Seq<char>)
    ensures
        trim(trim(x).push('\n')) == trim(x),
{
    let t = trim(x);
    let u = trim_start(x);
    lemma_trim_start_head(x);
    lemma_trim_end_tail(u);
    let y = t.push('\n');
    assert(is_space('\n'));
    assert(y.drop_last() =~= t);
    if t.len() == 0 {
        assert(y.drop_first() =~= Seq::<char>::empty());
        assert(trim_start(y) == trim_start(Seq::<char>::empty()));
        assert(trim_start(y) == Seq::<char>::empty());
        assert(trim_end(Seq::<char>::empty()) == Seq::<char>::empty());
    } else {
        assert(y[0] == t[0]);
        assert(trim_start(y) == y);
        assert(trim_end(y) == trim_end(t));
        assert(trim_end(t) == t);
    }
}

/// A paragraph renders to its stripped fragments joined by their gaps,
/// trimmed.
pub proof fn lemma_paragraph_rendered(n: MdNode)
    requires
        n is Paragraph,
    ensures
        match render_list(n->Paragraph_0@, 0, None) {
            Ok(p) => rendered(n) == Ok::<Seq<char>, Seq<char>>(
                trim(spaced(p.map_values(|f: Seq<char>| strip_spaces(f)))),
            ),
            Err(e) => rendered(n) == Err::<Seq<char>, Seq<char>>(e),
        },
{
    match render_list(n->Paragraph_0@, 0, None) {
        Ok(p) => {
            lemma_para_state_spaced(p);
            lemma_trim_line_break(paragraph_join(p));
        },
        Err(e) => {},
    }
}

/// `text` block-quoted: every line prefixed with `> `, a blank line with `>`.
pub open spec fn quote(text: Seq<char>) -> Seq<char> {
    join(split(trim_end(text), '\n').map_values(|l: Seq<char>| quote_line(l)), seq!['\n']).push(
        '\n',
    )
}

pub open spec fn quote_line(l: Seq<char>) -> Seq<char> {
    if l.len() == 0 {
        seq!['>']
    } else {
        seq!['>', ' '] + l
    }
}

/// The separator-row cell of a table column.
pub open spec fn align_marker(a: AlignKind) -> Seq<char> {
    match a {
        AlignKind::Left => seq![':', '-', '-'],
        AlignKind::Right => seq!['-', '-', ':'],
        AlignKind::Center => seq![':', '-', ':'],
        AlignKind::Unaligned => seq!['-', '-', '-'],
    }
}

pub open spec fn bar() -> Seq<char> {
    seq![' ', '|', ' ']
}

/// A table row from its rendered cells.
pub open spec fn table_line(cells: Seq<Seq<char>>) -> Seq<char> {
    seq!['|', ' '] + join(cells, bar()) + seq![' ', '|']
}

/// The marker of a list item: its checkbox, else its ordinal, else a dash.
pub open spec fn item_marker(order: Option<nat>, checked: Option<bool>) -> Seq<char> {
    match checked {
        Some(true) => seq!['-', ' ', '[', 'x', ']'],
        Some(false) => seq!['-', ' ', '[', ' ', ']'],
        None => match order {
            Some(n) => decimal(n).push('.'),
            None => seq!['-'],
        },
    }
}

pub open spec fn opt_chars(o: Option<String>) -> Seq<char> {
    match o {
        Some(s) => s@,
        None => Seq::empty(),
    }
}

pub open spec fn fence() -> Seq<char> {
    seq!['`', '`', '`']
}

/// A fenced code block.
pub open spec fn code_block(lang: Option<String>, meta: Option<String>, value: Seq<char>) -> Seq<
    char,
> {
    let m = match meta {
        Some(m) => seq![' '] + m@,
        None => Seq::empty(),
    };
    fence() + opt_chars(lang) + m + seq!['\n'] + value + seq!['\n'] + fence() + seq!['\n']
}

pub open spec fn joined(r: Result<Seq<Seq<char>>, Seq<char>>, sep: Seq<char>) -> Result<
    Seq<char>,
    Seq<char>,
> {
    match r {
        Ok(p) => Ok(join(p, sep)),
        Err(e) => Err(e),
    }
}

pub open spec fn wrapped(r: Result<Seq<char>, Seq<char>>, pre: Seq<char>, post: Seq<char>) -> Result<
    Seq<char>,
    Seq<char>,
> {
    match r {
        Ok(s) => Ok(pre + s + post),
        Err(e) => Err(e),
    }
}

/// What a node renders to at the given list depth and ordinal, or the kind
/// of the first node in it that cannot be rendered.
pub open spec fn render(n: MdNode, depth: nat, order: Option<nat>) -> Result<Seq<char>, Seq<char>>
    decreases n, 1nat,
{
    match n {
        MdNode::Root(c) => joined(render_list(c@, depth, order), seq!['\n']),
        MdNode::BlockQuote(c) => match joined(render_list(c@, depth, order), seq!['\n']) {
            Ok(s) => Ok(quote(s)),
            Err(e) => Err(e),
        },
        MdNode::List { ordered, children } => joined(
            render_items(children@, sat_inc(depth), ordered),
            Seq::empty(),
        ),
        MdNode::Heading { depth: d, children } => wrapped(
            joined(render_list(children@, depth, order), Seq::empty()),
            repeat(seq!['#'], d as nat) + seq![' '],
            Seq::empty(),
        ),
        MdNode::Code { lang, meta, value } => Ok(code_block(lang, meta, value@)),
        MdNode::ListItem { checked, children } => wrapped(
            joined(render_list(children@, depth, order), Seq::empty()),
            indent(sat_dec(depth)) + item_marker(order, checked) + seq![' '],
            Seq::empty(),
        ),
        MdNode::Paragraph(c) => match render_list(c@, depth, order) {
            Ok(p) => Ok(trim(paragraph_join(p)).push('\n')),
            Err(e) => Err(e),
        },
        MdNode::Emphasis(c) => wrapped(
            joined(render_list(c@, depth, order), Seq::empty()),
            seq!['*'],
            seq!['*'],
        ),
        MdNode::Strong(c) => wrapped(
            joined(render_list(c@, depth, order), Seq::empty()),
            seq!['*', '*'],
            seq!['*', '*'],
        ),
        MdNode::Delete(c) => wrapped(
            joined(render_list(c@, depth, order), Seq::empty()),
            seq!['~', '~'],
            seq!['~', '~'],
        ),
        MdNode::FootnoteDefinition { identifier, children } => wrapped(
            joined(render_list(children@, depth, order), Seq::empty()),
            seq!['[', '^'] + identifier@ + seq![']', ':', ' '],
            Seq::empty(),
        ),
        MdNode::Break => Ok(seq!['\n']),
        MdNode::Link { url, children } => match joined(
            render_list(children@, depth, order),
            Seq::empty(),
        ) {
            Ok(t) => if t == url@ {
                Ok(url@)
            } else {
                Ok(seq!['['] + t + seq![']', '('] + url@ + seq![')'])
            },
            Err(e) => Err(e),
        },
        MdNode::Table { align, children } => {
            let sep = join(align@.map_values(|a: AlignKind| align_marker(a)), bar());
            joined(table_rows(children@, sep, depth, order), seq!['\n'])
        },
        MdNode::TableRow(c) => match render_list(c@, depth, order) {
            Ok(cells) => Ok(table_line(cells).push('\n')),
            Err(e) => Err(e),
        },
        MdNode::TableCell(c) => joined(render_list(c@, depth, order), Seq::empty()),
        MdNode::Html(v) => Ok(v@),
        MdNode::Text(v) => Ok(v@),
        MdNode::Math(v) => Ok(seq!['$', '$', '\n'] + v@ + seq!['\n', '$', '$']),
        MdNode::InlineMath(v) => Ok(seq!['$'] + v@ + seq!['$']),
        MdNode::Yaml(v) => Ok(seq!['-', '-', '-', '\n'] + v@ + seq!['-', '-', '-', '\n']),
        MdNode::FootnoteReference(id) => Ok(seq!['[', '^'] + id@ + seq![']']),
        MdNode::InlineCode(v) => Ok(seq!['`'] + v@ + seq!['`']),
        MdNode::ThematicBreak => Ok(seq!['-', '-', '-', '\n']),
        MdNode::Image { alt, url } => Ok(
            seq!['!', '['] + alt@ + seq![']', '('] + url@ + seq![')'],
        ),
        MdNode::Other(kind) => Err(kind@),
    }
}

/// The renderings of a sequence of sibling nodes, or the first failure.
pub open spec fn render_list(s: Seq<MdNode>, depth: nat, order: Option<nat>) -> Result<
    Seq<Seq<char>>,
    Seq<char>,
>
    decreases s, 0nat,
{
    if s.len() == 0 {
        Ok(Seq::empty())
    } else {
        match render_list(s.subrange(0, s.len() - 1), depth, order) {
            Err(e) => Err(e),
            Ok(p) => match render(s[s.len() - 1], depth, order) {
                Ok(x) => Ok(p.push(x)),
                Err(e) => Err(e),
            },
        }
    }
}

/// The renderings of the items of a list at `depth`, numbered from one when
/// the list is ordered.
pub open spec fn render_items(s: Seq<MdNode>, depth: nat, ordered: bool) -> Result<
    Seq<Seq<char>>,
    Seq<char>,
>
    decreases s, 0nat,
{
    if s.len() == 0 {
        Ok(Seq::empty())
    } else {
        match render_items(s.subrange(0, s.len() - 1), depth, ordered) {
            Err(e) => Err(e),
            Ok(p) => match render(
                s[s.len() - 1],
                depth,
                if ordered {
                    Some(s.len())
                } else {
                    None
                },
            ) {
                Ok(x) => Ok(p.push(x)),
                Err(e) => Err(e),
            },
        }
    }
}

/// The lines of a table: one per row, and the separator row after the first.
pub open spec fn table_rows(s: Seq<MdNode>, sep: Seq<char>, depth: nat, order: Option<nat>) -> Result<
    Seq<Seq<char>>,
    Seq<char>,
>
    decreases s, 0nat,
{
    if s.len() == 0 {
        Ok(Seq::empty())
    } else {
        match table_rows(s.subrange(0, s.len() - 1), sep, depth, order) {
            Err(e) => Err(e),
            Ok(p) => {
                let with_row = match s[s.len() - 1] {
                    MdNode::TableRow(cells) => match render_list(cells@, depth, order) {
                        Ok(cs) => Ok(p.push(table_line(cs))),
                        Err(e) => Err(e),
                    },
                    _ => Ok(p),
                };
                match with_row {
                    Ok(q) => if s.len() == 1 {
                        Ok(q.push(seq!['|', ' '] + sep + seq![' ', '|']))
                    } else {
                        Ok(q)
                    },
                    Err(e) => Err(e),
                }
            },
        }
    }
}


pub open spec fn opt_nat(o: Option<usize>) -> Option<nat> {
    match o {
        Some(n) => Some(n as nat),
        None => None,
    }
}

pub open spec fn res_view(r: Result<Vec<char>, String>) -> Result<Seq<char>, Seq<char>> {
    match r {
        Ok(v) => Ok(v@),
        Err(e) => Err(e@),
    }
}

pub open spec fn list_view(r: Result<Vec<Vec<char>>, String>) -> Result<Seq<Seq<char>>, Seq<char>> {
    match r {
        Ok(v) => Ok(views(v@)),
        Err(e) => Err(e@),
    }
}

proof fn lemma_list_err(s: Seq<MdNode>, k: int, depth: nat, order: Option<nat>)
    requires
        0 <= k <= s.len(),
        render_list(s.subrange(0, k), depth, order) is Err,
    ensures
        render_list(s, depth, order) == render_list(s.subrange(0, k), depth, order),
    decreases s.len(),
{
    if k < s.len() {
        let t = s.subrange(0, s.len() - 1);
        assert(t.subrange(0, k) =~= s.subrange(0, k));
        lemma_list_err(t, k, depth, order);
    } else {
        assert(s.subrange(0, k) =~= s);
    }
}

proof fn lemma_items_err(s: Seq<MdNode>, k: int, depth: nat, ordered: bool)
    requires
        0 <= k <= s.len(),
        render_items(s.subrange(0, k), depth, ordered) is Err,
    ensures
        render_items(s, depth, ordered) == render_items(s.subrange(0, k), depth, ordered),
    decreases s.len(),
{
    if k < s.len() {
        let t = s.subrange(0, s.len() - 1);
        assert(t.subrange(0, k) =~= s.subrange(0, k));
        lemma_items_err(t, k, depth, ordered);
    } else {
        assert(s.subrange(0, k) =~= s);
    }
}

proof fn lemma_rows_err(s: Seq<MdNode>, k: int, sep: Seq<char>, depth: nat, order: Option<nat>)
    requires
        0 <= k <= s.len(),
        table_rows(s.subrange(0, k), sep, depth, order) is Err,
    ensures
        table_rows(s, sep, depth, order) == table_rows(s.subrange(0, k), sep, depth, order),
    decreases s.len(),
{
    if k < s.len() {
        let t = s.subrange(0, s.len() - 1);
        assert(t.subrange(0, k) =~= s.subrange(0, k));
        lemma_rows_err(t, k, sep, depth, order);
    } else {
        assert(s.subrange(0, k) =~= s);
    }
}

/// Renders each of the sibling nodes, stopping at the first failure.
fn render_children(c: &Vec<MdNode>, depth: usize, order: Option<usize>) -> (r: Result<
    Vec<Vec<char>>,
    String,
>)
    ensures
        list_view(r) == render_list(c@, depth as nat, opt_nat(order)),
    decreases c,
{
    let mut out: Vec<Vec<char>> = Vec::new();
    let mut i: usize = 0;
    assert(c@.subrange(0, 0) =~= Seq::<MdNode>::empty());
    assert(views(out@) =~= Seq::<Seq<char>>::empty());
    while i < c.len()
        invariant
            i <= c.len(),
            render_list(c@.subrange(0, i as int), depth as nat, opt_nat(order)) == Ok::<
                Seq<Seq<char>>,
                Seq<char>,
            >(views(out@)),
        decreases c.len() - i,
    {
        let ghost pre = c@.subrange(0, i as int);
        let ghost now = c@.subrange(0, i + 1);
        assert(now.subrange(0, now.len() - 1) =~= pre);
        assert(now[now.len() - 1] == c@[i as int]);
        match render_node(&c[i], depth, order) {
            Ok(x) => {
                let ghost o = out@;
                out.push(x);
                assert(views(out@) =~= views(o).push(x@));
            },
            Err(e) => {
                proof {
                    lemma_list_err(c@, i + 1, depth as nat, opt_nat(order));
                }
                return Err(e);
            },
        }
        i = i + 1;
    }
    assert(c@.subrange(0, c.len() as int) =~= c@);
    Ok(out)
}

/// Renders the items of a list at `depth`.
fn render_item_list(c: &Vec<MdNode>, depth: usize, ordered: bool) -> (r: Result<
    Vec<Vec<char>>,
    String,
>)
    ensures
        list_view(r) == render_items(c@, depth as nat, ordered),
    decreases c,
{
    let mut out: Vec<Vec<char>> = Vec::new();
    let mut i: usize = 0;
    assert(c@.subrange(0, 0) =~= Seq::<MdNode>::empty());
    assert(views(out@) =~= Seq::<Seq<char>>::empty());
    while i < c.len()
        invariant
            i <= c.len(),
            render_items(c@.subrange(0, i as int), depth as nat, ordered) == Ok::<
                Seq<Seq<char>>,
                Seq<char>,
            >(views(out@)),
        decreases c.len() - i,
    {
        let ghost pre = c@.subrange(0, i as int);
        let ghost now = c@.subrange(0, i + 1);
        assert(now.subrange(0, now.len() - 1) =~= pre);
        assert(now[now.len() - 1] == c@[i as int]);
        let order = if ordered {
            Some(i + 1)
        } else {
            None
        };
        match render_node(&c[i], depth, order) {
            Ok(x) => {
                let ghost o = out@;
                out.push(x);
                assert(views(out@) =~= views(o).push(x@));
            },
            Err(e) => {
                proof {
                    lemma_items_err(c@, i + 1, depth as nat, ordered);
                }
                return Err(e);
            },
        }
        i = i + 1;
    }
    assert(c@.subrange(0, c.len() as int) =~= c@);
    Ok(out)
}

/// A table row from its rendered cells.
fn table_line_chars(cells: &Vec<Vec<char>>) -> (r: Vec<char>)
    ensures
        r@ == table_line(views(cells@)),
{
    let mut out: Vec<char> = vec!['|', ' '];
    let sep: Vec<char> = vec![' ', '|', ' '];
    let body = join_chars(cells, &sep);
    push_all(&mut out, &body);
    out.push(' ');
    out.push('|');
    assert(sep@ =~= bar());
    assert(out@ =~= table_line(views(cells@)));
    out
}

/// The lines of a table.
fn render_table_rows(c: &Vec<MdNode>, sep: &Vec<char>, depth: usize, order: Option<usize>) -> (r:
    Result<Vec<Vec<char>>, String>)
    ensures
        list_view(r) == table_rows(c@, sep@, depth as nat, opt_nat(order)),
    decreases c,
{
    let mut out: Vec<Vec<char>> = Vec::new();
    let mut i: usize = 0;
    assert(c@.subrange(0, 0) =~= Seq::<MdNode>::empty());
    assert(views(out@) =~= Seq::<Seq<char>>::empty());
    while i < c.len()
        invariant
            i <= c.len(),
            table_rows(c@.subrange(0, i as int), sep@, depth as nat, opt_nat(order)) == Ok::<
                Seq<Seq<char>>,
                Seq<char>,
            >(views(out@)),
        decreases c.len() - i,
    {
        let ghost pre = c@.subrange(0, i as int);
        let ghost now = c@.subrange(0, i + 1);
        assert(now.subrange(0, now.len() - 1) =~= pre);
        assert(now[now.len() - 1] == c@[i as int]);
        match &c[i] {
            MdNode::TableRow(cells) => {
                match render_children(cells, depth, order) {
                    Ok(cs) => {
                        let line = table_line_chars(&cs);
                        let ghost o = out@;
                        out.push(line);
                        assert(views(out@) =~= views(o).push(line@));
                    },
                    Err(e) => {
                        proof {
                            lemma_rows_err(c@, i + 1, sep@, depth as nat, opt_nat(order));
                        }
                        return Err(e);
                    },
                }
            },
            _ => {},
        }
        if i == 0 {
            let mut line: Vec<char> = vec!['|', ' '];
            push_all(&mut line, sep);
            line.push(' ');
            line.push('|');
            assert(line@ =~= seq!['|', ' '] + sep@ + seq![' ', '|']);
            let ghost o = out@;
            out.push(line);
            assert(views(out@) =~= views(o).push(line@));
        }
        i = i + 1;
    }
    assert(c@.subrange(0, c.len() as int) =~= c@);
    Ok(out)
}

/// `text` block-quoted line by line.
pub fn quote_chars(text: &Vec<char>) -> (r: Vec<char>)
    ensures
        r@ == quote(text@),
{
    let t = trim_end_chars(text);
    let pieces = split_chars(&t, '\n');
    let ghost ps = views(pieces@);
    let mut lines: Vec<Vec<char>> = Vec::new();
    let mut i: usize = 0;
    while i < pieces.len()
        invariant
            i <= pieces.len(),
            ps == views(pieces@),
            views(lines@) == ps.subrange(0, i as int).map_values(|l: Seq<char>| quote_line(l)),
        decreases pieces.len() - i,
    {
        let line = if pieces[i].len() == 0 {
            vec!['>']
        } else {
            let mut l: Vec<char> = vec!['>', ' '];
            push_all(&mut l, &pieces[i]);
            l
        };
        assert(line@ =~= quote_line(ps[i as int]));
        let ghost o = lines@;
        lines.push(line);
        assert(views(lines@) =~= views(o).push(line@));
        assert(ps.subrange(0, i + 1) =~= ps.subrange(0, i as int).push(ps[i as int]));
        i = i + 1;
        assert(views(lines@) =~= ps.subrange(0, i as int).map_values(
            |l: Seq<char>| quote_line(l),
        ));
    }
    assert(ps.subrange(0, pieces.len() as int) =~= ps);
    let nl: Vec<char> = vec!['\n'];
    let mut out = join_chars(&lines, &nl);
    out.push('\n');
    assert(nl@ =~= seq!['\n']);
    out
}

/// Paragraph joining of rendered fragments.
pub fn paragraph_join_chars(p: &Vec<Vec<char>>) -> (r: Vec<char>)
    ensures
        r@ == paragraph_join(views(p@)),
{
    let mut s: Vec<char> = Vec::new();
    let mut ends = false;
    let mut i: usize = 0;
    assert(views(p@).subrange(0, 0) =~= Seq::<Seq<char>>::empty());
    while i < p.len()
        invariant
            i <= p.len(),
            para_state(views(p@).subrange(0, i as int)) == (s@, ends),
        decreases p.len() - i,
    {
        let ghost now = views(p@).subrange(0, i + 1);
        assert(now.drop_last() =~= views(p@).subrange(0, i as int));
        let v = strip_spaces_chars(&p[i]);
        if i > 0 && v.len() > 0 && !ends && !(v[0] == ',' || v[0] == '.' || v[0] == ';' || v[0]
            == ':' || v[0] == '\n') {
            s.push(' ');
        }
        push_all(&mut s, &v);
        ends = v.len() > 0 && (v[v.len() - 1] == '\n' || v[v.len() - 1] == ' ');
        i = i + 1;
    }
    assert(views(p@).subrange(0, p.len() as int) =~= views(p@));
    s
}

fn wrap_chars(pre: Vec<char>, mid: &Vec<char>, post: &Vec<char>) -> (r: Vec<char>)
    ensures
        r@ == pre@ + mid@ + post@,
{
    let mut out = pre;
    push_all(&mut out, mid);
    push_all(&mut out, post);
    out
}

/// Renders a node at the given list depth and ordinal.
fn render_node(n: &MdNode, depth: usize, order: Option<usize>) -> (r: Result<Vec<char>, String>)
    ensures
        res_view(r) == render(*n, depth as nat, opt_nat(order)),
    decreases n,
{
    let empty: Vec<char> = Vec::new();
    assert(empty@ =~= Seq::<char>::empty());
    match n {
        MdNode::Root(c) => match render_children(c, depth, order) {
            Ok(p) => {
                let nl: Vec<char> = vec!['\n'];
                assert(nl@ =~= seq!['\n']);
                Ok(join_chars(&p, &nl))
            },
            Err(e) => Err(e),
        },
        MdNode::BlockQuote(c) => match render_children(c, depth, order) {
            Ok(p) => {
                let nl: Vec<char> = vec!['\n'];
                assert(nl@ =~= seq!['\n']);
                let s = join_chars(&p, &nl);
                Ok(quote_chars(&s))
            },
            Err(e) => Err(e),
        },
        MdNode::List { ordered, children } => {
            let d = if depth < usize::MAX {
                depth + 1
            } else {
                depth
            };
            match render_item_list(children, d, *ordered) {
                Ok(p) => Ok(join_chars(&p, &empty)),
                Err(e) => Err(e),
            }
        },
        MdNode::Heading { depth: d, children } => match render_children(children, depth, order) {
            Ok(p) => {
                let s = join_chars(&p, &empty);
                let hash: Vec<char> = vec!['#'];
                assert(hash@ =~= seq!['#']);
                let mut pre = repeat_chars(&hash, *d as usize);
                pre.push(' ');
                assert(pre@ =~= repeat(seq!['#'], *d as nat) + seq![' ']);
                Ok(wrap_chars(pre, &s, &empty))
            },
            Err(e) => Err(e),
        },
        MdNode::Code { lang, meta, value } => {
            let mut out: Vec<char> = vec!['`', '`', '`'];
            match lang {
                Some(l) => push_str(&mut out, l.as_str()),
                None => {},
            }
            match meta {
                Some(m) => {
                    out.push(' ');
                    push_str(&mut out, m.as_str());
                },
                None => {},
            }
            out.push('\n');
            push_str(&mut out, value.as_str());
            out.push('\n');
            out.push('`');
            out.push('`');
            out.push('`');
            out.push('\n');
            assert(out@ =~= code_block(*lang, *meta, value@));
            Ok(out)
        },
        MdNode::ListItem { checked, children } => match render_children(children, depth, order) {
            Ok(p) => {
                let s = join_chars(&p, &empty);
                let unit: Vec<char> = vec![' ', ' ', ' ', ' '];
                assert(unit@ =~= seq![' ', ' ', ' ', ' ']);
                let d = if depth > 0 {
                    depth - 1
                } else {
                    0
                };
                let mut pre = repeat_chars(&unit, d);
                let ghost p0 = pre@;
                match checked {
                    Some(true) => {
                        pre.push('-');
                        pre.push(' ');
                        pre.push('[');
                        pre.push('x');
                        pre.push(']');
                    },
                    Some(false) => {
                        pre.push('-');
                        pre.push(' ');
                        pre.push('[');
                        pre.push(' ');
                        pre.push(']');
                    },
                    None => match order {
                        Some(k) => {
                            let digits = decimal_chars(k);
                            push_all(&mut pre, &digits);
                            pre.push('.');
                        },
                        None => {
                            pre.push('-');
                        },
                    },
                }
                assert(pre@ =~= p0 + item_marker(opt_nat(order), *checked));
                pre.push(' ');
                assert(pre@ =~= indent(sat_dec(depth as nat)) + item_marker(opt_nat(order), *checked)
                    + seq![' ']);
                Ok(wrap_chars(pre, &s, &empty))
            },
            Err(e) => Err(e),
        },
        MdNode::Paragraph(c) => match render_children(c, depth, order) {
            Ok(p) => {
                let j = paragraph_join_chars(&p);
                let mut t = trim_chars(&j);
                t.push('\n');
                Ok(t)
            },
            Err(e) => Err(e),
        },
        MdNode::Emphasis(c) => match render_children(c, depth, order) {
            Ok(p) => {
                let s = join_chars(&p, &empty);
                let star: Vec<char> = vec!['*'];
                assert(star@ =~= seq!['*']);
                Ok(wrap_chars(vec!['*'], &s, &star))
            },
            Err(e) => Err(e),
        },
        MdNode::Strong(c) => match render_children(c, depth, order) {
            Ok(p) => {
                let s = join_chars(&p, &empty);
                let stars: Vec<char> = vec!['*', '*'];
                assert(stars@ =~= seq!['*', '*']);
                Ok(wrap_chars(vec!['*', '*'], &s, &stars))
            },
            Err(e) => Err(e),
        },
        MdNode::Delete(c) => match render_children(c, depth, order) {
            Ok(p) => {
                let s = join_chars(&p, &empty);
                let tildes: Vec<char> = vec!['~', '~'];
                assert(tildes@ =~= seq!['~', '~']);
                Ok(wrap_chars(vec!['~', '~'], &s, &tildes))
            },
            Err(e) => Err(e),
        },
        MdNode::FootnoteDefinition { identifier, children } => match render_children(
            children,
            depth,
            order,
        ) {
            Ok(p) => {
                let s = join_chars(&p, &empty);
                let mut pre: Vec<char> = vec!['[', '^'];
                push_str(&mut pre, identifier.as_str());
                pre.push(']');
                pre.push(':');
                pre.push(' ');
                assert(pre@ =~= seq!['[', '^'] + identifier@ + seq![']', ':', ' ']);
                Ok(wrap_chars(pre, &s, &empty))
            },
            Err(e) => Err(e),
        },
        MdNode::Break => {
            let r: Vec<char> = vec!['\n'];
            assert(r@ =~= seq!['\n']);
            Ok(r)
        },
        MdNode::Link { url, children } => match render_children(children, depth, order) {
            Ok(p) => {
                let t = join_chars(&p, &empty);
                let u = chars_of(url.as_str());
                if same_chars(&t, &u) {
                    Ok(u)
                } else {
                    let mut out: Vec<char> = vec!['['];
                    push_all(&mut out, &t);
                    out.push(']');
                    out.push('(');
                    push_all(&mut out, &u);
                    out.push(')');
                    assert(out@ =~= seq!['['] + t@ + seq![']', '('] + url@ + seq![')']);
                    Ok(out)
                }
            },
            Err(e) => Err(e),
        },
        MdNode::Table { align, children } => {
            let mut markers: Vec<Vec<char>> = Vec::new();
            let mut i: usize = 0;
            while i < align.len()
                invariant
                    i <= align.len(),
                    views(markers@) == align@.subrange(0, i as int).map_values(
                        |a: AlignKind| align_marker(a),
                    ),
                decreases align.len() - i,
            {
                let m: Vec<char> = match align[i] {
                    AlignKind::Left => vec![':', '-', '-'],
                    AlignKind::Right => vec!['-', '-', ':'],
                    AlignKind::Center => vec![':', '-', ':'],
                    AlignKind::Unaligned => vec!['-', '-', '-'],
                };
                assert(m@ =~= align_marker(align@[i as int]));
                let ghost o = markers@;
                markers.push(m);
                assert(views(markers@) =~= views(o).push(m@));
                assert(align@.subrange(0, i + 1) =~= align@.subrange(0, i as int).push(align@[i as int]));
                i = i + 1;
                assert(views(markers@) =~= align@.subrange(0, i as int).map_values(
                    |a: AlignKind| align_marker(a),
                ));
            }
            assert(align@.subrange(0, align.len() as int) =~= align@);
            let bar_sep: Vec<char> = vec![' ', '|', ' '];
            assert(bar_sep@ =~= bar());
            let sep = join_chars(&markers, &bar_sep);
            match render_table_rows(children, &sep, depth, order) {
                Ok(rows) => {
                    let nl: Vec<char> = vec!['\n'];
                    assert(nl@ =~= seq!['\n']);
                    Ok(join_chars(&rows, &nl))
                },
                Err(e) => Err(e),
            }
        },
        MdNode::TableRow(c) => match render_children(c, depth, order) {
            Ok(cells) => {
                let mut line = table_line_chars(&cells);
                line.push('\n');
                Ok(line)
            },
            Err(e) => Err(e),
        },
        MdNode::TableCell(c) => match render_children(c, depth, order) {
            Ok(p) => Ok(join_chars(&p, &empty)),
            Err(e) => Err(e),
        },
        MdNode::Html(v) => Ok(chars_of(v.as_str())),
        MdNode::Text(v) => Ok(chars_of(v.as_str())),
        MdNode::Math(v) => {
            let mut out: Vec<char> = vec!['$', '$', '\n'];
            push_str(&mut out, v.as_str());
            out.push('\n');
            out.push('$');
            out.push('$');
            assert(out@ =~= seq!['$', '$', '\n'] + v@ + seq!['\n', '$', '$']);
            Ok(out)
        },
        MdNode::InlineMath(v) => {
            let mut out: Vec<char> = vec!['$'];
            push_str(&mut out, v.as_str());
            out.push('$');
            assert(out@ =~= seq!['$'] + v@ + seq!['$']);
            Ok(out)
        },
        MdNode::Yaml(v) => {
            let mut out: Vec<char> = vec!['-', '-', '-', '\n'];
            push_str(&mut out, v.as_str());
            out.push('-');
            out.push('-');
            out.push('-');
            out.push('\n');
            assert(out@ =~= seq!['-', '-', '-', '\n'] + v@ + seq!['-', '-', '-', '\n']);
            Ok(out)
        },
        MdNode::FootnoteReference(id) => {
            let mut out: Vec<char> = vec!['[', '^'];
            push_str(&mut out, id.as_str());
            out.push(']');
            assert(out@ =~= seq!['[', '^'] + id@ + seq![']']);
            Ok(out)
        },
        MdNode::InlineCode(v) => {
            let mut out: Vec<char> = vec!['`'];
            push_str(&mut out, v.as_str());
            out.push('`');
            assert(out@ =~= seq!['`'] + v@ + seq!['`']);
            Ok(out)
        },
        MdNode::ThematicBreak => {
            let r: Vec<char> = vec!['-', '-', '-', '\n'];
            assert(r@ =~= seq!['-', '-', '-', '\n']);
            Ok(r)
        },
        MdNode::Image { alt, url } => {
            let mut out: Vec<char> = vec!['!', '['];
            push_str(&mut out, alt.as_str());
            out.push(']');
            out.push('(');
            push_str(&mut out, url.as_str());
            out.push(')');
            assert(out@ =~= seq!['!', '['] + alt@ + seq![']', '('] + url@ + seq![')']);
            Ok(out)
        },
        MdNode::Other(kind) => Err(kind.clone()),
    }
}

/// What a node renders to on its own, at list depth zero, trimmed.
pub open spec fn rendered(n: MdNode) -> Result<Seq<char>, Seq<char>> {
    match render(n, 0, None) {
        Ok(s) => Ok(trim(s)),
        Err(k) => Err(k),
    }
}

/// A paragraph as it renders on its own from its fragments.
pub open spec fn paragraph_from(frags: Seq<Seq<char>>) -> Seq<char> {
    trim(trim(paragraph_join(frags)).push('\n'))
}

/// Renders the sibling nodes from index `lo` on, stopping at the first
/// failure.
fn render_children_from(c: &Vec<MdNode>, lo: usize) -> (r: Result<Vec<Vec<char>>, String>)
    requires
        lo <= c.len(),
    ensures
        list_view(r) == render_list(c@.subrange(lo as int, c.len() as int), 0, None),
{
    let ghost t = c@.subrange(lo as int, c.len() as int);
    let mut out: Vec<Vec<char>> = Vec::new();
    let mut i: usize = lo;
    assert(t.subrange(0, 0) =~= Seq::<MdNode>::empty());
    assert(views(out@) =~= Seq::<Seq<char>>::empty());
    while i < c.len()
        invariant
            lo <= i <= c.len(),
            t == c@.subrange(lo as int, c.len() as int),
            render_list(t.subrange(0, i - lo), 0, None) == Ok::<Seq<Seq<char>>, Seq<char>>(
                views(out@),
            ),
        decreases c.len() - i,
    {
        let ghost k = i - lo;
        let ghost pre = t.subrange(0, k);
        let ghost now = t.subrange(0, k + 1);
        assert(now.subrange(0, now.len() - 1) =~= pre);
        assert(now[now.len() - 1] == c@[i as int]);
        match render_node(&c[i], 0, None) {
            Ok(x) => {
                let ghost o = out@;
                out.push(x);
                assert(views(out@) =~= views(o).push(x@));
            },
            Err(e) => {
                proof {
                    lemma_list_err(t, k + 1, 0, None);
                }
                return Err(e);
            },
        }
        i = i + 1;
    }
    assert(t.subrange(0, c.len() - lo) =~= t);
    Ok(out)
}

/// A node rendered on its own and trimmed, or the kind that failed.
pub fn rendered_chars(n: &MdNode) -> (r: Result<Vec<char>, String>)
    ensures
        res_view(r) == rendered(*n),
{
    match render_node(n, 0, None) {
        Ok(v) => Ok(trim_chars(&v)),
        Err(k) => Err(k),
    }
}

/// The paragraph whose first fragment is `first` and whose other children
/// are `c` from index `lo` on, rendered on its own.
pub fn rendered_paragraph_chars(first: Vec<char>, c: &Vec<MdNode>, lo: usize) -> (r: Result<
    Vec<char>,
    String,
>)
    requires
        lo <= c.len(),
    ensures
        res_view(r) == match render_list(c@.subrange(lo as int, c.len() as int), 0, None) {
            Ok(p) => Ok(paragraph_from(seq![first@] + p)),
            Err(e) => Err(e),
        },
{
    match render_children_from(c, lo) {
        Ok(rest) => {
            let mut frags: Vec<Vec<char>> = Vec::new();
            let ghost f0 = first@;
            frags.push(first);
            let ghost r0 = views(rest@);
            let mut i: usize = 0;
            while i < rest.len()
                invariant
                    i <= rest.len(),
                    r0 == views(rest@),
                    views(frags@) == seq![f0] + r0.subrange(0, i as int),
                decreases rest.len() - i,
            {
                let x = slice_chars(&rest[i], 0, rest[i].len());
                assert(rest[i as int]@.subrange(0, rest[i as int]@.len() as int) =~= rest[i as int]@);
                let ghost o = frags@;
                frags.push(x);
                assert(views(frags@) =~= views(o).push(x@));
                i = i + 1;
                assert(views(frags@) =~= seq![f0] + r0.subrange(0, i as int));
            }
            assert(r0.subrange(0, rest.len() as int) =~= r0);
            let j = paragraph_join_chars(&frags);
            let mut t = trim_chars(&j);
            t.push('\n');
            Ok(trim_chars(&t))
        },
        Err(e) => Err(e),
    }
}

/// Renders syntax-tree nodes as Markdown text.
pub struct AstPrinter {}

impl AstPrinter {
    /// The node rendered and trimmed, or the kind of the first node in it
    /// that cannot be rendered.
    pub fn print(node: &MdNode) -> (r: Result<String, NoteError>)
        ensures
            match rendered(*node) {
                Ok(s) => r matches Ok(t) && t@ == s,
                Err(k) => r matches Err(NoteError::UnsupportedSyntax(m)) && m@ == k,
            },
    {
        match render_node(node, 0, None) {
            Ok(v) => {
                let t = trim_chars(&v);
                Ok(string_of(&t))
            },
            Err(k) => Err(NoteError::UnsupportedSyntax(k)),
        }
    }
}

} // verus!
