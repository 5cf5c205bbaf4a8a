//! The index artifact: a JSON array of the entries of the notes that have
//! metadata.

use vstd::prelude::*;

use crate::text::{chars_of, join, join_chars, string_of, views};

verus! {

/// The texts of the entries that are present, in order.
pub open spec fn present(s: Seq<Option<String>>) -> Seq<Seq<char>>
    decreases s.len(),
{
    if s.len() == 0 {
        Seq::empty()
    } else {
        let p = present(s.drop_last());
        match s.last() {
            Some(t) => p.push(t@),
            None => p,
        }
    }
}

/// The JSON array of the present entries.
pub open spec fn index_text(s: Seq<Option<String>>) -> Seq<char> {
    seq!['['] + join(present(s), seq![',']) + seq![']']
}

/// Prints the index of a set of notes.
pub struct IndexPrinter {}

impl IndexPrinter {
    /// The array of the entries given, skipping the notes without one. Each
    /// entry is the JSON text of one note's index item.
    pub fn print(entries: &Vec<Option<String>>) -> (r: String)
        ensures
            r@ == index_text(entries@),
    {
        let mut items: Vec<Vec<char>> = Vec::new();
        let mut i: usize = 0;
        assert(entries@.subrange(0, 0) =~= Seq::<Option<String>>::empty());
        assert(views(items@) =~= Seq::<Seq<char>>::empty());
        while i < entries.len()
            invariant
                i <= entries.len(),
                views(items@) == present(entries@.subrange(0, i as int)),
            decreases entries.len() - i,
        {
            let ghost o = items@;
            match &entries[i] {
                Some(t) => {
                    let v = chars_of(t.as_str());
                    items.push(v);
                    assert(views(items@) =~= views(o).push(v@));
                },
                None => {},
            }
            i = i + 1;
            assert(entries@.subrange(0, i as int).drop_last() =~= entries@.subrange(0, i - 1));
        }
        assert(entries@.subrange(0, entries.len() as int) =~= entries@);
        let comma: Vec<char> = vec![','];
        assert(comma@ =~= seq![',']);
        let body = join_chars(&items, &comma);
        let mut out: Vec<char> = vec!['['];
        let mut body2 = body;
        out.append(&mut body2);
        out.push(']');
        assert(out@ =~= index_text(entries@));
        string_of(&out)
    }
}

} // verus!
