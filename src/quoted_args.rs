//! Splitting a line into arguments: separated by spaces, grouped by double
//! quotes, with backslash escaping the next character.

use vstd::prelude::*;

use crate::text::{chars_of, string_of};

verus! {

/// The scanning state: the finished arguments, the one being read, whether
/// inside quotes, and whether the previous character was a backslash.
pub open spec fn step(st: (Seq<Seq<char>>, Seq<char>, bool, bool), c: char) -> (
    Seq<Seq<char>>,
    Seq<char>,
    bool,
    bool,
) {
    let (done, cur, quoted, escaped) = st;
    if escaped {
        (done, cur.push(c), quoted, false)
    } else if c == '"' {
        if quoted {
            (done.push(cur), Seq::empty(), false, false)
        } else {
            (done, cur, true, false)
        }
    } else if c == '\\' {
        (done, cur, quoted, true)
    } else if c == ' ' {
        if quoted {
            (done, cur.push(c), quoted, false)
        } else if cur.len() > 0 {
            (done.push(cur), Seq::empty(), quoted, false)
        } else {
            (done, cur, quoted, false)
        }
    } else {
        (done, cur.push(c), quoted, false)
    }
}

pub open spec fn scan(s: Seq<char>) -> (Seq<Seq<char>>, Seq<char>, bool, bool)
    decreases s.len(),
{
    if s.len() == 0 {
        (Seq::empty(), Seq::empty(), false, false)
    } else {
        step(scan(s.drop_last()), s.last())
    }
}

/// The arguments of a line.
pub open spec fn quoted_args(s: Seq<char>) -> Seq<Seq<char>> {
    let st = scan(s);
    if st.1.len() > 0 {
        st.0.push(st.1)
    } else {
        st.0
    }
}

pub open spec fn string_views(v: Seq<String>) -> Seq<Seq<char>> {
    Seq::new(v.len(), |i: int| v[i]@)
}

/// Splits a line into arguments.
pub fn parse_quoted_args(input: &str) -> (r: Vec<String>)
    ensures
        string_views(r@) == quoted_args(input@),
{
    let s = chars_of(input);
    let mut chunks: Vec<String> = Vec::new();
    let mut chunk: Vec<char> = Vec::new();
    let mut quoted = false;
    let mut escaped = false;
    let mut i: usize = 0;
    assert(s@.subrange(0, 0) =~= Seq::<char>::empty());
    assert(string_views(chunks@) =~= Seq::<Seq<char>>::empty());
    while i < s.len()
        invariant
            i <= s.len(),
            scan(s@.subrange(0, i as int)) == (string_views(chunks@), chunk@, quoted, escaped),
        decreases s.len() - i,
    {
        let c = s[i];
        if escaped {
            chunk.push(c);
            escaped = false;
        } else if c == '"' {
            if quoted {
                chunks.push(string_of(&chunk));
                chunk = Vec::new();
            }
            quoted = !quoted;
        } else if c == '\\' {
            escaped = true;
        } else if c == ' ' {
            if quoted {
                chunk.push(c);
            } else if chunk.len() > 0 {
                chunks.push(string_of(&chunk));
                chunk = Vec::new();
            }
        } else {
            chunk.push(c);
        }
        i = i + 1;
        assert(s@.subrange(0, i as int).drop_last() =~= s@.subrange(0, i - 1));
        assert(chunk@ =~= scan(s@.subrange(0, i as int)).1);
        assert(string_views(chunks@) =~= scan(s@.subrange(0, i as int)).0);
    }
    assert(s@.subrange(0, s.len() as int) =~= s@);
    if chunk.len() > 0 {
        chunks.push(string_of(&chunk));
        assert(string_views(chunks@) =~= quoted_args(input@));
    }
    chunks
}

} // verus!
