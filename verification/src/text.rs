//! Character-sequence helpers: string decomposition, whitespace trimming,
//! splitting on a separator, and ASCII lowercasing.
//!
//! The quiz works on the characters of its inputs, so the helpers here
//! operate on `Vec<char>` and are specified over `Seq<char>`.

use vstd::prelude::*;

verus! {

/// A whitespace character, as far as trimming is concerned: the ASCII
/// blank, tab, line feed, and carriage return.
pub open spec fn is_ws(c: char) -> bool {
    c == ' ' || c == '\t' || c == '\n' || c == '\r'
}

/// `s` with leading and trailing whitespace removed.
pub open spec fn spec_trim(s: Seq<char>) -> Seq<char>
    decreases s.len(),
{
    if s.len() == 0 {
        s
    } else if is_ws(s[0]) {
        spec_trim(s.drop_first())
    } else if is_ws(s.last()) {
        spec_trim(s.drop_last())
    } else {
        s
    }
}

/// `s` split at every occurrence of `sep`; the separators themselves are
/// dropped, and `n` separators yield `n + 1` (possibly empty) parts.
pub open spec fn spec_split(s: Seq<char>, sep: char) -> Seq<Seq<char>>
    decreases s.len(),
{
    if s.len() == 0 {
        seq![Seq::<char>::empty()]
    } else if s[0] == sep {
        seq![Seq::<char>::empty()] + spec_split(s.drop_first(), sep)
    } else {
        let rest = spec_split(s.drop_first(), sep);
        seq![seq![s[0]] + rest[0]] + rest.drop_first()
    }
}

/// The views of a sequence of character vectors.
pub open spec fn views(s: Seq<Vec<char>>) -> Seq<Seq<char>> {
    s.map_values(|v: Vec<char>| v@)
}

/// The characters of `s`, in order.
pub fn chars_of(s: &str) -> (r: Vec<char>)
    ensures
        r@ == s@,
{
    let mut out: Vec<char> = Vec::new();
    for c in it: s.chars()
        invariant
            it.seq() == s@,
            out@ == it.seq().take(it.index() as int),
    {
        out.push(c);
    }
    proof {
        assert(out@ =~= s@);
    }
    out
}

/// Whether `c` counts as whitespace for trimming.
pub fn is_ws_char(c: char) -> (r: bool)
    ensures
        r == is_ws(c),
{
    c == ' ' || c == '\t' || c == '\n' || c == '\r'
}

/// `cs` with leading and trailing whitespace removed.
pub fn trim_chars(cs: Vec<char>) -> (r: Vec<char>)
    ensures
        r@ == spec_trim(cs@),
    decreases cs@.len(),
{
    if cs.len() == 0 {
        cs
    } else if is_ws_char(cs[0]) {
        let mut rest = cs;
        rest.remove(0);
        proof {
            assert(rest@ =~= cs@.drop_first());
        }
        trim_chars(rest)
    } else if is_ws_char(cs[cs.len() - 1]) {
        let mut rest = cs;
        rest.pop();
        proof {
            assert(rest@ =~= cs@.drop_last());
        }
        trim_chars(rest)
    } else {
        cs
    }
}

/// `cs` split at every occurrence of `sep`.
pub fn split_chars(cs: &Vec<char>, sep: char) -> (r: Vec<Vec<char>>)
    ensures
        views(r@) == spec_split(cs@, sep),
        r@.len() >= 1,
    decreases cs@.len(),
{
    if cs.len() == 0 {
        let empty: Vec<char> = Vec::new();
        let mut out: Vec<Vec<char>> = Vec::new();
        out.push(empty);
        proof {
            assert(views(out@) =~= spec_split(cs@, sep));
        }
        out
    } else if cs[0] == sep {
        let mut tail = cs.clone();
        tail.remove(0);
        proof {
            assert(tail@ =~= cs@.drop_first());
        }
        let rest = split_chars(&tail, sep);
        let empty: Vec<char> = Vec::new();
        let mut out = rest;
        out.insert(0, empty);
        proof {
            assert(views(out@) =~= spec_split(cs@, sep));
        }
        out
    } else {
        let head = cs[0];
        let mut tail = cs.clone();
        tail.remove(0);
        proof {
            assert(tail@ =~= cs@.drop_first());
        }
        let mut rest = split_chars(&tail, sep);
        let mut first = rest.remove(0);
        first.insert(0, head);
        proof {
            assert(first@ =~= seq![cs@[0]] + spec_split(cs@.drop_first(), sep)[0]);
        }
        rest.insert(0, first);
        proof {
            assert(views(rest@) =~= spec_split(cs@, sep));
        }
        rest
    }
}

/// The ASCII-lowercase counterpart of `c`: letters `A` through `Z` map to
/// their lowercase forms, every other character stays as it is.
pub open spec fn lower_char(c: char) -> char {
    if 'A' <= c && c <= 'Z' {
        ((c as u8) + 32) as char
    } else {
        c
    }
}

/// `s` with every character ASCII-lowercased.
pub open spec fn lower_seq(s: Seq<char>) -> Seq<char> {
    s.map_values(|c: char| lower_char(c))
}

/// The ASCII-lowercase counterpart of `c`.
pub fn lower_char_exec(c: char) -> (r: char)
    ensures
        r == lower_char(c),
{
    if 'A' <= c && c <= 'Z' {
        ((c as u8) + 32) as char
    } else {
        c
    }
}

/// `cs` with every character ASCII-lowercased.
pub fn lower_chars(cs: &Vec<char>) -> (r: Vec<char>)
    ensures
        r@ == lower_seq(cs@),
{
    let mut out: Vec<char> = Vec::new();
    let n = cs.len();
    for i in 0..n
        invariant
            n == cs@.len(),
            out@.len() == i,
            forall|j: int| 0 <= j < i ==> out@[j] == lower_char(cs@[j]),
    {
        out.push(lower_char_exec(cs[i]));
    }
    proof {
        assert(out@ =~= lower_seq(cs@));
    }
    out
}

/// Whether the two character vectors hold the same characters.
pub fn chars_eq(a: &Vec<char>, b: &Vec<char>) -> (r: bool)
    ensures
        r == (a@ == b@),
{
    if a.len() != b.len() {
        return false;
    }
    let n = a.len();
    for i in 0..n
        invariant
            n == a@.len() == b@.len(),
            forall|j: int| 0 <= j < i ==> a@[j] == b@[j],
    {
        if a[i] != b[i] {
            return false;
        }
    }
    proof {
        assert(a@ =~= b@);
    }
    true
}

} // verus!
