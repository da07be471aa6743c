//! Character-level string utilities shared by the resolver stages.
//!
//! Searches are specified by index-based recursive spec functions, which the
//! executable loops mirror step for step.

use vstd::prelude::*;

verus! {

/// Position of the first occurrence of `c` in `s` at or after position `i`.
pub open spec fn first_index_from(s: Seq<char>, c: char, i: int) -> Option<int>
    decreases s.len() - i,
{
    if i < 0 || i >= s.len() {
        None
    } else if s[i] == c {
        Some(i)
    } else {
        first_index_from(s, c, i + 1)
    }
}

pub proof fn lemma_first_index_from(s: Seq<char>, c: char, i: int)
    requires
        0 <= i <= s.len(),
    ensures
        match first_index_from(s, c, i) {
            Some(j) => i <= j < s.len() && s[j] == c && (forall|k: int| i <= k < j ==> s[k] != c),
            None => forall|k: int| i <= k < s.len() ==> s[k] != c,
        },
    decreases s.len() - i,
{
    if i < s.len() && s[i] != c {
        lemma_first_index_from(s, c, i + 1);
    }
}

/// Position of the last occurrence of `c` in `s` strictly before position `i`.
pub open spec fn last_index_until(s: Seq<char>, c: char, i: int) -> Option<int>
    decreases i,
{
    if i <= 0 || i > s.len() {
        None
    } else if s[i - 1] == c {
        Some(i - 1)
    } else {
        last_index_until(s, c, i - 1)
    }
}

pub proof fn lemma_last_index_until(s: Seq<char>, c: char, i: int)
    requires
        0 <= i <= s.len(),
    ensures
        match last_index_until(s, c, i) {
            Some(j) => 0 <= j < i && s[j] == c && (forall|k: int| j < k < i ==> s[k] != c),
            None => forall|k: int| 0 <= k < i ==> s[k] != c,
        },
    decreases i,
{
    if 0 < i && s[i - 1] != c {
        lemma_last_index_until(s, c, i - 1);
    }
}

/// First occurrence of `c` in `s` at or after `from`.
pub fn find_first(s: &str, c: char, from: usize) -> (r: Option<usize>)
    requires
        from <= s@.len(),
    ensures
        match r {
            Some(j) => first_index_from(s@, c, from as int) == Some(j as int),
            None => first_index_from(s@, c, from as int) is None,
        },
{
    let n = s.unicode_len();
    let mut i: usize = from;
    while i < n
        invariant
            from <= i <= n,
            n == s@.len(),
            first_index_from(s@, c, from as int) == first_index_from(s@, c, i as int),
        decreases n - i,
    {
        if s.get_char(i) == c {
            return Some(i);
        }
        i = i + 1;
    }
    None
}

/// Last occurrence of `c` in `s` strictly before `until`.
pub fn find_last(s: &str, c: char, until: usize) -> (r: Option<usize>)
    requires
        until <= s@.len(),
    ensures
        match r {
            Some(j) => last_index_until(s@, c, until as int) == Some(j as int),
            None => last_index_until(s@, c, until as int) is None,
        },
{
    let mut i: usize = until;
    while i > 0
        invariant
            0 <= i <= until,
            until <= s@.len(),
            last_index_until(s@, c, until as int) == last_index_until(s@, c, i as int),
        decreases i,
    {
        if s.get_char(i - 1) == c {
            return Some(i - 1);
        }
        i = i - 1;
    }
    None
}

/// Character-for-character string equality.
pub fn str_eq(a: &str, b: &str) -> (r: bool)
    ensures
        r == (a@ == b@),
{
    let na = a.unicode_len();
    let nb = b.unicode_len();
    if na != nb {
        return false;
    }
    let mut i: usize = 0;
    while i < na
        invariant
            i <= na,
            na == a@.len(),
            nb == b@.len(),
            na == nb,
            forall|k: int| 0 <= k < i ==> a@[k] == b@[k],
        decreases na - i,
    {
        if s_ne(a.get_char(i), b.get_char(i)) {
            return false;
        }
        i = i + 1;
    }
    proof {
        assert(a@ =~= b@);
    }
    true
}

/// `p` is a prefix of `s`.
pub open spec fn is_prefix_of(p: Seq<char>, s: Seq<char>) -> bool {
    p.len() <= s.len() && s.subrange(0, p.len() as int) == p
}

pub fn str_starts_with(s: &str, p: &str) -> (r: bool)
    ensures
        r == is_prefix_of(p@, s@),
{
    let np = p.unicode_len();
    let ns = s.unicode_len();
    if np > ns {
        return false;
    }
    let mut i: usize = 0;
    while i < np
        invariant
            i <= np,
            np == p@.len(),
            ns == s@.len(),
            np <= ns,
            forall|k: int| 0 <= k < i ==> s@[k] == p@[k],
        decreases np - i,
    {
        if s_ne(s.get_char(i), p.get_char(i)) {
            proof {
                assert(s@.subrange(0, p@.len() as int)[i as int] == s@[i as int]);
            }
            return false;
        }
        i = i + 1;
    }
    proof {
        assert(s@.subrange(0, p@.len() as int) =~= p@);
    }
    true
}

/// `x` is a suffix of `s`.
pub open spec fn is_suffix_of(x: Seq<char>, s: Seq<char>) -> bool {
    x.len() <= s.len() && s.subrange(s.len() - x.len(), s.len() as int) == x
}

pub fn str_ends_with(s: &str, x: &str) -> (r: bool)
    ensures
        r == is_suffix_of(x@, s@),
{
    let nx = x.unicode_len();
    let ns = s.unicode_len();
    if nx > ns {
        return false;
    }
    let off = ns - nx;
    let mut i: usize = 0;
    while i < nx
        invariant
            i <= nx,
            nx == x@.len(),
            ns == s@.len(),
            nx <= ns,
            off == ns - nx,
            forall|k: int| 0 <= k < i ==> s@[off + k] == x@[k],
        decreases nx - i,
    {
        if s_ne(s.get_char(off + i), x.get_char(i)) {
            proof {
                assert(s@.subrange(s@.len() - x@.len(), s@.len() as int)[i as int] == s@[off + i]);
            }
            return false;
        }
        i = i + 1;
    }
    proof {
        assert(s@.subrange(s@.len() - x@.len(), s@.len() as int) =~= x@);
    }
    true
}

/// Character inequality, spelled out so the contracts can speak of it.
fn s_ne(a: char, b: char) -> (r: bool)
    ensures
        r == (a != b),
{
    a != b
}

/// Appends the single character `s[i]` to `dst`.
pub fn append_char_of(dst: &mut String, s: &str, i: usize)
    requires
        i < s@.len(),
        s@.len() <= usize::MAX,
    ensures
        final(dst)@ == old(dst)@ + seq![s@[i as int]],
{
    let piece = s.substring_char(i, i + 1);
    proof {
        assert(piece@ =~= seq![s@[i as int]]);
    }
    dst.append(piece);
}

/// A freshly owned copy of `s[from..to]`.
pub fn substr_copy(s: &str, from: usize, to: usize) -> (r: String)
    requires
        from <= to <= s@.len(),
    ensures
        r@ == s@.subrange(from as int, to as int),
{
    let piece = s.substring_char(from, to);
    String::from_str(piece)
}

/// Concatenation of two string slices.
pub fn concat_strs(a: &str, b: &str) -> (r: String)
    ensures
        r@ == a@ + b@,
{
    let mut r = String::from_str(a);
    r.append(b);
    r
}

} // verus!
