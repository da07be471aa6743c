//! The specifier parser: splits a raw import string into target, query and
//! fragment.
//!
//! The fragment starts at the last unescaped `#`; the query at the first
//! unescaped `?` before it. A delimiter is escaped when the zero character
//! immediately precedes it; the marker itself is stripped from the target.
//! Malformed escapes are kept as literal characters.

use vstd::prelude::*;
use crate::strutil::substr_copy;

verus! {

/// A parsed specifier.
#[derive(Clone, Debug)]
pub struct Request {
    /// The path part, which later stages rewrite.
    pub target: String,
    /// The query suffix, `?` included, or empty.
    pub query: String,
    /// The fragment suffix, `#` included, or empty.
    pub fragment: String,
}

/// The escape marker: a delimiter directly after it is literal.
pub open spec fn esc_char() -> char {
    '\u{0}'
}

/// Position of the last unescaped `#` strictly before `i`.
pub open spec fn frag_index_until(s: Seq<char>, i: int) -> Option<int>
    decreases i,
{
    if i <= 0 || i > s.len() {
        None
    } else if s[i - 1] == '#' && (i - 1 == 0 || s[i - 2] != esc_char()) {
        Some(i - 1)
    } else {
        frag_index_until(s, i - 1)
    }
}

/// Position of the first unescaped `?` at or after `i`, before `end`.
pub open spec fn query_index_from(s: Seq<char>, i: int, end: int) -> Option<int>
    decreases end - i,
{
    if i < 0 || i >= end || end > s.len() {
        None
    } else if s[i] == '?' && (i == 0 || s[i - 1] != esc_char()) {
        Some(i)
    } else {
        query_index_from(s, i + 1, end)
    }
}

/// `s[i..]` with every escape marker that guards a delimiter removed.
pub open spec fn spec_strip(s: Seq<char>, i: int) -> Seq<char>
    decreases s.len() - i,
{
    if i < 0 || i >= s.len() {
        seq![]
    } else if s[i] == esc_char() && i + 1 < s.len() && (s[i + 1] == '#' || s[i + 1] == '?') {
        spec_strip(s, i + 1)
    } else {
        seq![s[i]] + spec_strip(s, i + 1)
    }
}

/// Where the fragment starts: the end of the string when there is none.
pub open spec fn spec_frag_start(s: Seq<char>) -> int {
    match frag_index_until(s, s.len() as int) {
        Some(i) => i,
        None => s.len() as int,
    }
}

/// Where the query starts: the fragment start when there is none.
pub open spec fn spec_query_start(s: Seq<char>) -> int {
    match query_index_from(s, 0, spec_frag_start(s)) {
        Some(i) => i,
        None => spec_frag_start(s),
    }
}

pub open spec fn spec_target_of(s: Seq<char>) -> Seq<char> {
    spec_strip(s.subrange(0, spec_query_start(s)), 0)
}

pub open spec fn spec_query_of(s: Seq<char>) -> Seq<char> {
    s.subrange(spec_query_start(s), spec_frag_start(s))
}

pub open spec fn spec_fragment_of(s: Seq<char>) -> Seq<char> {
    s.subrange(spec_frag_start(s), s.len() as int)
}

proof fn lemma_frag_start_bounds(s: Seq<char>)
    ensures
        0 <= spec_frag_start(s) <= s.len(),
    decreases s.len(),
{
    lemma_frag_until_bounds(s, s.len() as int);
}

proof fn lemma_frag_until_bounds(s: Seq<char>, i: int)
    requires
        i <= s.len(),
    ensures
        match frag_index_until(s, i) {
            Some(j) => 0 <= j < i,
            None => true,
        },
    decreases i,
{
    if i > 0 {
        lemma_frag_until_bounds(s, i - 1);
    }
}

proof fn lemma_query_bounds(s: Seq<char>, i: int, end: int)
    requires
        0 <= i,
        end <= s.len(),
    ensures
        match query_index_from(s, i, end) {
            Some(j) => i <= j < end,
            None => true,
        },
    decreases end - i,
{
    if i < end && end <= s.len() {
        lemma_query_bounds(s, i + 1, end);
    }
}

fn find_frag_start(s: &str) -> (r: usize)
    ensures
        r as int == spec_frag_start(s@),
{
    let n = s.unicode_len();
    let mut i: usize = n;
    while i > 0
        invariant
            0 <= i <= n,
            n == s@.len(),
            frag_index_until(s@, n as int) == frag_index_until(s@, i as int),
        decreases i,
    {
        if s.get_char(i - 1) == '#' && (i - 1 == 0 || s.get_char(i - 2) != '\u{0}') {
            return i - 1;
        }
        i = i - 1;
    }
    n
}

fn find_query_start(s: &str, end: usize) -> (r: usize)
    requires
        end <= s@.len(),
    ensures
        r as int == (match query_index_from(s@, 0, end as int) {
            Some(j) => j,
            None => end as int,
        }),
{
    let mut i: usize = 0;
    while i < end
        invariant
            0 <= i <= end,
            end <= s@.len(),
            query_index_from(s@, 0, end as int) == query_index_from(s@, i as int, end as int),
        decreases end - i,
    {
        if s.get_char(i) == '?' && (i == 0 || s.get_char(i - 1) != '\u{0}') {
            return i;
        }
        i = i + 1;
    }
    end
}

fn strip_escapes(s: &str) -> (r: String)
    ensures
        r@ == spec_strip(s@, 0),
{
    let n = s.unicode_len();
    let mut r = String::new();
    let mut i: usize = 0;
    while i < n
        invariant
            0 <= i <= n,
            n == s@.len(),
            spec_strip(s@, 0) == r@ + spec_strip(s@, i as int),
        decreases n - i,
    {
        let c = s.get_char(i);
        if c == '\u{0}' && i + 1 < n && (s.get_char(i + 1) == '#' || s.get_char(i + 1) == '?') {
            // escape marker: dropped
        } else {
            let ghost prev = r@;
            crate::strutil::append_char_of(&mut r, s, i);
            proof {
                assert(prev + (seq![s@[i as int]] + spec_strip(s@, i + 1)) =~= (prev + seq![
                    s@[i as int],
                ]) + spec_strip(s@, i + 1));
            }
        }
        i = i + 1;
    }
    proof {
        assert(spec_strip(s@, n as int) =~= Seq::<char>::empty());
        assert(r@ =~= r@ + spec_strip(s@, n as int));
    }
    r
}

/// Splits a raw specifier into target, query and fragment.
pub fn parse(s: &str) -> (r: Request)
    ensures
        r.target@ == spec_target_of(s@),
        r.query@ == spec_query_of(s@),
        r.fragment@ == spec_fragment_of(s@),
{
    let n = s.unicode_len();
    let frag_start = find_frag_start(s);
    proof {
        lemma_frag_start_bounds(s@);
    }
    let query_start = find_query_start(s, frag_start);
    proof {
        lemma_query_bounds(s@, 0, frag_start as int);
    }
    let head = substr_copy(s, 0, query_start);
    let target = strip_escapes(head.as_str());
    let query = substr_copy(s, query_start, frag_start);
    let fragment = substr_copy(s, frag_start, n);
    Request { target, query, fragment }
}

} // verus!
