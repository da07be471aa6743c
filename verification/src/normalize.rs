//! Path normalization and joining, plus alias rewriting.
//!
//! A path is normalized by mapping backslash separators to `/`, splitting on
//! `/`, folding the segments through a stack that drops empty and `.`
//! segments and lets `..` pop its parent, and joining the remainder.

use vstd::prelude::*;
use crate::strutil::{
    first_index_from, lemma_first_index_from, find_first, str_eq, append_char_of, substr_copy,
    concat_strs, is_prefix_of,
};

verus! {

/// `p` with every backslash separator replaced by `/`.
pub open spec fn spec_seps(p: Seq<char>) -> Seq<char> {
    Seq::new(p.len(), |i: int| if p[i] == '\\' { '/' } else { p[i] })
}

pub fn replace_seps(s: &str) -> (r: String)
    ensures
        r@ == spec_seps(s@),
{
    let n = s.unicode_len();
    let mut r = String::new();
    let mut i: usize = 0;
    while i < n
        invariant
            i <= n,
            n == s@.len(),
            r@ == spec_seps(s@).subrange(0, i as int),
        decreases n - i,
    {
        if s.get_char(i) == '\\' {
            r.append("/");
            proof {
                reveal_strlit("/");
                assert(r@ =~= spec_seps(s@).subrange(0, i + 1));
            }
        } else {
            append_char_of(&mut r, s, i);
            proof {
                assert(r@ =~= spec_seps(s@).subrange(0, i + 1));
            }
        }
        i = i + 1;
    }
    proof {
        assert(spec_seps(s@).subrange(0, n as int) =~= spec_seps(s@));
    }
    r
}

/// The `/`-separated segments of the suffix of `s` that starts at `i`.
pub open spec fn segs_from(s: Seq<char>, i: int) -> Seq<Seq<char>>
    decreases s.len() - i,
    when 0 <= i <= s.len()
    via segs_from_decreases
{
    match first_index_from(s, '/', i) {
        Some(j) => seq![s.subrange(i, j)] + segs_from(s, j + 1),
        None => seq![s.subrange(i, s.len() as int)],
    }
}

#[via_fn]
proof fn segs_from_decreases(s: Seq<char>, i: int) {
    if 0 <= i <= s.len() {
        lemma_first_index_from(s, '/', i);
    }
}

pub fn split_path(s: &str, i: usize) -> (r: Vec<String>)
    requires
        i <= s@.len(),
    ensures
        r.deep_view() == segs_from(s@, i as int),
    decreases s@.len() - i,
{
    proof {
        lemma_first_index_from(s@, '/', i as int);
    }
    let n = s.unicode_len();
    match find_first(s, '/', i) {
        None => {
            let seg = substr_copy(s, i, n);
            let mut r: Vec<String> = Vec::new();
            r.push(seg);
            proof {
                assert(r.deep_view() =~= segs_from(s@, i as int));
            }
            r
        },
        Some(j) => {
            let seg = substr_copy(s, i, j);
            let mut r = split_path(s, j + 1);
            r.insert(0, seg);
            proof {
                assert(r.deep_view() =~= segs_from(s@, i as int));
            }
            r
        },
    }
}

/// One step of the normalization stack: skip empty and `.` segments, let `..`
/// pop a non-`..` parent (or vanish at an absolute root), push the rest.
pub open spec fn step_seg(st: Seq<Seq<char>>, g: Seq<char>, abs: bool) -> Seq<Seq<char>> {
    if g.len() == 0 || g == seq!['.'] {
        st
    } else if g == seq!['.', '.'] {
        if st.len() > 0 && st[st.len() - 1] != seq!['.', '.'] {
            st.drop_last()
        } else if abs {
            st
        } else {
            st.push(g)
        }
    } else {
        st.push(g)
    }
}

/// Folds the segments `segs[i..]` through the normalization stack `st`.
pub open spec fn apply_from(segs: Seq<Seq<char>>, i: int, st: Seq<Seq<char>>, abs: bool) -> Seq<
    Seq<char>,
>
    decreases segs.len() - i,
{
    if i < 0 || i >= segs.len() {
        st
    } else {
        apply_from(segs, i + 1, step_seg(st, segs[i], abs), abs)
    }
}

fn apply_all(segs: &Vec<String>, abs: bool) -> (r: Vec<String>)
    ensures
        r.deep_view() == apply_from(segs.deep_view(), 0, Seq::empty(), abs),
{
    let mut st: Vec<String> = Vec::new();
    let mut i: usize = 0;
    proof {
        assert(st.deep_view() =~= Seq::<Seq<char>>::empty());
    }
    while i < segs.len()
        invariant
            i <= segs.len(),
            apply_from(segs.deep_view(), 0, Seq::empty(), abs) == apply_from(
                segs.deep_view(),
                i as int,
                st.deep_view(),
                abs,
            ),
        decreases segs.len() - i,
    {
        let ghost old_st = st.deep_view();
        let ghost g = segs.deep_view()[i as int];
        let seg = &segs[i];
        if seg.as_str().unicode_len() == 0 || str_eq(seg.as_str(), ".") {
            proof {
                reveal_strlit(".");
                assert("."@ =~= seq!['.']);
                assert(step_seg(old_st, g, abs) == old_st);
            }
        } else if str_eq(seg.as_str(), "..") {
            proof {
                reveal_strlit("..");
                assert(".."@ =~= seq!['.', '.']);
            }
            if st.len() > 0 && !str_eq(st[st.len() - 1].as_str(), "..") {
                st.pop();
                proof {
                    assert(st.deep_view() =~= old_st.drop_last());
                }
            } else if abs {
                // the stack stays as it is
            } else {
                st.push(seg.clone());
                proof {
                    assert(st.deep_view() =~= old_st.push(g));
                }
            }
        } else {
            proof {
                reveal_strlit(".");
                reveal_strlit("..");
                assert("."@ =~= seq!['.']);
                assert(".."@ =~= seq!['.', '.']);
            }
            st.push(seg.clone());
            proof {
                assert(st.deep_view() =~= old_st.push(g));
            }
        }
        proof {
            assert(st.deep_view() == step_seg(old_st, g, abs));
        }
        i = i + 1;
    }
    st
}

/// The first `i` segments joined with `/`.
pub open spec fn join_upto(st: Seq<Seq<char>>, i: int) -> Seq<char>
    decreases i,
{
    if i <= 0 || i > st.len() {
        seq![]
    } else if i == 1 {
        st[0]
    } else {
        join_upto(st, i - 1) + seq!['/'] + st[i - 1]
    }
}

fn join_all(st: &Vec<String>) -> (r: String)
    requires
        st.len() > 0,
    ensures
        r@ == join_upto(st.deep_view(), st.len() as int),
{
    let mut r = String::from_str(st[0].as_str());
    let mut i: usize = 1;
    while i < st.len()
        invariant
            1 <= i <= st.len(),
            r@ == join_upto(st.deep_view(), i as int),
        decreases st.len() - i,
    {
        r.append("/");
        r.append(st[i].as_str());
        proof {
            reveal_strlit("/");
            assert("/"@ =~= seq!['/']);
            assert(r@ =~= join_upto(st.deep_view(), i + 1));
        }
        i = i + 1;
    }
    r
}

/// The normalized path rendered from a segment stack.
pub open spec fn render(st: Seq<Seq<char>>, abs: bool) -> Seq<char> {
    if st.len() == 0 {
        if abs {
            seq!['/']
        } else {
            seq!['.']
        }
    } else {
        if abs {
            seq!['/'] + join_upto(st, st.len() as int)
        } else {
            join_upto(st, st.len() as int)
        }
    }
}

/// Full normalization: separators mapped to `/`, then `.`/`..`/empty
/// segments resolved against a stack.
pub open spec fn spec_normalize(p: Seq<char>) -> Seq<char> {
    let q = spec_seps(p);
    let abs = q.len() > 0 && q[0] == '/';
    render(apply_from(segs_from(q, 0), 0, Seq::empty(), abs), abs)
}

pub fn normalize_path(s: &str) -> (r: String)
    ensures
        r@ == spec_normalize(s@),
{
    let q = replace_seps(s);
    let abs = q.as_str().unicode_len() > 0 && q.as_str().get_char(0) == '/';
    let segs = split_path(q.as_str(), 0);
    let st = apply_all(&segs, abs);
    if st.len() == 0 {
        if abs {
            let r = String::from_str("/");
            proof {
                reveal_strlit("/");
                assert(r@ =~= spec_normalize(s@));
            }
            r
        } else {
            let r = String::from_str(".");
            proof {
                reveal_strlit(".");
                assert(r@ =~= spec_normalize(s@));
            }
            r
        }
    } else {
        let joined = join_all(&st);
        if abs {
            let r = concat_strs("/", joined.as_str());
            proof {
                reveal_strlit("/");
                assert(r@ =~= spec_normalize(s@));
            }
            r
        } else {
            joined
        }
    }
}

/// A target that names its own root: a POSIX absolute path, a backslash
/// path, or a Windows drive-letter path.
pub open spec fn spec_is_abs_target(t: Seq<char>) -> bool {
    t.len() > 0 && (t[0] == '/' || t[0] == '\\' || (t.len() >= 2 && t[1] == ':' && (
    ('a' <= t[0] && t[0] <= 'z') || ('A' <= t[0] && t[0] <= 'Z'))))
}

pub fn is_abs_target(t: &str) -> (r: bool)
    ensures
        r == spec_is_abs_target(t@),
{
    let n = t.unicode_len();
    if n == 0 {
        return false;
    }
    let c0 = t.get_char(0);
    if c0 == '/' || c0 == '\\' {
        return true;
    }
    if n >= 2 && t.get_char(1) == ':' && (('a' <= c0 && c0 <= 'z') || ('A' <= c0 && c0 <= 'Z')) {
        return true;
    }
    false
}

/// `dir` joined with `target`: the directory alone for an empty target, the
/// target alone when it is absolute, and `dir/target` otherwise.
pub open spec fn spec_join(dir: Seq<char>, t: Seq<char>) -> Seq<char> {
    if t.len() == 0 {
        dir
    } else if spec_is_abs_target(t) {
        t
    } else if dir.len() > 0 && dir[dir.len() - 1] == '/' {
        dir + t
    } else {
        dir + seq!['/'] + t
    }
}

pub fn join_path(dir: &str, t: &str) -> (r: String)
    ensures
        r@ == spec_join(dir@, t@),
{
    let nd = dir.unicode_len();
    if t.unicode_len() == 0 {
        String::from_str(dir)
    } else if is_abs_target(t) {
        String::from_str(t)
    } else if nd > 0 && dir.get_char(nd - 1) == '/' {
        concat_strs(dir, t)
    } else {
        let head = concat_strs(dir, "/");
        let r = concat_strs(head.as_str(), t);
        proof {
            reveal_strlit("/");
            assert("/"@ =~= seq!['/']);
            assert(r@ =~= spec_join(dir@, t@));
        }
        r
    }
}

/// The normalized form of `dir` joined with `target`: what the resolver
/// hands to every filesystem probe.
pub open spec fn spec_norm_join(dir: Seq<char>, t: Seq<char>) -> Seq<char> {
    spec_normalize(spec_join(dir, t))
}

pub fn norm_join(dir: &str, t: &str) -> (r: String)
    ensures
        r@ == spec_norm_join(dir@, t@),
{
    let j = join_path(dir, t);
    normalize_path(j.as_str())
}

/// A rule matches when the target equals the pattern, or the pattern is a
/// prefix ending at a path-segment boundary. Empty patterns match nothing.
pub open spec fn rule_matches(pat: Seq<char>, t: Seq<char>) -> bool {
    pat.len() > 0 && (t == pat || (is_prefix_of(pat, t) && pat.len() < t.len() && t[pat.len() as int]
        == '/'))
}

/// Alias rewriting from rule `i` on: the first matching rule is applied
/// (`None` encodes its block marker); without a match the target passes
/// through unchanged. A replacement is never rewritten again.
pub open spec fn spec_alias_from(rules: Seq<crate::options::AliasRule>, i: int, t: Seq<char>) -> Option<
    Seq<char>,
>
    decreases rules.len() - i,
{
    if i < 0 || i >= rules.len() {
        Some(t)
    } else if rule_matches(rules[i].pattern@, t) {
        match rules[i].target {
            Some(r) => Some(r@ + t.subrange(rules[i].pattern@.len() as int, t.len() as int)),
            None => None,
        }
    } else {
        spec_alias_from(rules, i + 1, t)
    }
}

pub open spec fn spec_normalize_alias(rules: Seq<crate::options::AliasRule>, t: Seq<char>) -> Option<
    Seq<char>,
> {
    spec_alias_from(rules, 0, t)
}

fn one_rule_matches(pat: &str, t: &str) -> (r: bool)
    ensures
        r == rule_matches(pat@, t@),
{
    let np = pat.unicode_len();
    let nt = t.unicode_len();
    if np == 0 {
        return false;
    }
    if crate::strutil::str_eq(t, pat) {
        return true;
    }
    crate::strutil::str_starts_with(t, pat) && np < nt && t.get_char(np) == '/'
}

/// Rewrites `t` against the ordered alias table: the replacement of the
/// first matching rule with the matched prefix substituted, `None` for its
/// block marker, or `t` unchanged when no rule matches.
pub fn normalize_alias(rules: &Vec<crate::options::AliasRule>, t: &str) -> (r: Option<String>)
    ensures
        match r {
            Some(x) => spec_normalize_alias(rules@, t@) == Some(x@),
            None => spec_normalize_alias(rules@, t@) is None,
        },
{
    let mut i: usize = 0;
    while i < rules.len()
        invariant
            0 <= i <= rules@.len(),
            spec_normalize_alias(rules@, t@) == spec_alias_from(rules@, i as int, t@),
        decreases rules@.len() - i,
    {
        if one_rule_matches(rules[i].pattern.as_str(), t) {
            match &rules[i].target {
                Some(rep) => {
                    let np = rules[i].pattern.as_str().unicode_len();
                    let nt = t.unicode_len();
                    proof {
                        if t@ == rules@[i as int].pattern@ {
                            assert(np == nt);
                        }
                    }
                    let rest = substr_copy(t, np, nt);
                    return Some(concat_strs(rep.as_str(), rest.as_str()));
                },
                None => {
                    return None;
                },
            }
        }
        i = i + 1;
    }
    Some(String::from_str(t))
}

} // verus!
