//! The exports/main mapper: given a manifest and a requested subpath,
//! computes the real filesystem-facing target before the terminal
//! strategies run.
//!
//! Conditional-exports entries are matched by exact key first, then by the
//! first wildcard key in manifest order; condition names are walked in the
//! resolver's configured priority order. Nested conditional values are
//! evaluated to a bounded depth.

use vstd::prelude::*;
use crate::description::{DescriptionFileInfo, ExportsValue, field_value_from};
use crate::filesystem::FileSystem;
use crate::options::ResolverOptions;
use crate::strutil::{
    first_index_from, lemma_first_index_from, find_first, is_prefix_of, is_suffix_of, str_eq,
    str_starts_with, str_ends_with, substr_copy, concat_strs,
};

verus! {

/// Nesting depth to which conditional-exports values are evaluated.
pub open spec fn exports_fuel() -> nat {
    32
}

/// Index of the first condition entry named `name`, at or after `i`.
pub open spec fn cond_entry_from(
    cs: Seq<(String, ExportsValue)>,
    name: Seq<char>,
    i: int,
) -> Option<int>
    decreases cs.len() - i,
{
    if i < 0 || i >= cs.len() {
        None
    } else if cs[i].0@ == name {
        Some(i)
    } else {
        cond_entry_from(cs, name, i + 1)
    }
}

proof fn lemma_cond_entry_bound(cs: Seq<(String, ExportsValue)>, name: Seq<char>, i: int)
    ensures
        match cond_entry_from(cs, name, i) {
            Some(j) => i <= j < cs.len(),
            None => true,
        },
    decreases cs.len() - i,
{
    if 0 <= i < cs.len() && cs[i].0@ != name {
        lemma_cond_entry_bound(cs, name, i + 1);
    }
}

/// Evaluates an exports value under the configured conditions: the chosen
/// target, or `None` for "not exported".
pub open spec fn spec_eval_value(v: ExportsValue, conds: Seq<String>, fuel: nat) -> Option<
    Seq<char>,
>
    decreases fuel, 0int, 0int,
{
    match v {
        ExportsValue::Target(s) => Some(s@),
        ExportsValue::NotExported => None,
        ExportsValue::Conditional(cs) => if fuel == 0 {
            None
        } else {
            spec_eval_conds(cs@, conds, 0, (fuel - 1) as nat)
        },
    }
}

/// Walks the configured condition names from position `j`: the first
/// condition the mapping lists whose value evaluates to a target wins.
pub open spec fn spec_eval_conds(
    cs: Seq<(String, ExportsValue)>,
    conds: Seq<String>,
    j: int,
    fuel: nat,
) -> Option<Seq<char>>
    decreases fuel, 1int, conds.len() - j,
{
    if j < 0 || j >= conds.len() {
        None
    } else {
        match cond_entry_from(cs, conds[j]@, 0) {
            Some(k) => match spec_eval_value(cs[k].1, conds, fuel) {
                Some(t) => Some(t),
                None => spec_eval_conds(cs, conds, j + 1, fuel),
            },
            None => spec_eval_conds(cs, conds, j + 1, fuel),
        }
    }
}

fn cond_entry_index(cs: &Vec<(String, ExportsValue)>, name: &str) -> (r: Option<usize>)
    ensures
        match r {
            Some(k) => cond_entry_from(cs@, name@, 0) == Some(k as int) && k < cs@.len(),
            None => cond_entry_from(cs@, name@, 0) is None,
        },
{
    proof {
        lemma_cond_entry_bound(cs@, name@, 0);
    }
    let mut i: usize = 0;
    while i < cs.len()
        invariant
            0 <= i <= cs@.len(),
            cond_entry_from(cs@, name@, 0) == cond_entry_from(cs@, name@, i as int),
        decreases cs@.len() - i,
    {
        if str_eq(cs[i].0.as_str(), name) {
            return Some(i);
        }
        i = i + 1;
    }
    None
}

#[verifier::loop_isolation(false)]
pub fn eval_value(v: &ExportsValue, conds: &Vec<String>, fuel: u32) -> (r: Option<String>)
    ensures
        match r {
            Some(t) => spec_eval_value(*v, conds@, fuel as nat) == Some(t@),
            None => spec_eval_value(*v, conds@, fuel as nat) is None,
        },
    decreases fuel,
{
    match v {
        ExportsValue::Target(s) => Some(String::from_str(s.as_str())),
        ExportsValue::NotExported => None,
        ExportsValue::Conditional(cs) => {
            if fuel == 0 {
                return None;
            }
            let mut j: usize = 0;
            while j < conds.len()
                invariant
                    0 <= j <= conds@.len(),
                    fuel >= 1,
                    spec_eval_conds(cs@, conds@, 0, (fuel - 1) as nat) == spec_eval_conds(
                        cs@,
                        conds@,
                        j as int,
                        (fuel - 1) as nat,
                    ),
                decreases conds@.len() - j,
            {
                match cond_entry_index(cs, conds[j].as_str()) {
                    Some(k) => {
                        match eval_value(&cs[k].1, conds, fuel - 1) {
                            Some(t) => {
                                return Some(t);
                            },
                            None => {},
                        }
                    },
                    None => {},
                }
                j = j + 1;
            }
            None
        },
    }
}

/// The remainder captured when wildcard key `key` matches `sub`.
pub open spec fn spec_wild_match(key: Seq<char>, sub: Seq<char>) -> Option<Seq<char>> {
    match first_index_from(key, '*', 0) {
        None => None,
        Some(i) => {
            let pre = key.subrange(0, i);
            let suf = key.subrange(i + 1, key.len() as int);
            if sub.len() >= pre.len() + suf.len() && is_prefix_of(pre, sub) && is_suffix_of(
                suf,
                sub,
            ) {
                Some(sub.subrange(pre.len() as int, sub.len() - suf.len()))
            } else {
                None
            }
        },
    }
}

pub fn wild_match(key: &str, sub: &str) -> (r: Option<String>)
    ensures
        match r {
            Some(rem) => spec_wild_match(key@, sub@) == Some(rem@),
            None => spec_wild_match(key@, sub@) is None,
        },
{
    proof {
        lemma_first_index_from(key@, '*', 0);
    }
    let nk = key.unicode_len();
    let ns = sub.unicode_len();
    match find_first(key, '*', 0) {
        None => None,
        Some(i) => {
            let pre = substr_copy(key, 0, i);
            let suf = substr_copy(key, i + 1, nk);
            if ns >= pre.as_str().unicode_len() + suf.as_str().unicode_len() && str_starts_with(
                sub,
                pre.as_str(),
            ) && str_ends_with(sub, suf.as_str()) {
                Some(substr_copy(sub, i, ns - (nk - 1 - i)))
            } else {
                None
            }
        },
    }
}

/// `t` with its first `*` replaced by `rem`; `t` itself when it has none.
pub open spec fn spec_subst_star(t: Seq<char>, rem: Seq<char>) -> Seq<char> {
    match first_index_from(t, '*', 0) {
        None => t,
        Some(i) => t.subrange(0, i) + rem + t.subrange(i + 1, t.len() as int),
    }
}

pub fn subst_star(t: &str, rem: &str) -> (r: String)
    ensures
        r@ == spec_subst_star(t@, rem@),
{
    proof {
        lemma_first_index_from(t@, '*', 0);
    }
    let nt = t.unicode_len();
    match find_first(t, '*', 0) {
        None => String::from_str(t),
        Some(i) => {
            let head = substr_copy(t, 0, i);
            let tail = substr_copy(t, i + 1, nt);
            let joined = concat_strs(head.as_str(), rem);
            concat_strs(joined.as_str(), tail.as_str())
        },
    }
}

/// Outcome of an exports lookup.
pub enum ExpOutcome {
    /// No entry matches the subpath: legacy fields may still apply.
    NoEntry,
    /// The subpath is explicitly not exported.
    Excluded,
    /// The entry maps the subpath to this target.
    Mapped(Seq<char>),
}

/// Executable counterpart of [`ExpOutcome`].
pub enum ExpResult {
    NoEntry,
    Excluded,
    Mapped(String),
}

pub open spec fn exp_view(r: ExpResult) -> ExpOutcome {
    match r {
        ExpResult::NoEntry => ExpOutcome::NoEntry,
        ExpResult::Excluded => ExpOutcome::Excluded,
        ExpResult::Mapped(t) => ExpOutcome::Mapped(t@),
    }
}

/// Index of the first entry whose key equals `sub` exactly, at or after `i`.
pub open spec fn exact_entry_from(
    es: Seq<(String, ExportsValue)>,
    sub: Seq<char>,
    i: int,
) -> Option<int>
    decreases es.len() - i,
{
    if i < 0 || i >= es.len() {
        None
    } else if es[i].0@ == sub {
        Some(i)
    } else {
        exact_entry_from(es, sub, i + 1)
    }
}

/// Index of the first entry whose wildcard key matches `sub`, at or after `i`.
pub open spec fn wild_entry_from(
    es: Seq<(String, ExportsValue)>,
    sub: Seq<char>,
    i: int,
) -> Option<int>
    decreases es.len() - i,
{
    if i < 0 || i >= es.len() {
        None
    } else if spec_wild_match(es[i].0@, sub) is Some {
        Some(i)
    } else {
        wild_entry_from(es, sub, i + 1)
    }
}

/// What the conditional-exports mapping says about `sub`: the first exact
/// entry wins, else the first wildcard entry with the captured remainder
/// substituted into the chosen target.
pub open spec fn spec_exports_lookup(
    es: Seq<(String, ExportsValue)>,
    sub: Seq<char>,
    conds: Seq<String>,
) -> ExpOutcome {
    match exact_entry_from(es, sub, 0) {
        Some(k) => match spec_eval_value(es[k].1, conds, exports_fuel()) {
            Some(t) => ExpOutcome::Mapped(t),
            None => ExpOutcome::Excluded,
        },
        None => match wild_entry_from(es, sub, 0) {
            Some(k) => match spec_wild_match(es[k].0@, sub) {
                Some(rem) => match spec_eval_value(es[k].1, conds, exports_fuel()) {
                    Some(t) => ExpOutcome::Mapped(spec_subst_star(t, rem)),
                    None => ExpOutcome::Excluded,
                },
                None => ExpOutcome::NoEntry,
            },
            None => ExpOutcome::NoEntry,
        },
    }
}

proof fn lemma_exact_entry_bound(es: Seq<(String, ExportsValue)>, sub: Seq<char>, i: int)
    ensures
        match exact_entry_from(es, sub, i) {
            Some(j) => i <= j < es.len(),
            None => true,
        },
    decreases es.len() - i,
{
    if 0 <= i < es.len() && es[i].0@ != sub {
        lemma_exact_entry_bound(es, sub, i + 1);
    }
}

proof fn lemma_wild_entry_bound(es: Seq<(String, ExportsValue)>, sub: Seq<char>, i: int)
    ensures
        match wild_entry_from(es, sub, i) {
            Some(j) => i <= j < es.len(),
            None => true,
        },
    decreases es.len() - i,
{
    if 0 <= i < es.len() && !(spec_wild_match(es[i].0@, sub) is Some) {
        lemma_wild_entry_bound(es, sub, i + 1);
    }
}

pub fn exports_lookup(es: &Vec<(String, ExportsValue)>, sub: &str, conds: &Vec<String>) -> (r:
    ExpResult)
    ensures
        exp_view(r) == spec_exports_lookup(es@, sub@, conds@),
{
    proof {
        lemma_exact_entry_bound(es@, sub@, 0);
        lemma_wild_entry_bound(es@, sub@, 0);
    }
    let mut i: usize = 0;
    while i < es.len()
        invariant
            0 <= i <= es@.len(),
            exact_entry_from(es@, sub@, 0) == exact_entry_from(es@, sub@, i as int),
        decreases es@.len() - i,
    {
        if str_eq(es[i].0.as_str(), sub) {
            return match eval_value(&es[i].1, conds, 32) {
                Some(t) => ExpResult::Mapped(t),
                None => ExpResult::Excluded,
            };
        }
        i = i + 1;
    }
    let mut j: usize = 0;
    while j < es.len()
        invariant
            0 <= j <= es@.len(),
            exact_entry_from(es@, sub@, 0) is None,
            wild_entry_from(es@, sub@, 0) == wild_entry_from(es@, sub@, j as int),
        decreases es@.len() - j,
    {
        match wild_match(es[j].0.as_str(), sub) {
            Some(rem) => {
                return match eval_value(&es[j].1, conds, 32) {
                    Some(t) => ExpResult::Mapped(subst_star(t.as_str(), rem.as_str())),
                    None => ExpResult::Excluded,
                };
            },
            None => {},
        }
        j = j + 1;
    }
    ExpResult::NoEntry
}

/// Outcome of the mapping stage.
pub enum MapOutcome {
    /// No manifest override applies: the target passes through unchanged.
    Pass,
    /// The manifest maps the request to a new target under a new base
    /// directory.
    NewTarget { dir: Seq<char>, target: Seq<char> },
    /// The subpath is explicitly excluded by conditional exports.
    Excluded,
}

/// Executable counterpart of [`MapOutcome`].
pub enum RealTarget {
    Pass,
    NewTarget { dir: String, target: String },
    Excluded,
}

pub open spec fn rt_view(r: RealTarget) -> MapOutcome {
    match r {
        RealTarget::Pass => MapOutcome::Pass,
        RealTarget::NewTarget { dir, target } => MapOutcome::NewTarget {
            dir: dir@,
            target: target@,
        },
        RealTarget::Excluded => MapOutcome::Excluded,
    }
}

/// The first configured entry-point field the manifest carries, walking
/// `names[j..]` in order.
pub open spec fn main_field_from(
    fields: Seq<(String, String)>,
    names: Seq<String>,
    j: int,
) -> Option<Seq<char>>
    decreases names.len() - j,
{
    if j < 0 || j >= names.len() {
        None
    } else {
        match field_value_from(fields, names[j]@, 0) {
            Some(v) => Some(v),
            None => main_field_from(fields, names, j + 1),
        }
    }
}

fn main_field(m: &DescriptionFileInfo, names: &Vec<String>) -> (r: Option<String>)
    ensures
        match r {
            Some(v) => main_field_from(m.fields@, names@, 0) == Some(v@),
            None => main_field_from(m.fields@, names@, 0) is None,
        },
{
    let mut j: usize = 0;
    while j < names.len()
        invariant
            0 <= j <= names@.len(),
            main_field_from(m.fields@, names@, 0) == main_field_from(m.fields@, names@, j as int),
        decreases names@.len() - j,
    {
        match m.field_value(names[j].as_str()) {
            Some(v) => {
                return Some(v);
            },
            None => {},
        }
        j = j + 1;
    }
    None
}

/// The legacy mapping: when the request names the package root (an empty
/// target, or a package subpath of `.`), the first configured entry-point
/// field the manifest carries becomes the new target.
pub open spec fn spec_main_fields_target(
    m: DescriptionFileInfo,
    opts: ResolverOptions,
    sub: Option<Seq<char>>,
    target: Seq<char>,
) -> MapOutcome {
    if target.len() == 0 || sub == Some(seq!['.']) {
        match main_field_from(m.fields@, opts.main_fields@, 0) {
            Some(v) => MapOutcome::NewTarget { dir: m.abs_dir_path@, target: v },
            None => MapOutcome::Pass,
        }
    } else {
        MapOutcome::Pass
    }
}

/// What the mapping stage does to a request, given the manifest `mi` found
/// for it and, for requests that arrived through module resolution, the
/// package-relative subpath `sub` (`.` for the package root, `./rest`
/// below it). Conditional exports apply only when a subpath is given.
pub open spec fn spec_real_target(
    fs: FileSystem,
    opts: ResolverOptions,
    target: Seq<char>,
    sub: Option<Seq<char>>,
    mi: Option<int>,
) -> MapOutcome {
    match mi {
        None => MapOutcome::Pass,
        Some(i) => {
            let m = fs.manifests@[i];
            if sub is Some && m.exports is Some {
                match spec_exports_lookup(
                    m.exports->0.entries@,
                    sub->0,
                    opts.condition_names@,
                ) {
                    ExpOutcome::Mapped(t) => MapOutcome::NewTarget {
                        dir: m.abs_dir_path@,
                        target: t,
                    },
                    ExpOutcome::Excluded => MapOutcome::Excluded,
                    ExpOutcome::NoEntry => spec_main_fields_target(m, opts, sub, target),
                }
            } else {
                spec_main_fields_target(m, opts, sub, target)
            }
        },
    }
}

/// Runs the mapping stage. `mi` indexes the manifest found for the request,
/// when one was; `sub` is the package-relative subpath for module requests.
pub fn get_real_target(
    fs: &FileSystem,
    opts: &ResolverOptions,
    target: &str,
    sub: Option<&String>,
    mi: Option<usize>,
) -> (r: RealTarget)
    requires
        match mi {
            Some(i) => i < fs.manifests@.len(),
            None => true,
        },
    ensures
        rt_view(r) == spec_real_target(*fs, *opts, target@, sub_view(sub), mi_view(mi)),
{
    match mi {
        None => RealTarget::Pass,
        Some(i) => {
            let m = &fs.manifests[i];
            match (sub, &m.exports) {
                (Some(sb), Some(ex)) => {
                    match exports_lookup(&ex.entries, sb.as_str(), &opts.condition_names) {
                        ExpResult::Mapped(t) => {
                            return RealTarget::NewTarget {
                                dir: String::from_str(m.abs_dir_path.as_str()),
                                target: t,
                            };
                        },
                        ExpResult::Excluded => {
                            return RealTarget::Excluded;
                        },
                        ExpResult::NoEntry => {},
                    }
                },
                _ => {},
            }
            let is_root = match sub {
                Some(sb) => {
                    let r = str_eq(sb.as_str(), ".");
                    proof {
                        reveal_strlit(".");
                        assert("."@ =~= seq!['.']);
                    }
                    r
                },
                None => false,
            };
            if target.unicode_len() == 0 || is_root {
                match main_field(m, &opts.main_fields) {
                    Some(v) => RealTarget::NewTarget {
                        dir: String::from_str(m.abs_dir_path.as_str()),
                        target: v,
                    },
                    None => RealTarget::Pass,
                }
            } else {
                RealTarget::Pass
            }
        },
    }
}

/// `sub` as the mathematical subpath option.
pub open spec fn sub_view(sub: Option<&String>) -> Option<Seq<char>> {
    match sub {
        Some(s) => Some(s@),
        None => None,
    }
}

/// `mi` as the mathematical index option.
pub open spec fn mi_view(mi: Option<usize>) -> Option<int> {
    match mi {
        Some(i) => Some(i as int),
        None => None,
    }
}

} // verus!
