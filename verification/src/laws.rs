//! Laws the resolver obeys, proved from the contracts of its stages.

use vstd::prelude::*;
use crate::description::ExportsValue;
use crate::filesystem::{
    FileSystem, spec_is_file, spec_real_path, spec_entry_index, path_normed, spec_is_plain_file,
    wf_fs, lemma_entry_index_bound,
};
use crate::kind::spec_get_target_kind;
use crate::mapper::{spec_eval_value, spec_eval_conds, cond_entry_from, spec_real_target, MapOutcome};
use crate::normalize::{
    rule_matches, spec_alias_from, spec_normalize_alias, spec_norm_join, spec_join,
    spec_is_abs_target, spec_normalize,
};
use crate::options::{AliasRule, ResolverOptions};
use crate::parse::{spec_target_of, spec_query_of, spec_fragment_of};
use crate::resolve::{
    try_exts_from, spec_resolve_file, try_index_from, spec_resolve_dir, spec_file_then_dir,
    spec_try_package, try_mod_dirs_from, spec_resolve_modules, ModOutcome,
};
use crate::{Resolver, ROutcome, RErr, spec_resolve, spec_resolve_inner, spec_dispatch};

verus! {

/// The effect of one alias rule on a matching target.
pub open spec fn rule_effect(rule: AliasRule, t: Seq<char>) -> Option<Seq<char>> {
    match rule.target {
        Some(r) => Some(r@ + t.subrange(rule.pattern@.len() as int, t.len() as int)),
        None => None,
    }
}

/// Alias precedence: when rule `i` matches and no earlier rule does, the
/// table's outcome is rule `i`'s effect — later rules, however specific,
/// are never consulted.
pub proof fn lemma_alias_first_match_wins(rules: Seq<AliasRule>, i: int, t: Seq<char>)
    requires
        0 <= i < rules.len(),
        rule_matches(rules[i].pattern@, t),
        forall|k: int| 0 <= k < i ==> !rule_matches(#[trigger] rules[k].pattern@, t),
    ensures
        spec_normalize_alias(rules, t) == rule_effect(rules[i], t),
{
    lemma_alias_from_first_match(rules, 0, i, t);
}

proof fn lemma_alias_from_first_match(rules: Seq<AliasRule>, j: int, i: int, t: Seq<char>)
    requires
        0 <= j <= i < rules.len(),
        rule_matches(rules[i].pattern@, t),
        forall|k: int| j <= k < i ==> !rule_matches(#[trigger] rules[k].pattern@, t),
    ensures
        spec_alias_from(rules, j, t) == rule_effect(rules[i], t),
    decreases i - j,
{
    if j < i {
        lemma_alias_from_first_match(rules, j + 1, i, t);
    }
}

/// The block marker: when the first matching alias rule maps to "block",
/// resolution of the specifier comes to `Ok(None)` — never an error and
/// never a path.
pub proof fn lemma_alias_block_marker(res: Resolver, raw: Seq<char>, i: int)
    requires
        res.base_dir is Some,
        0 <= i < res.options.alias@.len(),
        rule_matches(res.options.alias@[i].pattern@, spec_target_of(raw)),
        res.options.alias@[i].target is None,
        forall|k: int|
            0 <= k < i ==> !rule_matches(
                #[trigger] res.options.alias@[k].pattern@,
                spec_target_of(raw),
            ),
    ensures
        spec_resolve(res, raw) == ROutcome::Ignored,
{
    lemma_alias_first_match_wins(res.options.alias@, i, spec_target_of(raw));
}

/// Exports condition precedence: the first configured condition name the
/// mapping lists decides, whatever order the manifest lists its conditions
/// in. If that condition's entry is a direct target, it is the result.
pub proof fn lemma_exports_condition_priority(
    cs: Seq<(String, ExportsValue)>,
    conds: Seq<String>,
    k: int,
    v: String,
    fuel: nat,
)
    requires
        conds.len() > 0,
        fuel >= 1,
        cond_entry_from(cs, conds[0]@, 0) == Some(k),
        0 <= k < cs.len(),
        cs[k].1 == ExportsValue::Target(v),
    ensures
        spec_eval_conds(cs, conds, 0, (fuel - 1) as nat) == Some(v@),
{
    assert(spec_eval_value(cs[k].1, conds, (fuel - 1) as nat) == Some(v@));
    assert(0 < conds.len());
}

/// The same precedence stated of a whole conditional value.
pub proof fn lemma_exports_condition_priority_value(
    csv: Vec<(String, ExportsValue)>,
    conds: Seq<String>,
    k: int,
    v: String,
    fuel: nat,
)
    requires
        conds.len() > 0,
        fuel >= 1,
        cond_entry_from(csv@, conds[0]@, 0) == Some(k),
        0 <= k < csv@.len(),
        csv@[k].1 == ExportsValue::Target(v),
    ensures
        spec_eval_value(ExportsValue::Conditional(csv), conds, fuel) == Some(v@),
{
    lemma_exports_condition_priority(csv@, conds, k, v, fuel);
}

/// Extension ordering: when the exact computed path names no file but the
/// first configured extension's candidate does, that candidate is the
/// result — later extensions are never reached, whether or not their
/// candidates exist.
pub proof fn lemma_extension_order(
    fs: FileSystem,
    opts: ResolverOptions,
    dir: Seq<char>,
    t: Seq<char>,
)
    requires
        !spec_is_file(fs, spec_norm_join(dir, t)),
        opts.extensions@.len() > 0,
        spec_is_file(fs, spec_norm_join(dir, t) + opts.extensions@[0]@),
    ensures
        spec_resolve_file(fs, opts, dir, t) == Some(
            spec_real_path(fs, spec_norm_join(dir, t) + opts.extensions@[0]@, opts.symlinks),
        ),
{
}

/// Failures name their request: a not-found outcome carries the original
/// specifier and the starting directory, an exports exclusion the
/// specifier, an empty-input error the directory.
pub proof fn lemma_failures_name_request(res: Resolver, raw: Seq<char>)
    requires
        res.base_dir is Some,
    ensures
        match spec_resolve(res, raw) {
            ROutcome::Failed(RErr::NotFound { specifier, dir }) => specifier == raw && dir
                == res.base_dir->0@,
            ROutcome::Failed(RErr::Empty { dir }) => dir == res.base_dir->0@,
            ROutcome::Failed(RErr::NotExported { specifier }) => specifier == raw,
            _ => true,
        },
{
}

/// Query/fragment preservation: a found path that did not come from a
/// built-in name ends with the request's query and fragment, exactly as
/// they were split off, whatever rewriting happened in between.
pub proof fn lemma_query_fragment_preserved(res: Resolver, raw: Seq<char>, p: Seq<char>)
    requires
        res.base_dir is Some,
        spec_resolve(res, raw) == ROutcome::Found(p),
        (match spec_normalize_alias(res.options.alias@, spec_target_of(raw)) {
            Some(t1) => !(spec_get_target_kind(t1, res.options.built_ins.deep_view())
                is BuildInModule),
            None => true,
        }),
    ensures
        crate::strutil::is_suffix_of(spec_query_of(raw) + spec_fragment_of(raw), p),
{
    let fs = res.fs;
    let opts = res.options;
    let base = res.base_dir->0@;
    let q = spec_query_of(raw);
    let f = spec_fragment_of(raw);
    match spec_normalize_alias(opts.alias@, spec_target_of(raw)) {
        Some(t1) => {
            let kind = spec_get_target_kind(t1, opts.built_ins.deep_view());
            if !(kind is Empty) && !(kind is BuildInModule) {
                let dir0 = if kind is AbsolutePosix || kind is AbsoluteWin {
                    seq!['/']
                } else {
                    base
                };
                let mi = crate::filesystem::spec_find_manifest(fs, spec_norm_join(dir0, t1));
                match spec_real_target(fs, opts, t1, None, mi) {
                    MapOutcome::Excluded => {},
                    MapOutcome::Pass => {
                        lemma_dispatch_suffix(fs, opts, dir0, t1, raw, base, q, f, p);
                    },
                    MapOutcome::NewTarget { dir: d2, target: t2 } => {
                        lemma_dispatch_suffix(fs, opts, d2, t2, raw, base, q, f, p);
                    },
                }
            }
        },
        None => {},
    }
}

proof fn lemma_dispatch_suffix(
    fs: FileSystem,
    opts: ResolverOptions,
    dir: Seq<char>,
    t: Seq<char>,
    raw: Seq<char>,
    base: Seq<char>,
    q: Seq<char>,
    f: Seq<char>,
    p: Seq<char>,
)
    requires
        spec_dispatch(fs, opts, dir, t, raw, base, q, f) == ROutcome::Found(p),
    ensures
        crate::strutil::is_suffix_of(q + f, p),
{
    let k = spec_get_target_kind(t, opts.built_ins.deep_view());
    if k is AbsolutePosix || k is AbsoluteWin || k is Relative {
        match spec_file_then_dir(fs, opts, dir, t) {
            Some(x) => {
                lemma_concat_suffix(x, q, f);
            },
            None => {},
        }
    } else {
        match spec_resolve_modules(fs, opts, dir, t) {
            ModOutcome::Found(x) => {
                lemma_concat_suffix(x, q, f);
            },
            _ => {},
        }
    }
}

proof fn lemma_concat_suffix(x: Seq<char>, q: Seq<char>, f: Seq<char>)
    ensures
        crate::strutil::is_suffix_of(q + f, x + q + f),
{
    let w = x + q + f;
    assert(w.subrange(w.len() - (q + f).len(), w.len() as int) =~= q + f);
}

/// A path the engine has settled on: an existing regular file, absolute and
/// normalized, that symlink mapping leaves in place.
pub open spec fn settled(fs: FileSystem, sym: bool, x: Seq<char>) -> bool {
    spec_is_file(fs, x) && path_normed(x) && spec_real_path(fs, x, sym) == x
}

proof fn lemma_real_path_settled(fs: FileSystem, c: Seq<char>, sym: bool)
    requires
        wf_fs(fs),
        spec_is_file(fs, c),
    ensures
        settled(fs, sym, spec_real_path(fs, c, sym)),
{
    lemma_entry_index_bound(fs.entries@, c, 0);
    match spec_entry_index(fs, c) {
        Some(i) => {
            assert(path_normed(fs.entries@[i].path@));
            if sym {
                match fs.entries@[i].link {
                    Some(l) => {
                        assert(spec_is_plain_file(fs, l@));
                        lemma_entry_index_bound(fs.entries@, l@, 0);
                    },
                    None => {},
                }
            }
        },
        None => {},
    }
}

proof fn lemma_try_exts_settled(
    fs: FileSystem,
    exts: Seq<String>,
    p: Seq<char>,
    i: int,
    sym: bool,
)
    requires
        wf_fs(fs),
    ensures
        match try_exts_from(fs, exts, p, i, sym) {
            Some(x) => settled(fs, sym, x),
            None => true,
        },
    decreases exts.len() - i,
{
    if 0 <= i < exts.len() {
        if spec_is_file(fs, p + exts[i]@) {
            lemma_real_path_settled(fs, p + exts[i]@, sym);
        } else {
            lemma_try_exts_settled(fs, exts, p, i + 1, sym);
        }
    }
}

proof fn lemma_resolve_file_settled(
    fs: FileSystem,
    opts: ResolverOptions,
    dir: Seq<char>,
    t: Seq<char>,
)
    requires
        wf_fs(fs),
    ensures
        match spec_resolve_file(fs, opts, dir, t) {
            Some(x) => settled(fs, opts.symlinks, x),
            None => true,
        },
{
    let p = spec_norm_join(dir, t);
    if spec_is_file(fs, p) {
        lemma_real_path_settled(fs, p, opts.symlinks);
    } else {
        lemma_try_exts_settled(fs, opts.extensions@, p, 0, opts.symlinks);
    }
}

proof fn lemma_try_index_settled(fs: FileSystem, opts: ResolverOptions, d: Seq<char>, bi: int)
    requires
        wf_fs(fs),
    ensures
        match try_index_from(fs, opts, d, bi) {
            Some(x) => settled(fs, opts.symlinks, x),
            None => true,
        },
    decreases opts.main_files@.len() - bi,
{
    if 0 <= bi < opts.main_files@.len() {
        lemma_try_exts_settled(
            fs,
            opts.extensions@,
            spec_norm_join(d, opts.main_files@[bi]@),
            0,
            opts.symlinks,
        );
        lemma_try_index_settled(fs, opts, d, bi + 1);
    }
}

proof fn lemma_resolve_dir_settled(
    fs: FileSystem,
    opts: ResolverOptions,
    dir: Seq<char>,
    t: Seq<char>,
)
    requires
        wf_fs(fs),
    ensures
        match spec_resolve_dir(fs, opts, dir, t) {
            Some(x) => settled(fs, opts.symlinks, x),
            None => true,
        },
{
    let d = spec_norm_join(dir, t);
    match spec_real_target(fs, opts, Seq::empty(), None, crate::filesystem::spec_manifest_index(fs, d)) {
        MapOutcome::NewTarget { dir: d2, target: t2 } => {
            lemma_resolve_file_settled(fs, opts, d2, t2);
        },
        MapOutcome::Pass => {
            lemma_try_index_settled(fs, opts, d, 0);
        },
        MapOutcome::Excluded => {},
    }
}

proof fn lemma_file_then_dir_settled(
    fs: FileSystem,
    opts: ResolverOptions,
    dir: Seq<char>,
    t: Seq<char>,
)
    requires
        wf_fs(fs),
    ensures
        match spec_file_then_dir(fs, opts, dir, t) {
            Some(x) => settled(fs, opts.symlinks, x),
            None => true,
        },
{
    lemma_resolve_file_settled(fs, opts, dir, t);
    lemma_resolve_dir_settled(fs, opts, dir, t);
}

proof fn lemma_try_package_settled(
    fs: FileSystem,
    opts: ResolverOptions,
    mdir: Seq<char>,
    t: Seq<char>,
)
    requires
        wf_fs(fs),
    ensures
        match spec_try_package(fs, opts, mdir, t) {
            Some(ModOutcome::Found(x)) => settled(fs, opts.symlinks, x),
            _ => true,
        },
{
    let rest = crate::resolve::spec_pkg_split(t).1;
    let pdir = spec_norm_join(mdir, crate::resolve::spec_pkg_split(t).0);
    match spec_real_target(
        fs,
        opts,
        t,
        Some(seq!['.'] + rest),
        crate::filesystem::spec_manifest_index(fs, pdir),
    ) {
        MapOutcome::NewTarget { dir: d2, target: t2 } => {
            lemma_file_then_dir_settled(fs, opts, d2, t2);
        },
        MapOutcome::Pass => {
            if rest.len() == 0 {
                lemma_resolve_dir_settled(fs, opts, pdir, Seq::empty());
            } else {
                lemma_file_then_dir_settled(fs, opts, pdir, rest.subrange(1, rest.len() as int));
            }
        },
        MapOutcome::Excluded => {},
    }
}

proof fn lemma_try_mod_dirs_settled(
    fs: FileSystem,
    opts: ResolverOptions,
    base: Seq<char>,
    t: Seq<char>,
    mi: int,
)
    requires
        wf_fs(fs),
    ensures
        match try_mod_dirs_from(fs, opts, base, t, mi) {
            Some(ModOutcome::Found(x)) => settled(fs, opts.symlinks, x),
            _ => true,
        },
    decreases opts.modules@.len() - mi,
{
    if 0 <= mi < opts.modules@.len() {
        lemma_try_package_settled(fs, opts, spec_norm_join(base, opts.modules@[mi]@), t);
        lemma_try_mod_dirs_settled(fs, opts, base, t, mi + 1);
    }
}

proof fn lemma_resolve_modules_settled(
    fs: FileSystem,
    opts: ResolverOptions,
    base: Seq<char>,
    t: Seq<char>,
)
    requires
        wf_fs(fs),
    ensures
        match spec_resolve_modules(fs, opts, base, t) {
            ModOutcome::Found(x) => settled(fs, opts.symlinks, x),
            _ => true,
        },
    decreases base.len(),
{
    crate::description::lemma_parent_shorter(base);
    lemma_try_mod_dirs_settled(fs, opts, base, t, 0);
    if try_mod_dirs_from(fs, opts, base, t, 0) is None {
        match crate::description::spec_parent(base) {
            Some(pp) => {
                lemma_resolve_modules_settled(fs, opts, pp, t);
            },
            None => {},
        }
    }
}

proof fn lemma_dispatch_settled(
    fs: FileSystem,
    opts: ResolverOptions,
    dir: Seq<char>,
    t: Seq<char>,
    raw: Seq<char>,
    base: Seq<char>,
)
    requires
        wf_fs(fs),
        spec_query_of(raw).len() == 0,
        spec_fragment_of(raw).len() == 0,
    ensures
        match spec_dispatch(
            fs,
            opts,
            dir,
            t,
            raw,
            base,
            spec_query_of(raw),
            spec_fragment_of(raw),
        ) {
            ROutcome::Found(x) => settled(fs, opts.symlinks, x),
            _ => true,
        },
{
    lemma_file_then_dir_settled(fs, opts, dir, t);
    lemma_resolve_modules_settled(fs, opts, dir, t);
    let q = spec_query_of(raw);
    let f = spec_fragment_of(raw);
    match spec_dispatch(fs, opts, dir, t, raw, base, q, f) {
        ROutcome::Found(x) => {
            let k = spec_get_target_kind(t, opts.built_ins.deep_view());
            if k is AbsolutePosix || k is AbsoluteWin || k is Relative {
                match spec_file_then_dir(fs, opts, dir, t) {
                    Some(y) => {
                        assert(y + q + f =~= y);
                    },
                    None => {},
                }
            } else {
                match spec_resolve_modules(fs, opts, dir, t) {
                    ModOutcome::Found(y) => {
                        assert(y + q + f =~= y);
                    },
                    _ => {},
                }
            }
        },
        _ => {},
    }
}

/// Idempotence: feeding a successful resolution's path back in as a new
/// specifier resolves to that same path. The law asks that the original
/// request carried no query or fragment, that the returned path parses as
/// itself, and that no alias rule captures it.
pub proof fn lemma_resolve_idempotent(res: Resolver, res2: Resolver, raw: Seq<char>, p: Seq<char>)
    requires
        wf_fs(res.fs),
        res.base_dir is Some,
        res2.base_dir is Some,
        res2.fs == res.fs,
        res2.options == res.options,
        spec_resolve(res, raw) == ROutcome::Found(p),
        spec_query_of(raw).len() == 0,
        spec_fragment_of(raw).len() == 0,
        spec_target_of(p) == p,
        spec_query_of(p).len() == 0,
        spec_fragment_of(p).len() == 0,
        spec_normalize_alias(res.options.alias@, p) == Some(p),
    ensures
        spec_resolve(res2, p) == ROutcome::Found(p),
{
    let fs = res.fs;
    let opts = res.options;
    let base = res.base_dir->0@;
    let base2 = res2.base_dir->0@;
    let t0 = spec_target_of(raw);
    let built = opts.built_ins.deep_view();
    // Either the original resolution returned a built-in name verbatim, or
    // it settled on an existing file.
    match spec_normalize_alias(opts.alias@, t0) {
        Some(t1) => {
            let kind = spec_get_target_kind(t1, built);
            if kind is Empty {
            } else if kind is BuildInModule {
                assert(p == t1);
            } else {
                let dir0 = if kind is AbsolutePosix || kind is AbsoluteWin {
                    seq!['/']
                } else {
                    base
                };
                let mi = crate::filesystem::spec_find_manifest(fs, spec_norm_join(dir0, t1));
                match spec_real_target(fs, opts, t1, None, mi) {
                    MapOutcome::Excluded => {},
                    MapOutcome::Pass => {
                        lemma_dispatch_settled(fs, opts, dir0, t1, raw, base);
                    },
                    MapOutcome::NewTarget { dir: d2, target: t2 } => {
                        lemma_dispatch_settled(fs, opts, d2, t2, raw, base);
                    },
                }
            }
        },
        None => {},
    }
    // Now resolve p itself.
    let kp = spec_get_target_kind(p, built);
    if kp is BuildInModule {
        assert(spec_resolve_inner(fs, opts, base2, p) == ROutcome::Found(p));
    } else {
        assert(settled(fs, opts.symlinks, p));
        assert(p.len() > 0 && p[0] == '/');
        assert(!(kp is Empty));
        assert(kp is AbsolutePosix);
        let mi2 = crate::filesystem::spec_find_manifest(fs, spec_norm_join(seq!['/'], p));
        assert(spec_real_target(fs, opts, p, None, mi2) == MapOutcome::Pass) by {
            match mi2 {
                Some(i) => {
                    assert(p.len() > 0);
                },
                None => {},
            }
        }
        assert(spec_is_abs_target(p));
        assert(spec_join(seq!['/'], p) == p);
        assert(spec_norm_join(seq!['/'], p) == p) by {
            assert(spec_normalize(p) == p);
        }
        assert(spec_resolve_file(fs, opts, seq!['/'], p) == Some(p));
        let q2 = spec_query_of(p);
        let f2 = spec_fragment_of(p);
        assert(p + q2 + f2 =~= p);
        assert(spec_dispatch(fs, opts, seq!['/'], p, p, base2, q2, f2) == ROutcome::Found(p));
    }
}

} // verus!
