//! The resolution engine: the three terminal strategies and the upward
//! module-directory walk.

use vstd::prelude::*;
use crate::filesystem::{
    FileSystem, spec_is_file, spec_is_dir, spec_real_path, spec_manifest_index,
};
use crate::description::{spec_parent, parent_dir, lemma_parent_shorter};
use crate::mapper::{
    spec_real_target, get_real_target, MapOutcome, RealTarget,
};
use crate::normalize::{spec_norm_join, norm_join};
use crate::options::ResolverOptions;
use crate::strutil::{
    first_index_from, lemma_first_index_from, find_first, substr_copy, concat_strs,
};

verus! {

/// The first configured extension whose candidate `p + ext` names a file,
/// probed from position `i`; the candidate's real path on success.
pub open spec fn try_exts_from(
    fs: FileSystem,
    exts: Seq<String>,
    p: Seq<char>,
    i: int,
    symlinks: bool,
) -> Option<Seq<char>>
    decreases exts.len() - i,
{
    if i < 0 || i >= exts.len() {
        None
    } else if spec_is_file(fs, p + exts[i]@) {
        Some(spec_real_path(fs, p + exts[i]@, symlinks))
    } else {
        try_exts_from(fs, exts, p, i + 1, symlinks)
    }
}

/// Resolve-as-file: the exact computed path first, then each configured
/// extension in order; the first existing regular file wins, mapped to its
/// real path when symlinks are honoured.
pub open spec fn spec_resolve_file(
    fs: FileSystem,
    opts: ResolverOptions,
    dir: Seq<char>,
    target: Seq<char>,
) -> Option<Seq<char>> {
    let p = spec_norm_join(dir, target);
    if spec_is_file(fs, p) {
        Some(spec_real_path(fs, p, opts.symlinks))
    } else {
        try_exts_from(fs, opts.extensions@, p, 0, opts.symlinks)
    }
}

pub fn resolve_as_file(fs: &FileSystem, opts: &ResolverOptions, dir: &str, target: &str) -> (r:
    Option<String>)
    ensures
        match r {
            Some(x) => spec_resolve_file(*fs, *opts, dir@, target@) == Some(x@),
            None => spec_resolve_file(*fs, *opts, dir@, target@) is None,
        },
{
    let p = norm_join(dir, target);
    if fs.is_file(p.as_str()) {
        return Some(fs.real_path(p.as_str(), opts.symlinks));
    }
    let mut i: usize = 0;
    while i < opts.extensions.len()
        invariant
            0 <= i <= opts.extensions@.len(),
            !spec_is_file(*fs, p@),
            p@ == spec_norm_join(dir@, target@),
            try_exts_from(*fs, opts.extensions@, p@, 0, opts.symlinks) == try_exts_from(
                *fs,
                opts.extensions@,
                p@,
                i as int,
                opts.symlinks,
            ),
        decreases opts.extensions@.len() - i,
    {
        let cand = concat_strs(p.as_str(), opts.extensions[i].as_str());
        if fs.is_file(cand.as_str()) {
            return Some(fs.real_path(cand.as_str(), opts.symlinks));
        }
        i = i + 1;
    }
    None
}

/// The first index-file candidate `d/base + ext` that names a file, walking
/// the configured base names from position `bi`.
pub open spec fn try_index_from(
    fs: FileSystem,
    opts: ResolverOptions,
    d: Seq<char>,
    bi: int,
) -> Option<Seq<char>>
    decreases opts.main_files@.len() - bi,
{
    if bi < 0 || bi >= opts.main_files@.len() {
        None
    } else {
        match try_exts_from(
            fs,
            opts.extensions@,
            spec_norm_join(d, opts.main_files@[bi]@),
            0,
            opts.symlinks,
        ) {
            Some(p) => Some(p),
            None => try_index_from(fs, opts, d, bi + 1),
        }
    }
}

fn probe_index_files(fs: &FileSystem, opts: &ResolverOptions, d: &str) -> (r: Option<String>)
    ensures
        match r {
            Some(x) => try_index_from(*fs, *opts, d@, 0) == Some(x@),
            None => try_index_from(*fs, *opts, d@, 0) is None,
        },
{
    let mut bi: usize = 0;
    while bi < opts.main_files.len()
        invariant
            0 <= bi <= opts.main_files@.len(),
            try_index_from(*fs, *opts, d@, 0) == try_index_from(*fs, *opts, d@, bi as int),
        decreases opts.main_files@.len() - bi,
    {
        let base = norm_join(d, opts.main_files[bi].as_str());
        let mut i: usize = 0;
        while i < opts.extensions.len()
            invariant
                0 <= i <= opts.extensions@.len(),
                bi < opts.main_files@.len(),
                base@ == spec_norm_join(d@, opts.main_files@[bi as int]@),
                try_exts_from(*fs, opts.extensions@, base@, 0, opts.symlinks) == try_exts_from(
                    *fs,
                    opts.extensions@,
                    base@,
                    i as int,
                    opts.symlinks,
                ),
                try_index_from(*fs, *opts, d@, 0) == try_index_from(*fs, *opts, d@, bi as int),
            decreases opts.extensions@.len() - i,
        {
            let cand = concat_strs(base.as_str(), opts.extensions[i].as_str());
            if fs.is_file(cand.as_str()) {
                return Some(fs.real_path(cand.as_str(), opts.symlinks));
            }
            i = i + 1;
        }
        bi = bi + 1;
    }
    None
}

/// Resolve-as-directory: the computed path must be a directory; its own
/// manifest's entry-point field is tried first (failure of the mapped file
/// is final), otherwise the configured index files are probed.
pub open spec fn spec_resolve_dir(
    fs: FileSystem,
    opts: ResolverOptions,
    dir: Seq<char>,
    target: Seq<char>,
) -> Option<Seq<char>> {
    let d = spec_norm_join(dir, target);
    if !spec_is_dir(fs, d) {
        None
    } else {
        match spec_real_target(fs, opts, Seq::empty(), None, spec_manifest_index(fs, d)) {
            MapOutcome::NewTarget { dir: d2, target: t2 } => spec_resolve_file(fs, opts, d2, t2),
            MapOutcome::Pass => try_index_from(fs, opts, d, 0),
            MapOutcome::Excluded => None,
        }
    }
}

pub fn resolve_as_dir(fs: &FileSystem, opts: &ResolverOptions, dir: &str, target: &str) -> (r:
    Option<String>)
    ensures
        match r {
            Some(x) => spec_resolve_dir(*fs, *opts, dir@, target@) == Some(x@),
            None => spec_resolve_dir(*fs, *opts, dir@, target@) is None,
        },
{
    let d = norm_join(dir, target);
    if !fs.is_dir(d.as_str()) {
        return None;
    }
    let mi = fs.manifest_index(d.as_str());
    let empty_target = String::new();
    match get_real_target(fs, opts, empty_target.as_str(), None, mi) {
        RealTarget::NewTarget { dir: d2, target: t2 } => resolve_as_file(
            fs,
            opts,
            d2.as_str(),
            t2.as_str(),
        ),
        RealTarget::Pass => probe_index_files(fs, opts, d.as_str()),
        RealTarget::Excluded => None,
    }
}

/// The package name and remainder of a module specifier: scoped names keep
/// their first two segments, bare names their first; the remainder is empty
/// or starts with `/`.
pub open spec fn spec_pkg_split(t: Seq<char>) -> (Seq<char>, Seq<char>) {
    if t.len() > 0 && t[0] == '@' {
        match first_index_from(t, '/', 0) {
            None => (t, Seq::empty()),
            Some(j) => match first_index_from(t, '/', j + 1) {
                None => (t, Seq::empty()),
                Some(k) => (t.subrange(0, k), t.subrange(k, t.len() as int)),
            },
        }
    } else {
        match first_index_from(t, '/', 0) {
            None => (t, Seq::empty()),
            Some(j) => (t.subrange(0, j), t.subrange(j, t.len() as int)),
        }
    }
}

fn pkg_split(t: &str) -> (r: (String, String))
    ensures
        r.0@ == spec_pkg_split(t@).0,
        r.1@ == spec_pkg_split(t@).1,
{
    let n = t.unicode_len();
    proof {
        lemma_first_index_from(t@, '/', 0);
    }
    let cut: Option<usize> = if n > 0 && t.get_char(0) == '@' {
        match find_first(t, '/', 0) {
            None => None,
            Some(j) => {
                proof {
                    lemma_first_index_from(t@, '/', j + 1);
                }
                match find_first(t, '/', j + 1) {
                    None => None,
                    Some(k) => Some(k),
                }
            },
        }
    } else {
        find_first(t, '/', 0)
    };
    match cut {
        None => (String::from_str(t), String::new()),
        Some(k) => (substr_copy(t, 0, k), substr_copy(t, k, n)),
    }
}

/// Outcome of the module walk.
pub enum ModOutcome {
    Found(Seq<char>),
    Excluded,
    NotFound,
}

/// Executable counterpart of [`ModOutcome`].
pub enum ModResult {
    Found(String),
    Excluded,
    NotFound,
}

pub open spec fn mod_view(r: ModResult) -> ModOutcome {
    match r {
        ModResult::Found(p) => ModOutcome::Found(p@),
        ModResult::Excluded => ModOutcome::Excluded,
        ModResult::NotFound => ModOutcome::NotFound,
    }
}

/// File-then-directory dispatch for a mapped or package-relative target.
pub open spec fn spec_file_then_dir(
    fs: FileSystem,
    opts: ResolverOptions,
    dir: Seq<char>,
    target: Seq<char>,
) -> Option<Seq<char>> {
    match spec_resolve_file(fs, opts, dir, target) {
        Some(p) => Some(p),
        None => spec_resolve_dir(fs, opts, dir, target),
    }
}

pub fn file_then_dir(fs: &FileSystem, opts: &ResolverOptions, dir: &str, target: &str) -> (r: Option<
    String,
>)
    ensures
        match r {
            Some(x) => spec_file_then_dir(*fs, *opts, dir@, target@) == Some(x@),
            None => spec_file_then_dir(*fs, *opts, dir@, target@) is None,
        },
{
    match resolve_as_file(fs, opts, dir, target) {
        Some(p) => Some(p),
        None => resolve_as_dir(fs, opts, dir, target),
    }
}

/// One module directory's attempt at the specifier: nothing when the
/// package directory does not exist (the walk continues); otherwise the
/// package's own manifest maps the request through exports (its verdict,
/// success or exclusion, is final), or the remainder resolves as a
/// file-then-directory request rooted at the package directory.
pub open spec fn spec_try_package(
    fs: FileSystem,
    opts: ResolverOptions,
    mdir: Seq<char>,
    target: Seq<char>,
) -> Option<ModOutcome> {
    let name = spec_pkg_split(target).0;
    let rest = spec_pkg_split(target).1;
    let pdir = spec_norm_join(mdir, name);
    if !spec_is_dir(fs, pdir) {
        None
    } else {
        let sub = seq!['.'] + rest;
        match spec_real_target(fs, opts, target, Some(sub), spec_manifest_index(fs, pdir)) {
            MapOutcome::Excluded => Some(ModOutcome::Excluded),
            MapOutcome::NewTarget { dir: d2, target: t2 } => match spec_file_then_dir(
                fs,
                opts,
                d2,
                t2,
            ) {
                Some(p) => Some(ModOutcome::Found(p)),
                None => Some(ModOutcome::NotFound),
            },
            MapOutcome::Pass => {
                if rest.len() == 0 {
                    match spec_resolve_dir(fs, opts, pdir, Seq::empty()) {
                        Some(p) => Some(ModOutcome::Found(p)),
                        None => None,
                    }
                } else {
                    match spec_file_then_dir(fs, opts, pdir, rest.subrange(1, rest.len() as int)) {
                        Some(p) => Some(ModOutcome::Found(p)),
                        None => None,
                    }
                }
            },
        }
    }
}

fn try_package(fs: &FileSystem, opts: &ResolverOptions, mdir: &str, target: &str) -> (r: Option<
    ModResult,
>)
    ensures
        match r {
            Some(o) => spec_try_package(*fs, *opts, mdir@, target@) == Some(mod_view(o)),
            None => spec_try_package(*fs, *opts, mdir@, target@) is None,
        },
{
    let (name, rest) = pkg_split(target);
    let pdir = norm_join(mdir, name.as_str());
    if !fs.is_dir(pdir.as_str()) {
        return None;
    }
    let sub = concat_strs(".", rest.as_str());
    proof {
        reveal_strlit(".");
        assert("."@ =~= seq!['.']);
    }
    let mi = fs.manifest_index(pdir.as_str());
    match get_real_target(fs, opts, target, Some(&sub), mi) {
        RealTarget::Excluded => Some(ModResult::Excluded),
        RealTarget::NewTarget { dir: d2, target: t2 } => {
            match file_then_dir(fs, opts, d2.as_str(), t2.as_str()) {
                Some(p) => Some(ModResult::Found(p)),
                None => Some(ModResult::NotFound),
            }
        },
        RealTarget::Pass => {
            let nr = rest.as_str().unicode_len();
            if nr == 0 {
                let empty_target = String::new();
                match resolve_as_dir(fs, opts, pdir.as_str(), empty_target.as_str()) {
                    Some(p) => Some(ModResult::Found(p)),
                    None => None,
                }
            } else {
                let tail = substr_copy(rest.as_str(), 1, nr);
                match file_then_dir(fs, opts, pdir.as_str(), tail.as_str()) {
                    Some(p) => Some(ModResult::Found(p)),
                    None => None,
                }
            }
        },
    }
}

/// The first configured module directory at `base` that settles the
/// specifier, from position `mi` on.
pub open spec fn try_mod_dirs_from(
    fs: FileSystem,
    opts: ResolverOptions,
    base: Seq<char>,
    target: Seq<char>,
    mi: int,
) -> Option<ModOutcome>
    decreases opts.modules@.len() - mi,
{
    if mi < 0 || mi >= opts.modules@.len() {
        None
    } else {
        match spec_try_package(fs, opts, spec_norm_join(base, opts.modules@[mi]@), target) {
            Some(o) => Some(o),
            None => try_mod_dirs_from(fs, opts, base, target, mi + 1),
        }
    }
}

/// Resolve-as-modules: each configured module directory is tried at `base`,
/// then at each parent in turn; exhaustion at the root is a not-found
/// outcome.
pub open spec fn spec_resolve_modules(
    fs: FileSystem,
    opts: ResolverOptions,
    base: Seq<char>,
    target: Seq<char>,
) -> ModOutcome
    decreases base.len(),
    via spec_resolve_modules_decreases
{
    match try_mod_dirs_from(fs, opts, base, target, 0) {
        Some(o) => o,
        None => match spec_parent(base) {
            None => ModOutcome::NotFound,
            Some(pp) => spec_resolve_modules(fs, opts, pp, target),
        },
    }
}

#[via_fn]
proof fn spec_resolve_modules_decreases(
    fs: FileSystem,
    opts: ResolverOptions,
    base: Seq<char>,
    target: Seq<char>,
) {
    lemma_parent_shorter(base);
}

pub fn resolve_as_modules(fs: &FileSystem, opts: &ResolverOptions, base: &str, target: &str) -> (r:
    ModResult)
    ensures
        mod_view(r) == spec_resolve_modules(*fs, *opts, base@, target@),
    decreases base@.len(),
{
    proof {
        lemma_parent_shorter(base@);
    }
    let mut mi: usize = 0;
    while mi < opts.modules.len()
        invariant
            0 <= mi <= opts.modules@.len(),
            try_mod_dirs_from(*fs, *opts, base@, target@, 0) == try_mod_dirs_from(
                *fs,
                *opts,
                base@,
                target@,
                mi as int,
            ),
        decreases opts.modules@.len() - mi,
    {
        let mdir = norm_join(base, opts.modules[mi].as_str());
        match try_package(fs, opts, mdir.as_str(), target) {
            Some(o) => {
                return o;
            },
            None => {},
        }
        mi = mi + 1;
    }
    match parent_dir(base) {
        None => ModResult::NotFound,
        Some(pp) => resolve_as_modules(fs, opts, pp.as_str(), target),
    }
}

} // verus!
