//! Module-specifier resolution for JavaScript/TypeScript import graphs.
//!
//! Given a free-form import string (a bare package name, a relative path, an
//! absolute path, or a built-in name) and a starting directory, the resolver
//! locates the single filesystem path a host loader would pick, replicating
//! the layered algorithm of JS toolchains: module-directory traversal,
//! package-manifest `main`/`exports` fields, extension probing, index-file
//! fallback, and user-configured aliasing.
//!
//! The filesystem is an explicit value ([`filesystem::FileSystem`]) handed to
//! the resolver, so resolution is a pure, fully specified function of its
//! inputs; the thin layer that scans a real disk into such a value lives
//! outside this crate.

use vstd::prelude::*;

pub mod description;
pub mod filesystem;
pub mod kind;
pub mod laws;
pub mod mapper;
pub mod normalize;
pub mod options;
pub mod parse;
pub mod resolve;
pub mod strutil;

use crate::filesystem::{FileSystem, spec_find_manifest};
use crate::kind::{PathKind, get_target_kind, spec_get_target_kind};
use crate::mapper::{spec_real_target, get_real_target, MapOutcome, RealTarget, mi_view};
use crate::normalize::{
    spec_join, spec_norm_join, norm_join, spec_normalize, normalize_path, spec_normalize_alias,
    normalize_alias,
};
use crate::options::ResolverOptions;
use crate::parse::{Request, parse, spec_target_of, spec_query_of, spec_fragment_of};
use crate::resolve::{
    spec_file_then_dir, file_then_dir, spec_resolve_modules, resolve_as_modules, ModOutcome,
    ModResult,
};
use crate::strutil::{str_eq, concat_strs};

verus! {

/// A request paired with the base directory it resolves against: the unit
/// the engine threads from step to step, derived anew by functional update.
#[derive(Debug)]
pub struct Stats {
    pub dir: String,
    pub request: Request,
}

impl Stats {
    pub fn from(dir: String, request: Request) -> (r: Stats)
        ensures
            r.dir == dir,
            r.request == request,
    {
        Stats { dir, request }
    }

    /// The computed path: the base directory joined with the target, or the
    /// base directory alone when the target is empty.
    pub fn get_path(&self) -> (r: String)
        ensures
            r@ == spec_join(self.dir@, self.request.target@),
    {
        if self.request.target.as_str().unicode_len() == 0 {
            String::from_str(self.dir.as_str())
        } else {
            crate::normalize::join_path(self.dir.as_str(), self.request.target.as_str())
        }
    }

    pub fn with_dir(self, dir: String) -> (r: Stats)
        ensures
            r.dir == dir,
            r.request == self.request,
    {
        Stats { dir, ..self }
    }

    pub fn with_target(self, target: String) -> (r: Stats)
        ensures
            r.dir == self.dir,
            r.request.target == target,
            r.request.query == self.request.query,
            r.request.fragment == self.request.fragment,
    {
        Stats { request: Request { target, ..self.request }, ..self }
    }
}

/// A directory's cached association: which manifest of the resolver's
/// filesystem value is its nearest enclosing one.
#[derive(Debug)]
pub struct DirInfo {
    /// The package directory the manifest sits in.
    pub description_file_path: String,
    /// Its index among the filesystem value's manifests.
    pub manifest: usize,
}

/// A resolution failure.
#[derive(Debug, PartialEq, Eq)]
pub enum ResolverError {
    /// The specifier was empty; `dir` is the originating directory.
    EmptySpecifier { dir: String },
    /// Nothing satisfied the request after all strategies and the full
    /// upward walk.
    NotFound { specifier: String, dir: String },
    /// The requested subpath is explicitly excluded by conditional exports.
    NotExported { specifier: String },
}

/// Mathematical mirror of [`ResolverError`].
pub enum RErr {
    Empty { dir: Seq<char> },
    NotFound { specifier: Seq<char>, dir: Seq<char> },
    NotExported { specifier: Seq<char> },
}

pub open spec fn err_view(e: ResolverError) -> RErr {
    match e {
        ResolverError::EmptySpecifier { dir } => RErr::Empty { dir: dir@ },
        ResolverError::NotFound { specifier, dir } => RErr::NotFound {
            specifier: specifier@,
            dir: dir@,
        },
        ResolverError::NotExported { specifier } => RErr::NotExported { specifier: specifier@ },
    }
}

/// What a resolution came to: a path, the block-marker outcome, or a
/// failure.
pub enum ROutcome {
    Found(Seq<char>),
    Ignored,
    Failed(RErr),
}

pub open spec fn outcome_view(r: Result<Option<String>, ResolverError>) -> ROutcome {
    match r {
        Ok(Some(p)) => ROutcome::Found(p@),
        Ok(None) => ROutcome::Ignored,
        Err(e) => ROutcome::Failed(err_view(e)),
    }
}

/// The resolver: configuration, the filesystem value, the base directory,
/// and the per-directory manifest-association cache.
#[derive(Debug)]
pub struct Resolver {
    pub options: ResolverOptions,
    pub fs: FileSystem,
    pub base_dir: Option<String>,
    pub cache_dir_info: Vec<(String, Option<DirInfo>)>,
}

/// One cache entry agrees with what the upward walk would find.
pub open spec fn cache_entry_ok(fs: FileSystem, e: (String, Option<DirInfo>)) -> bool {
    match e.1 {
        Some(di) => spec_find_manifest(fs, e.0@) == Some(di.manifest as int) && di.manifest
            < fs.manifests@.len() && fs.manifests@[di.manifest as int].abs_dir_path@
            == di.description_file_path@,
        None => spec_find_manifest(fs, e.0@) is None,
    }
}

/// Cache coherence: every memoized association is what a fresh walk gives.
pub open spec fn wf_cache(r: Resolver) -> bool {
    forall|k: int|
        0 <= k < r.cache_dir_info@.len() ==> cache_entry_ok(r.fs, #[trigger] r.cache_dir_info@[k])
}

/// Dispatch after the mapping stage: absolute and relative targets try
/// file-then-directory resolution; everything else walks the module
/// directories. The query and fragment are re-attached to a found path.
pub open spec fn spec_dispatch(
    fs: FileSystem,
    opts: ResolverOptions,
    dir: Seq<char>,
    t: Seq<char>,
    raw: Seq<char>,
    base: Seq<char>,
    q: Seq<char>,
    f: Seq<char>,
) -> ROutcome {
    let k = spec_get_target_kind(t, opts.built_ins.deep_view());
    if k is AbsolutePosix || k is AbsoluteWin || k is Relative {
        match spec_file_then_dir(fs, opts, dir, t) {
            Some(p) => ROutcome::Found(p + q + f),
            None => ROutcome::Failed(RErr::NotFound { specifier: raw, dir: base }),
        }
    } else {
        match spec_resolve_modules(fs, opts, dir, t) {
            ModOutcome::Found(p) => ROutcome::Found(p + q + f),
            ModOutcome::Excluded => ROutcome::Failed(RErr::NotExported { specifier: raw }),
            ModOutcome::NotFound => ROutcome::Failed(RErr::NotFound { specifier: raw, dir: base }),
        }
    }
}

/// The whole resolution of `raw` against `base`: parse, alias, classify,
/// manifest mapping, terminal dispatch, query/fragment re-attachment.
pub open spec fn spec_resolve_inner(
    fs: FileSystem,
    opts: ResolverOptions,
    base: Seq<char>,
    raw: Seq<char>,
) -> ROutcome {
    let t0 = spec_target_of(raw);
    let q = spec_query_of(raw);
    let f = spec_fragment_of(raw);
    match spec_normalize_alias(opts.alias@, t0) {
        None => ROutcome::Ignored,
        Some(t1) => {
            let kind = spec_get_target_kind(t1, opts.built_ins.deep_view());
            if kind is Empty {
                ROutcome::Failed(RErr::Empty { dir: base })
            } else if kind is BuildInModule {
                ROutcome::Found(t1)
            } else {
                let dir0 = if kind is AbsolutePosix || kind is AbsoluteWin {
                    seq!['/']
                } else {
                    base
                };
                let mi = spec_find_manifest(fs, spec_norm_join(dir0, t1));
                match spec_real_target(fs, opts, t1, None, mi) {
                    MapOutcome::Excluded => ROutcome::Failed(RErr::NotExported { specifier: raw }),
                    MapOutcome::Pass => spec_dispatch(fs, opts, dir0, t1, raw, base, q, f),
                    MapOutcome::NewTarget { dir: d2, target: t2 } => spec_dispatch(
                        fs,
                        opts,
                        d2,
                        t2,
                        raw,
                        base,
                        q,
                        f,
                    ),
                }
            }
        },
    }
}

/// What `resolve` returns for `raw` on a resolver whose base directory is
/// set.
pub open spec fn spec_resolve(res: Resolver, raw: Seq<char>) -> ROutcome {
    match res.base_dir {
        None => ROutcome::Failed(RErr::Empty { dir: Seq::empty() }),
        Some(b) => spec_resolve_inner(res.fs, res.options, b@, raw),
    }
}

impl Default for Resolver {
    /// Default options, an empty filesystem value, no base directory, an
    /// empty cache.
    fn default() -> (r: Resolver)
        ensures
            crate::options::is_default_options(r.options),
            r.fs.entries@.len() == 0,
            r.fs.manifests@.len() == 0,
            r.base_dir is None,
            r.cache_dir_info@.len() == 0,
    {
        Resolver {
            options: Default::default(),
            fs: FileSystem::new(),
            base_dir: None,
            cache_dir_info: Vec::new(),
        }
    }
}

impl Resolver {
    pub fn new(options: ResolverOptions, fs: FileSystem) -> (r: Resolver)
        ensures
            r.options == options,
            r.fs == fs,
            r.base_dir is None,
            r.cache_dir_info@.len() == 0,
    {
        Resolver { options, fs, base_dir: None, cache_dir_info: Vec::new() }
    }

    /// Sets the directory resolutions start from; it is stored normalized.
    pub fn with_base_dir(self, base_dir: &str) -> (r: Resolver)
        ensures
            r.options == self.options,
            r.fs == self.fs,
            r.cache_dir_info == self.cache_dir_info,
            (r.base_dir matches Some(b) && b@ == spec_normalize(base_dir@)),
    {
        Resolver { base_dir: Some(normalize_path(base_dir)), ..self }
    }

    fn get_base_dir(&self) -> (r: String)
        requires
            self.base_dir is Some,
        ensures
            (self.base_dir matches Some(b) && r@ == b@),
    {
        match &self.base_dir {
            Some(b) => String::from_str(b.as_str()),
            None => String::new(),
        }
    }

    /// The nearest enclosing manifest of `dir`, memoized per directory: a
    /// cache hit answers without walking, a miss walks and records the
    /// association (a negative one too).
    pub fn find_description_file(&mut self, dir: &str) -> (r: Option<usize>)
        requires
            wf_cache(*old(self)),
        ensures
            wf_cache(*final(self)),
            final(self).options == old(self).options,
            final(self).fs == old(self).fs,
            final(self).base_dir == old(self).base_dir,
            mi_view(r) == spec_find_manifest(old(self).fs, dir@),
            (r matches Some(i) ==> i < old(self).fs.manifests@.len()),
    {
        let mut k: usize = 0;
        while k < self.cache_dir_info.len()
            invariant
                0 <= k <= self.cache_dir_info@.len(),
                *self == *old(self),
                wf_cache(*self),
            decreases self.cache_dir_info@.len() - k,
        {
            if str_eq(self.cache_dir_info[k].0.as_str(), dir) {
                proof {
                    assert(cache_entry_ok(self.fs, self.cache_dir_info@[k as int]));
                }
                return match &self.cache_dir_info[k].1 {
                    Some(di) => Some(di.manifest),
                    None => None,
                };
            }
            k = k + 1;
        }
        let mut visited: Vec<String> = Vec::new();
        let r = self.fs.find_manifest_collect(dir, &mut visited);
        // Path compression: every directory the walk crossed points at the
        // same found manifest, or at "none" when the walk reached the root.
        let mut v: usize = 0;
        while v < visited.len()
            invariant
                0 <= v <= visited@.len(),
                self.options == old(self).options,
                self.fs == old(self).fs,
                self.base_dir == old(self).base_dir,
                wf_cache(*self),
                mi_view(r) == spec_find_manifest(self.fs, dir@),
                (r matches Some(i) ==> i < self.fs.manifests@.len()),
                forall|k: int|
                    0 <= k < visited@.len() ==> spec_find_manifest(
                        self.fs,
                        (#[trigger] visited@[k])@,
                    ) == spec_find_manifest(self.fs, dir@),
            decreases visited@.len() - v,
        {
            let entry: Option<DirInfo> = match r {
                Some(i) => Some(
                    DirInfo {
                        description_file_path: String::from_str(
                            self.fs.manifests[i].abs_dir_path.as_str(),
                        ),
                        manifest: i,
                    },
                ),
                None => None,
            };
            let ghost before = self.cache_dir_info@;
            self.cache_dir_info.push((String::from_str(visited[v].as_str()), entry));
            proof {
                assert forall|j: int| 0 <= j < self.cache_dir_info@.len() implies cache_entry_ok(
                    self.fs,
                    #[trigger] self.cache_dir_info@[j],
                ) by {
                    if j < before.len() {
                        assert(self.cache_dir_info@[j] == before[j]);
                    }
                }
            }
            v = v + 1;
        }
        r
    }

    /// Resolves `target` from the configured base directory.
    ///
    /// `Ok(Some(path))` is a success; `Ok(None)` means an alias block marker
    /// intentionally unresolved the specifier; `Err` reports a failure with
    /// the specifier and search root. The base directory must have been set.
    pub fn resolve(&mut self, target: &str) -> (r: Result<Option<String>, ResolverError>)
        requires
            old(self).base_dir is Some,
            wf_cache(*old(self)),
        ensures
            outcome_view(r) == spec_resolve(*old(self), target@),
            wf_cache(*final(self)),
            final(self).options == old(self).options,
            final(self).fs == old(self).fs,
            final(self).base_dir == old(self).base_dir,
    {
        let base = self.get_base_dir();
        let _ = self.find_description_file(base.as_str());
        self._resolve(base.as_str(), target)
    }

    fn _resolve(&self, base_dir: &str, target: &str) -> (r: Result<Option<String>, ResolverError>)
        ensures
            outcome_view(r) == spec_resolve_inner(self.fs, self.options, base_dir@, target@),
    {
        let req = parse(target);
        let t1 = match normalize_alias(&self.options.alias, req.target.as_str()) {
            Some(t) => t,
            None => {
                return Ok(None);
            },
        };
        let kind = get_target_kind(t1.as_str(), &self.options.built_ins);
        match kind {
            PathKind::Empty => {
                return Err(ResolverError::EmptySpecifier { dir: String::from_str(base_dir) });
            },
            PathKind::BuildInModule => {
                return Ok(Some(t1));
            },
            _ => {},
        }
        let dir0 = match kind {
            PathKind::AbsolutePosix | PathKind::AbsoluteWin => {
                let s = String::from_str("/");
                proof {
                    reveal_strlit("/");
                    assert(s@ =~= seq!['/']);
                }
                s
            },
            _ => String::from_str(base_dir),
        };
        let probe = norm_join(dir0.as_str(), t1.as_str());
        let mi = self.fs.find_manifest(probe.as_str());
        let staged: (String, String) = match get_real_target(
            &self.fs,
            &self.options,
            t1.as_str(),
            None,
            mi,
        ) {
            RealTarget::Excluded => {
                return Err(ResolverError::NotExported { specifier: String::from_str(target) });
            },
            RealTarget::Pass => (dir0, t1),
            RealTarget::NewTarget { dir, target: t } => (dir, t),
        };
        let d1 = staged.0;
        let t2 = staged.1;
        let kind2 = get_target_kind(t2.as_str(), &self.options.built_ins);
        let found: Option<String> = match kind2 {
            PathKind::AbsolutePosix | PathKind::AbsoluteWin | PathKind::Relative => {
                file_then_dir(&self.fs, &self.options, d1.as_str(), t2.as_str())
            },
            _ => {
                match resolve_as_modules(&self.fs, &self.options, d1.as_str(), t2.as_str()) {
                    ModResult::Found(p) => Some(p),
                    ModResult::Excluded => {
                        return Err(
                            ResolverError::NotExported { specifier: String::from_str(target) },
                        );
                    },
                    ModResult::NotFound => {
                        return Err(
                            ResolverError::NotFound {
                                specifier: String::from_str(target),
                                dir: String::from_str(base_dir),
                            },
                        );
                    },
                }
            },
        };
        match found {
            Some(p) => {
                let withq = concat_strs(p.as_str(), req.query.as_str());
                let full = concat_strs(withq.as_str(), req.fragment.as_str());
                Ok(Some(full))
            },
            None => Err(
                ResolverError::NotFound {
                    specifier: String::from_str(target),
                    dir: String::from_str(base_dir),
                },
            ),
        }
    }
}

} // verus!
