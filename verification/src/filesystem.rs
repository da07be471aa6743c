//! The filesystem as a value: the entries and parsed manifests the resolver
//! probes. The layer that scans a real disk into this model lives outside
//! the crate; resolution itself is a pure function of it.

use vstd::prelude::*;
use crate::description::{DescriptionFileInfo, spec_parent, parent_dir, lemma_parent_shorter};
use crate::normalize::{spec_normalize, normalize_path};

verus! {

#[derive(Clone, Copy, Debug, PartialEq, Eq, Structural)]
pub enum FileKind {
    File,
    Dir,
}

/// One filesystem entry: an absolute normalized path, its kind, and the
/// canonical path it links to when it is a symlink.
#[derive(Clone, Debug)]
pub struct FsEntry {
    pub path: String,
    pub kind: FileKind,
    pub link: Option<String>,
}

/// The filesystem model: flat entries plus the parsed manifest each package
/// directory carries, keyed by its `abs_dir_path`.
#[derive(Debug)]
pub struct FileSystem {
    pub entries: Vec<FsEntry>,
    pub manifests: Vec<DescriptionFileInfo>,
}

/// Index of the first entry with path `p`, at or after `i`.
pub open spec fn entry_index_from(es: Seq<FsEntry>, p: Seq<char>, i: int) -> Option<int>
    decreases es.len() - i,
{
    if i < 0 || i >= es.len() {
        None
    } else if es[i].path@ == p {
        Some(i)
    } else {
        entry_index_from(es, p, i + 1)
    }
}

pub open spec fn spec_entry_index(fs: FileSystem, p: Seq<char>) -> Option<int> {
    entry_index_from(fs.entries@, p, 0)
}

/// `p` names a regular file.
pub open spec fn spec_is_file(fs: FileSystem, p: Seq<char>) -> bool {
    match spec_entry_index(fs, p) {
        Some(i) => fs.entries@[i].kind is File,
        None => false,
    }
}

/// `p` names a directory.
pub open spec fn spec_is_dir(fs: FileSystem, p: Seq<char>) -> bool {
    match spec_entry_index(fs, p) {
        Some(i) => fs.entries@[i].kind is Dir,
        None => false,
    }
}

/// The path `p` resolves to once symlinks are honoured: its link target if
/// the flag is set and `p` is a symlink, `p` itself otherwise.
pub open spec fn spec_real_path(fs: FileSystem, p: Seq<char>, symlinks: bool) -> Seq<char> {
    if !symlinks {
        p
    } else {
        match spec_entry_index(fs, p) {
            Some(i) => match fs.entries@[i].link {
                Some(l) => l@,
                None => p,
            },
            None => p,
        }
    }
}

/// Index of the first manifest owned by directory `d`, at or after `i`.
pub open spec fn manifest_index_from(
    ms: Seq<DescriptionFileInfo>,
    d: Seq<char>,
    i: int,
) -> Option<int>
    decreases ms.len() - i,
{
    if i < 0 || i >= ms.len() {
        None
    } else if ms[i].abs_dir_path@ == d {
        Some(i)
    } else {
        manifest_index_from(ms, d, i + 1)
    }
}

pub open spec fn spec_manifest_index(fs: FileSystem, d: Seq<char>) -> Option<int> {
    manifest_index_from(fs.manifests@, d, 0)
}

/// The nearest enclosing manifest of `d`: its own, else the nearest of its
/// parent, walking up to the root.
pub open spec fn spec_find_manifest(fs: FileSystem, d: Seq<char>) -> Option<int>
    decreases d.len(),
    via spec_find_manifest_decreases
{
    match spec_manifest_index(fs, d) {
        Some(i) => Some(i),
        None => match spec_parent(d) {
            None => None,
            Some(pp) => spec_find_manifest(fs, pp),
        },
    }
}

#[via_fn]
proof fn spec_find_manifest_decreases(fs: FileSystem, d: Seq<char>) {
    lemma_parent_shorter(d);
}

impl FileSystem {
    /// An empty model: no entries, no manifests.
    pub fn new() -> (r: FileSystem)
        ensures
            r.entries@.len() == 0,
            r.manifests@.len() == 0,
    {
        FileSystem { entries: Vec::new(), manifests: Vec::new() }
    }

    fn entry_index(&self, p: &str) -> (r: Option<usize>)
        ensures
            match r {
                Some(i) => spec_entry_index(*self, p@) == Some(i as int) && i
                    < self.entries@.len(),
                None => spec_entry_index(*self, p@) is None,
            },
    {
        proof {
            lemma_entry_index_bound(self.entries@, p@, 0);
        }
        let mut i: usize = 0;
        while i < self.entries.len()
            invariant
                0 <= i <= self.entries@.len(),
                spec_entry_index(*self, p@) == entry_index_from(self.entries@, p@, i as int),
            decreases self.entries@.len() - i,
        {
            if crate::strutil::str_eq(self.entries[i].path.as_str(), p) {
                return Some(i);
            }
            i = i + 1;
        }
        None
    }

    pub fn is_file(&self, p: &str) -> (r: bool)
        ensures
            r == spec_is_file(*self, p@),
    {
        match self.entry_index(p) {
            Some(i) => matches!(self.entries[i].kind, FileKind::File),
            None => false,
        }
    }

    pub fn is_dir(&self, p: &str) -> (r: bool)
        ensures
            r == spec_is_dir(*self, p@),
    {
        match self.entry_index(p) {
            Some(i) => matches!(self.entries[i].kind, FileKind::Dir),
            None => false,
        }
    }

    pub fn real_path(&self, p: &str, symlinks: bool) -> (r: String)
        ensures
            r@ == spec_real_path(*self, p@, symlinks),
    {
        if symlinks {
            match self.entry_index(p) {
                Some(i) => match &self.entries[i].link {
                    Some(l) => String::from_str(l.as_str()),
                    None => String::from_str(p),
                },
                None => String::from_str(p),
            }
        } else {
            String::from_str(p)
        }
    }

    pub fn manifest_index(&self, d: &str) -> (r: Option<usize>)
        ensures
            match r {
                Some(i) => spec_manifest_index(*self, d@) == Some(i as int) && i
                    < self.manifests@.len(),
                None => spec_manifest_index(*self, d@) is None,
            },
    {
        let mut i: usize = 0;
        while i < self.manifests.len()
            invariant
                0 <= i <= self.manifests@.len(),
                spec_manifest_index(*self, d@) == manifest_index_from(
                    self.manifests@,
                    d@,
                    i as int,
                ),
            decreases self.manifests@.len() - i,
        {
            if crate::strutil::str_eq(self.manifests[i].abs_dir_path.as_str(), d) {
                return Some(i);
            }
            i = i + 1;
        }
        None
    }

    /// The nearest enclosing manifest of `d`, found by the upward walk.
    pub fn find_manifest(&self, d: &str) -> (r: Option<usize>)
        ensures
            match r {
                Some(i) => spec_find_manifest(*self, d@) == Some(i as int) && i
                    < self.manifests@.len(),
                None => spec_find_manifest(*self, d@) is None,
            },
        decreases d@.len(),
    {
        proof {
            lemma_parent_shorter(d@);
        }
        match self.manifest_index(d) {
            Some(i) => {
                proof {
                    lemma_manifest_index_bound(self.manifests@, d@, 0);
                }
                Some(i)
            },
            None => match parent_dir(d) {
                None => None,
                Some(pp) => self.find_manifest(pp.as_str()),
            },
        }
    }

    /// The upward walk of [`FileSystem::find_manifest`], recording every
    /// directory it crosses in `visited`; each of them has the same nearest
    /// enclosing manifest as `d` itself.
    pub fn find_manifest_collect(&self, d: &str, visited: &mut Vec<String>) -> (r: Option<usize>)
        ensures
            match r {
                Some(i) => spec_find_manifest(*self, d@) == Some(i as int) && i
                    < self.manifests@.len(),
                None => spec_find_manifest(*self, d@) is None,
            },
            final(visited)@.len() > old(visited)@.len(),
            forall|k: int| 0 <= k < old(visited)@.len() ==> final(visited)@[k] == old(visited)@[k],
            forall|k: int|
                old(visited)@.len() <= k < final(visited)@.len() ==> spec_find_manifest(
                    *self,
                    (#[trigger] final(visited)@[k])@,
                ) == spec_find_manifest(*self, d@),
        decreases d@.len(),
    {
        proof {
            lemma_parent_shorter(d@);
        }
        visited.push(String::from_str(d));
        match self.manifest_index(d) {
            Some(i) => {
                proof {
                    lemma_manifest_index_bound(self.manifests@, d@, 0);
                }
                Some(i)
            },
            None => match parent_dir(d) {
                None => None,
                Some(pp) => self.find_manifest_collect(pp.as_str(), visited),
            },
        }
    }

    /// Records a regular file (or symlink to one) under the normalized form
    /// of `path`.
    pub fn add_file(&mut self, path: &str, link: Option<String>)
        ensures
            final(self).manifests == old(self).manifests,
            final(self).entries@.len() == old(self).entries@.len() + 1,
            forall|k: int|
                0 <= k < old(self).entries@.len() ==> final(self).entries@[k] == old(
                    self,
                ).entries@[k],
            final(self).entries@.last().path@ == spec_normalize(path@),
            final(self).entries@.last().kind == FileKind::File,
            final(self).entries@.last().link == link,
    {
        let p = normalize_path(path);
        self.entries.push(FsEntry { path: p, kind: FileKind::File, link });
    }

    /// Records a directory under the normalized form of `path`.
    pub fn add_dir(&mut self, path: &str)
        ensures
            final(self).manifests == old(self).manifests,
            final(self).entries@.len() == old(self).entries@.len() + 1,
            forall|k: int|
                0 <= k < old(self).entries@.len() ==> final(self).entries@[k] == old(
                    self,
                ).entries@[k],
            final(self).entries@.last().path@ == spec_normalize(path@),
            final(self).entries@.last().kind == FileKind::Dir,
            final(self).entries@.last().link is None,
    {
        let p = normalize_path(path);
        self.entries.push(FsEntry { path: p, kind: FileKind::Dir, link: None });
    }

    /// Records a parsed manifest for the package directory it names.
    pub fn add_manifest(&mut self, info: DescriptionFileInfo)
        ensures
            final(self).entries == old(self).entries,
            final(self).manifests@ == old(self).manifests@.push(info),
    {
        self.manifests.push(info);
    }
}

pub proof fn lemma_entry_index_bound(es: Seq<FsEntry>, p: Seq<char>, i: int)
    ensures
        match entry_index_from(es, p, i) {
            Some(j) => i <= j < es.len() && es[j].path@ == p,
            None => true,
        },
    decreases es.len() - i,
{
    if 0 <= i < es.len() && es[i].path@ != p {
        lemma_entry_index_bound(es, p, i + 1);
    }
}

proof fn lemma_manifest_index_bound(ms: Seq<DescriptionFileInfo>, d: Seq<char>, i: int)
    ensures
        match manifest_index_from(ms, d, i) {
            Some(j) => i <= j < ms.len(),
            None => true,
        },
    decreases ms.len() - i,
{
    if 0 <= i < ms.len() && ms[i].abs_dir_path@ != d {
        lemma_manifest_index_bound(ms, d, i + 1);
    }
}

/// A path in the model's domain: absolute and already normalized.
pub open spec fn path_normed(p: Seq<char>) -> bool {
    p.len() > 0 && p[0] == '/' && spec_normalize(p) == p
}

/// `p` names a regular file that is not itself a symlink.
pub open spec fn spec_is_plain_file(fs: FileSystem, p: Seq<char>) -> bool {
    match spec_entry_index(fs, p) {
        Some(i) => fs.entries@[i].kind is File && fs.entries@[i].link is None,
        None => false,
    }
}

/// Well-formedness of the model: entry paths and manifest directories are
/// absolute, normalized and unique, and every symlink target is itself a
/// plain file of the model.
pub open spec fn wf_fs(fs: FileSystem) -> bool {
    &&& forall|i: int| 0 <= i < fs.entries@.len() ==> path_normed(#[trigger] fs.entries@[i].path@)
    &&& forall|i: int, j: int|
        0 <= i < j < fs.entries@.len() ==> (#[trigger] fs.entries@[i].path@) != (
        #[trigger] fs.entries@[j].path@)
    &&& forall|i: int|
        0 <= i < fs.entries@.len() ==> (#[trigger] fs.entries@[i].link matches Some(l) ==>
        path_normed(l@) && spec_is_plain_file(fs, l@))
    &&& forall|i: int|
        0 <= i < fs.manifests@.len() ==> path_normed(#[trigger] fs.manifests@[i].abs_dir_path@)
}

} // verus!
