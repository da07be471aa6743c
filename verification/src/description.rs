//! Package manifests: the parsed document a package directory carries, and
//! the upward walk that finds the nearest enclosing one.

use vstd::prelude::*;
use crate::strutil::{last_index_until, lemma_last_index_until, find_last, substr_copy};

verus! {

/// A conditional-exports value: a direct target, the explicit "not exported"
/// marker, or a condition-keyed nested mapping.
#[derive(Debug)]
pub enum ExportsValue {
    Target(String),
    NotExported,
    Conditional(Vec<(String, ExportsValue)>),
}

/// The conditional-exports mapping: subpath keys (exact or with one `*`
/// wildcard) to values.
#[derive(Debug)]
pub struct ExportsField {
    pub entries: Vec<(String, ExportsValue)>,
}

/// A parsed package manifest, as the filesystem collaborator hands it over.
#[derive(Debug)]
pub struct DescriptionFileInfo {
    /// The package directory the manifest sits in: absolute, normalized.
    pub abs_dir_path: String,
    /// The package name.
    pub name: String,
    /// Entry-point fields by name (for example `browser`, `main`), in the
    /// manifest's own order.
    pub fields: Vec<(String, String)>,
    /// The conditional-exports mapping, when the manifest has one.
    pub exports: Option<ExportsField>,
}

/// The value of the first field named `name`, in `fields[i..]`.
pub open spec fn field_value_from(fields: Seq<(String, String)>, name: Seq<char>, i: int) -> Option<
    Seq<char>,
>
    decreases fields.len() - i,
{
    if i < 0 || i >= fields.len() {
        None
    } else if fields[i].0@ == name {
        Some(fields[i].1@)
    } else {
        field_value_from(fields, name, i + 1)
    }
}

impl DescriptionFileInfo {
    /// The value of the first manifest field named `name`.
    pub fn field_value(&self, name: &str) -> (r: Option<String>)
        ensures
            match r {
                Some(v) => field_value_from(self.fields@, name@, 0) == Some(v@),
                None => field_value_from(self.fields@, name@, 0) is None,
            },
    {
        let mut i: usize = 0;
        while i < self.fields.len()
            invariant
                0 <= i <= self.fields@.len(),
                field_value_from(self.fields@, name@, 0) == field_value_from(
                    self.fields@,
                    name@,
                    i as int,
                ),
            decreases self.fields@.len() - i,
        {
            if crate::strutil::str_eq(self.fields[i].0.as_str(), name) {
                return Some(String::from_str(self.fields[i].1.as_str()));
            }
            i = i + 1;
        }
        None
    }
}

/// The parent directory of a normalized path: the prefix before the last
/// `/`, the root `/` for its direct children, nothing at a root.
pub open spec fn spec_parent(p: Seq<char>) -> Option<Seq<char>> {
    match last_index_until(p, '/', p.len() as int) {
        None => None,
        Some(j) => if j == 0 {
            if p.len() > 1 {
                Some(seq!['/'])
            } else {
                None
            }
        } else {
            Some(p.subrange(0, j))
        },
    }
}

pub proof fn lemma_parent_shorter(p: Seq<char>)
    ensures
        match spec_parent(p) {
            Some(q) => q.len() < p.len(),
            None => true,
        },
{
    lemma_last_index_until(p, '/', p.len() as int);
}

pub fn parent_dir(p: &str) -> (r: Option<String>)
    ensures
        match r {
            Some(q) => spec_parent(p@) == Some(q@),
            None => spec_parent(p@) is None,
        },
{
    let n = p.unicode_len();
    proof {
        lemma_last_index_until(p@, '/', n as int);
    }
    match find_last(p, '/', n) {
        None => None,
        Some(j) => {
            if j == 0 {
                if n > 1 {
                    let r = String::from_str("/");
                    proof {
                        reveal_strlit("/");
                        assert(r@ =~= seq!['/']);
                    }
                    Some(r)
                } else {
                    None
                }
            } else {
                Some(substr_copy(p, 0, j))
            }
        },
    }
}

} // verus!
