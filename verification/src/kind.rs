//! Classification of a target string into a resolution strategy.

use vstd::prelude::*;
use crate::strutil::is_prefix_of;

verus! {

/// The resolution strategy a target string calls for.
#[derive(Clone, Copy, Debug, PartialEq, Eq, Structural)]
pub enum PathKind {
    /// The empty target: an input error.
    Empty,
    /// A name the host runtime resolves itself; returned verbatim.
    BuildInModule,
    /// A POSIX absolute path (leading `/`).
    AbsolutePosix,
    /// A Windows drive-letter path (`C:`, `C:/`, `C:\`).
    AbsoluteWin,
    /// A `.`/`..`-anchored path, resolved against the current directory.
    Relative,
    /// A bare or scoped package specifier, resolved through module
    /// directories.
    Normal,
}

pub open spec fn spec_is_relative(t: Seq<char>) -> bool {
    t == seq!['.'] || t == seq!['.', '.'] || is_prefix_of(seq!['.', '/'], t) || is_prefix_of(
        seq!['.', '.', '/'],
        t,
    )
}

pub open spec fn spec_is_drive(t: Seq<char>) -> bool {
    t.len() >= 2 && t[1] == ':' && (('a' <= t[0] && t[0] <= 'z') || ('A' <= t[0] && t[0] <= 'Z'))
        && (t.len() == 2 || t[2] == '/' || t[2] == '\\')
}

/// The kind of a target, given the configured built-in module names.
pub open spec fn spec_get_target_kind(t: Seq<char>, built_ins: Seq<Seq<char>>) -> PathKind {
    if t.len() == 0 {
        PathKind::Empty
    } else if built_ins.contains(t) {
        PathKind::BuildInModule
    } else if t[0] == '/' {
        PathKind::AbsolutePosix
    } else if spec_is_drive(t) {
        PathKind::AbsoluteWin
    } else if spec_is_relative(t) {
        PathKind::Relative
    } else {
        PathKind::Normal
    }
}

/// Membership of `t` in a list of names.
pub fn list_contains(v: &Vec<String>, t: &str) -> (r: bool)
    ensures
        r == v.deep_view().contains(t@),
{
    let mut i: usize = 0;
    while i < v.len()
        invariant
            i <= v.len(),
            forall|k: int| 0 <= k < i ==> v.deep_view()[k] != t@,
        decreases v.len() - i,
    {
        if crate::strutil::str_eq(v[i].as_str(), t) {
            proof {
                assert(v.deep_view()[i as int] == t@);
            }
            return true;
        }
        i = i + 1;
    }
    proof {
        assert(forall|k: int| 0 <= k < v.deep_view().len() ==> v.deep_view()[k] != t@);
    }
    false
}

pub fn get_target_kind(t: &str, built_ins: &Vec<String>) -> (r: PathKind)
    ensures
        r == spec_get_target_kind(t@, built_ins.deep_view()),
{
    let n = t.unicode_len();
    if n == 0 {
        return PathKind::Empty;
    }
    if list_contains(built_ins, t) {
        return PathKind::BuildInModule;
    }
    let c0 = t.get_char(0);
    if c0 == '/' {
        return PathKind::AbsolutePosix;
    }
    if n >= 2 && t.get_char(1) == ':' && (('a' <= c0 && c0 <= 'z') || ('A' <= c0 && c0 <= 'Z')) && (
    n == 2 || t.get_char(2) == '/' || t.get_char(2) == '\\') {
        return PathKind::AbsoluteWin;
    }
    let dot = c0 == '.';
    if dot && n == 1 {
        proof {
            assert(t@ =~= seq!['.']);
        }
        return PathKind::Relative;
    }
    if dot && n == 2 && t.get_char(1) == '.' {
        proof {
            assert(t@ =~= seq!['.', '.']);
        }
        return PathKind::Relative;
    }
    if dot && n >= 2 && t.get_char(1) == '/' {
        proof {
            assert(t@.subrange(0, 2) =~= seq!['.', '/']);
        }
        return PathKind::Relative;
    }
    if dot && n >= 3 && t.get_char(1) == '.' && t.get_char(2) == '/' {
        proof {
            assert(t@.subrange(0, 3) =~= seq!['.', '.', '/']);
        }
        return PathKind::Relative;
    }
    proof {
        assert(!spec_is_relative(t@)) by {
            if t@ == seq!['.'] {
                assert(t@.len() == 1);
            }
            if t@ == seq!['.', '.'] {
                assert(t@[1] == '.');
            }
            if is_prefix_of(seq!['.', '/'], t@) {
                assert(t@.subrange(0, 2)[1] == t@[1]);
            }
            if is_prefix_of(seq!['.', '.', '/'], t@) {
                assert(t@.subrange(0, 3)[1] == t@[1]);
                assert(t@.subrange(0, 3)[2] == t@[2]);
            }
        }
    }
    PathKind::Normal
}

} // verus!
