//! Paths as plain strings. The engine works on absolute, normalized paths
//! ('/'-separated, no trailing separator except the root itself); resolving a
//! path against the real filesystem is the caller's business.
use crate::text::{last_pos, lemma_last_pos, rfind_from};
use vstd::prelude::*;
use vstd::string::*;

verus! {

/// The parent of a path: everything before the last separator. The root has
/// no parent, and neither has a path without a separator.
pub open spec fn parent_of(p: Seq<char>) -> Option<Seq<char>> {
    let sl = last_pos(p, '/');
    if sl == -1 {
        None
    } else if sl == 0 {
        if p.len() == 1 {
            None
        } else {
            Some(p.take(1))
        }
    } else {
        Some(p.take(sl))
    }
}

/// Whether a path has a parent directory.
pub open spec fn has_parent(p: Seq<char>) -> bool {
    parent_of(p) is Some
}

/// The final component of a path: everything after the last separator.
pub open spec fn file_name_of(p: Seq<char>) -> Seq<char> {
    p.skip(last_pos(p, '/') + 1)
}

/// Computes the parent directory of a path, as `parent_of` says.
pub fn parent_dir_of(p: &str) -> (r: Option<String>)
    ensures
        match r {
            Some(s) => parent_of(p@) == Some(s@),
            None => parent_of(p@) is None,
        },
{
    proof {
        lemma_last_pos(p@, '/');
    }
    match rfind_from(p, '/', 0) {
        Some(sl) => {
            if sl == 0 {
                if p.unicode_len() == 1 {
                    None
                } else {
                    Some(String::from_str(p.substring_char(0, 1)))
                }
            } else {
                Some(String::from_str(p.substring_char(0, sl)))
            }
        },
        None => None,
    }
}

/// Whether the path has a parent directory.
pub fn path_has_parent(p: &str) -> (r: bool)
    ensures
        r == has_parent(p@),
{
    let parent = parent_dir_of(p);
    parent.is_some()
}

/// `dir` and `name` joined with a separator; a `dir` that already ends in one
/// gets none added.
pub open spec fn joined(dir: Seq<char>, name: Seq<char>) -> Seq<char> {
    if dir.len() > 0 && dir.last() == '/' {
        dir + name
    } else {
        dir + seq!['/'] + name
    }
}

/// Joins a directory path and a child name, as `joined` says.
pub fn join_path(dir: &str, name: &str) -> (r: String)
    ensures
        r@ == joined(dir@, name@),
{
    let n = dir.unicode_len();
    let mut r = String::from_str(dir);
    if n == 0 || dir.get_char(n - 1) != '/' {
        r.append("/");
        proof {
            reveal_strlit("/");
            assert(r@ =~= dir@ + seq!['/']);
        }
    }
    r.append(name);
    proof {
        if n > 0 && dir@.last() == '/' {
            assert(r@ =~= joined(dir@, name@));
        } else {
            assert(r@ =~= joined(dir@, name@));
        }
    }
    r
}

} // verus!
