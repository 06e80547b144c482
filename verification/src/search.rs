//! Recursive attribute and content search: a depth-first, pre-order walk over
//! a directory subtree handed in as a tree of plain values, filtering each
//! entry without ever pruning the descent into directories.
use crate::errors::IoError;
use crate::item::{items_model, FileItem, ItemModel};
use crate::text::{contains_seq, contains_seq_ci, str_contains, str_contains_ci};
use vstd::prelude::*;
use vstd::string::*;

verus! {

/// Which kinds of entries a search reports.
#[derive(Clone, Copy, Debug, PartialEq, Eq, Structural)]
pub enum SearchFileType {
    All,
    Files,
    Directories,
}

/// What a search looks for, rooted where `search_path` points. Empty
/// patterns do not filter; absent bounds do not bound.
#[derive(Clone, Debug)]
pub struct SearchCriteria {
    pub search_path: String,
    pub filename_pattern: String,
    pub content_pattern: String,
    pub min_size: Option<u64>,
    pub max_size: Option<u64>,
    pub modified_after: Option<u64>,
    pub modified_before: Option<u64>,
    pub file_type: SearchFileType,
    pub case_sensitive: bool,
    pub include_hidden: bool,
}

impl Default for SearchCriteria {
    /// A search for everything under the working directory.
    fn default() -> (r: SearchCriteria)
        ensures
            r.search_path@ == "."@,
            r.filename_pattern@.len() == 0,
            r.content_pattern@.len() == 0,
            r.min_size is None,
            r.max_size is None,
            r.modified_after is None,
            r.modified_before is None,
            r.file_type == SearchFileType::All,
            !r.case_sensitive,
            !r.include_hidden,
    {
        SearchCriteria {
            search_path: String::from_str("."),
            filename_pattern: String::new(),
            content_pattern: String::new(),
            min_size: None,
            max_size: None,
            modified_after: None,
            modified_before: None,
            file_type: SearchFileType::All,
            case_sensitive: false,
            include_hidden: false,
        }
    }
}

/// One entry of the subtree a search walks: its listing row, the decoded
/// text of a readable file (`None` for an unreadable or non-text one), and
/// the children of a directory (empty for an unreadable one).
#[derive(Debug)]
pub struct FsNode {
    pub name: String,
    pub path: String,
    pub is_dir: bool,
    pub size: u64,
    pub modified: u64,
    pub content: Option<String>,
    pub children: Vec<FsNode>,
}

/// A name beginning with a dot marks a hidden entry.
pub open spec fn is_hidden(name: Seq<char>) -> bool {
    name.len() > 0 && name[0] == '.'
}

/// The filename filter passes: no pattern, or the pattern occurs in the
/// name, both lowercased unless the search is case-sensitive.
pub open spec fn name_pass(c: SearchCriteria, name: Seq<char>) -> bool {
    ||| c.filename_pattern@.len() == 0
    ||| (if c.case_sensitive {
        contains_seq(name, c.filename_pattern@)
    } else {
        contains_seq_ci(name, c.filename_pattern@)
    })
}

/// The size bounds pass.
pub open spec fn size_pass(c: SearchCriteria, size: u64) -> bool {
    &&& (match c.min_size {
        Some(m) => size >= m,
        None => true,
    })
    &&& (match c.max_size {
        Some(m) => size <= m,
        None => true,
    })
}

/// The modification-time bounds pass.
pub open spec fn time_pass(c: SearchCriteria, modified: u64) -> bool {
    &&& (match c.modified_after {
        Some(t) => modified >= t,
        None => true,
    })
    &&& (match c.modified_before {
        Some(t) => modified <= t,
        None => true,
    })
}

/// The entry's kind is among the kinds searched for.
pub open spec fn type_pass(c: SearchCriteria, is_dir: bool) -> bool {
    match c.file_type {
        SearchFileType::All => true,
        SearchFileType::Files => !is_dir,
        SearchFileType::Directories => is_dir,
    }
}

/// The content filter passes: no pattern, a directory, or a readable text in
/// which the pattern occurs; an unreadable file never passes.
pub open spec fn content_pass(c: SearchCriteria, is_dir: bool, content: Option<String>) -> bool {
    ||| c.content_pattern@.len() == 0
    ||| is_dir
    ||| (match content {
        Some(text) => if c.case_sensitive {
            contains_seq(text@, c.content_pattern@)
        } else {
            contains_seq_ci(text@, c.content_pattern@)
        },
        None => false,
    })
}

/// The entry is reported: visible (or hidden entries included), of a
/// searched kind, and through every filter.
pub open spec fn node_matches(c: SearchCriteria, n: FsNode) -> bool {
    &&& (c.include_hidden || !is_hidden(n.name@))
    &&& type_pass(c, n.is_dir)
    &&& name_pass(c, n.name@)
    &&& size_pass(c, n.size)
    &&& time_pass(c, n.modified)
    &&& content_pass(c, n.is_dir, n.content)
}

/// The walk descends into the entry: every visible directory, reported or
/// not.
pub open spec fn node_recursed(c: SearchCriteria, n: FsNode) -> bool {
    n.is_dir && (c.include_hidden || !is_hidden(n.name@))
}

/// The listing row a reported entry turns into.
pub open spec fn item_of(n: FsNode) -> ItemModel {
    ItemModel {
        name: n.name@,
        path: n.path@,
        is_dir: n.is_dir,
        size: n.size,
        modified: n.modified,
        git_status: None,
    }
}

/// Everything a pre-order walk over `s` reports: for each entry in order,
/// the entry itself if it matches, then whatever its subtree reports.
pub open spec fn search_seq(c: SearchCriteria, s: Seq<FsNode>) -> Seq<ItemModel>
    decreases s,
{
    if s.len() == 0 {
        Seq::empty()
    } else {
        (if node_matches(c, s[0]) {
            seq![item_of(s[0])]
        } else {
            Seq::empty()
        }) + (if node_recursed(c, s[0]) {
            search_seq(c, s[0].children@)
        } else {
            Seq::empty()
        }) + search_seq(c, s.drop_first())
    }
}

/// Decides `node_matches` for one entry.
fn node_matches_exec(c: &SearchCriteria, n: &FsNode) -> (r: bool)
    ensures
        r == node_matches(*c, *n),
{
    let name = n.name.as_str();
    let visible = c.include_hidden || !(name.unicode_len() > 0 && name.get_char(0) == '.');
    if !visible {
        return false;
    }
    let kind_ok = match c.file_type {
        SearchFileType::All => true,
        SearchFileType::Files => !n.is_dir,
        SearchFileType::Directories => n.is_dir,
    };
    if !kind_ok {
        return false;
    }
    let name_ok = c.filename_pattern.as_str().unicode_len() == 0 || (if c.case_sensitive {
        str_contains(name, c.filename_pattern.as_str())
    } else {
        str_contains_ci(name, c.filename_pattern.as_str())
    });
    if !name_ok {
        return false;
    }
    let size_ok = (match c.min_size {
        Some(m) => n.size >= m,
        None => true,
    }) && (match c.max_size {
        Some(m) => n.size <= m,
        None => true,
    });
    if !size_ok {
        return false;
    }
    let time_ok = (match c.modified_after {
        Some(t) => n.modified >= t,
        None => true,
    }) && (match c.modified_before {
        Some(t) => n.modified <= t,
        None => true,
    });
    if !time_ok {
        return false;
    }
    let content_ok = c.content_pattern.as_str().unicode_len() == 0 || n.is_dir || (match &n
        .content {
        Some(text) => if c.case_sensitive {
            str_contains(text.as_str(), c.content_pattern.as_str())
        } else {
            str_contains_ci(text.as_str(), c.content_pattern.as_str())
        },
        None => false,
    });
    content_ok
}

/// Walks `nodes` in order, appending every reported entry to `results`.
fn search_into(c: &SearchCriteria, nodes: &Vec<FsNode>, results: &mut Vec<FileItem>)
    ensures
        items_model(final(results)@) == items_model(old(results)@) + search_seq(*c, nodes@),
    decreases nodes@,
{
    let ghost base = items_model(old(results)@);
    let n = nodes.len();
    let mut i: usize = 0;
    proof {
        assert(nodes@.skip(0) =~= nodes@);
    }
    while i < n
        invariant
            i <= n,
            n == nodes@.len(),
            items_model(results@) + search_seq(*c, nodes@.skip(i as int)) == base + search_seq(
                *c,
                nodes@,
            ),
        decreases n - i,
    {
        let ghost tail = nodes@.skip(i as int);
        proof {
            assert(tail.len() > 0);
            assert(tail[0] == nodes@[i as int]);
            assert(tail.drop_first() =~= nodes@.skip(i as int + 1));
        }
        let node = &nodes[i];
        if node_matches_exec(c, node) {
            let ghost r0 = items_model(results@);
            results.push(
                FileItem {
                    name: node.name.clone(),
                    path: node.path.clone(),
                    is_dir: node.is_dir,
                    size: node.size,
                    modified: node.modified,
                    git_status: None,
                },
            );
            proof {
                assert(items_model(results@) =~= r0.push(item_of(nodes@[i as int])));
            }
        }
        if node.is_dir && {
            let name = node.name.as_str();
            c.include_hidden || !(name.unicode_len() > 0 && name.get_char(0) == '.')
        } {
            assert(node_recursed(*c, nodes@[i as int]));
            search_into(c, &node.children, results);
        } else {
            assert(!node_recursed(*c, nodes@[i as int]));
        }
        i = i + 1;
        proof {
            assert(items_model(results@) + search_seq(*c, nodes@.skip(i as int)) =~= base
                + search_seq(*c, nodes@));
        }
    }
    proof {
        assert(nodes@.skip(n as int) =~= Seq::<FsNode>::empty());
        assert(items_model(results@) =~= base + search_seq(*c, nodes@));
    }
}

/// Searches the subtree under `root` as the criteria say, reporting matches
/// in visitation order. A root that could not be opened fails the whole
/// call with its error; everything below is the walk of `search_seq`.
pub fn search_files(criteria: &SearchCriteria, root: Result<&FsNode, IoError>) -> (r: Result<
    Vec<FileItem>,
    IoError,
>)
    ensures
        match root {
            Ok(n) => match r {
                Ok(v) => items_model(v@) == search_seq(*criteria, n.children@),
                Err(_) => false,
            },
            Err(e) => r == Err::<Vec<FileItem>, IoError>(e),
        },
{
    match root {
        Err(e) => Err(e),
        Ok(n) => {
            let mut results: Vec<FileItem> = Vec::new();
            proof {
                assert(items_model(results@) =~= Seq::<ItemModel>::empty());
            }
            search_into(criteria, &n.children, &mut results);
            proof {
                assert(items_model(results@) =~= search_seq(*criteria, n.children@));
            }
            Ok(results)
        },
    }
}

/// `n` lies somewhere in the walked part of the forest `s`: among its
/// entries, or anywhere below a directory the walk descends into.
pub open spec fn walk_reaches(c: SearchCriteria, s: Seq<FsNode>, n: FsNode) -> bool
    decreases s,
{
    exists|i: int|
        0 <= i < s.len() && (#[trigger] s[i] == n || (node_recursed(c, s[i]) && walk_reaches(
            c,
            s[i].children@,
            n,
        )))
}

/// Whatever the walk reaches and the filters pass is reported — at any
/// depth, below matching and non-matching directories alike.
pub proof fn lemma_search_complete(c: SearchCriteria, s: Seq<FsNode>, n: FsNode)
    requires
        walk_reaches(c, s, n),
        node_matches(c, n),
    ensures
        search_seq(c, s).contains(item_of(n)),
    decreases s,
{
    let i = choose|i: int|
        0 <= i < s.len() && (#[trigger] s[i] == n || (node_recursed(c, s[i]) && walk_reaches(
            c,
            s[i].children@,
            n,
        )));
    let head = if node_matches(c, s[0]) {
        seq![item_of(s[0])]
    } else {
        Seq::<ItemModel>::empty()
    };
    let mid = if node_recursed(c, s[0]) {
        search_seq(c, s[0].children@)
    } else {
        Seq::<ItemModel>::empty()
    };
    let rest = search_seq(c, s.drop_first());
    assert(search_seq(c, s) == head + mid + rest);
    if i == 0 {
        if s[0] == n {
            assert(head[0] == item_of(n));
            assert((head + mid + rest)[0] == item_of(n));
        } else {
            lemma_search_complete(c, s[0].children@, n);
            let w = choose|w: int|
                0 <= w < mid.len() && mid[w] == item_of(n);
            assert((head + mid + rest)[head.len() + w] == item_of(n));
        }
    } else {
        assert(s.drop_first()[i - 1] == s[i]);
        assert(walk_reaches(c, s.drop_first(), n));
        lemma_search_complete(c, s.drop_first(), n);
        let w = choose|w: int|
            0 <= w < rest.len() && rest[w] == item_of(n);
        assert((head + mid + rest)[head.len() + mid.len() + w] == item_of(n));
    }
}

/// With a lower size bound, nothing below the bound is reported, whatever
/// the other filters say.
pub proof fn lemma_search_min_size(c: SearchCriteria, s: Seq<FsNode>, m: u64)
    requires
        c.min_size == Some(m),
    ensures
        forall|k: int|
            0 <= k < search_seq(c, s).len() ==> (#[trigger] search_seq(c, s)[k]).size >= m,
    decreases s,
{
    if s.len() > 0 {
        lemma_search_min_size(c, s[0].children@, m);
        lemma_search_min_size(c, s.drop_first(), m);
    }
}

} // verus!
