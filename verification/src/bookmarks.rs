//! Named shortcuts to directories. The engine keeps the list and its
//! no-duplicate-paths rule; reading and writing the list on disk is the
//! caller's business.
use vstd::prelude::*;
use vstd::string::*;

verus! {

/// One shortcut: a display name, the directory it points at, and the icon
/// text shown next to it.
#[derive(Debug)]
pub struct Bookmark {
    pub name: String,
    pub path: String,
    pub icon: String,
}

impl Bookmark {
    /// A shortcut from its three parts.
    pub fn new(name: String, path: String, icon: String) -> (r: Bookmark)
        ensures
            r.name == name,
            r.path == path,
            r.icon == icon,
    {
        Bookmark { name, path, icon }
    }
}

/// Some shortcut in the list points at `p`.
pub open spec fn has_path(s: Seq<Bookmark>, p: Seq<char>) -> bool {
    exists|i: int| 0 <= i < s.len() && (#[trigger] s[i].path)@ == p
}

/// The kept list of shortcuts, no two pointing at one path.
#[derive(Debug)]
pub struct BookmarkManager {
    pub bookmarks: Vec<Bookmark>,
}

impl BookmarkManager {
    /// An empty list.
    pub fn new() -> (r: BookmarkManager)
        ensures
            r.bookmarks@.len() == 0,
    {
        BookmarkManager { bookmarks: Vec::new() }
    }

    /// Appends a shortcut unless one already points at `path`; says whether
    /// the list changed, so the caller knows to write it out.
    pub fn add_bookmark(&mut self, name: String, path: String, icon: String) -> (added: bool)
        ensures
            has_path(old(self).bookmarks@, path@) ==> !added && *final(self) == *old(self),
            !has_path(old(self).bookmarks@, path@) ==> {
                &&& added
                &&& final(self).bookmarks@.len() == old(self).bookmarks@.len() + 1
                &&& forall|i: int|
                    0 <= i < old(self).bookmarks@.len() ==> final(self).bookmarks@[i] == old(
                        self,
                    ).bookmarks@[i]
                &&& final(self).bookmarks@.last().name == name
                &&& final(self).bookmarks@.last().path == path
                &&& final(self).bookmarks@.last().icon == icon
            },
    {
        let n = self.bookmarks.len();
        let mut i: usize = 0;
        while i < n
            invariant
                i <= n,
                n == self.bookmarks@.len(),
                forall|j: int| 0 <= j < i ==> (#[trigger] self.bookmarks@[j].path)@ != path@,
            decreases n - i,
        {
            if self.bookmarks[i].path.eq(&path) {
                return false;
            }
            i = i + 1;
        }
        self.bookmarks.push(Bookmark { name, path, icon });
        true
    }

    /// Removes the shortcut at `index`, shifting the rest left; says whether
    /// anything was removed.
    pub fn remove_bookmark(&mut self, index: usize) -> (removed: bool)
        ensures
            index < old(self).bookmarks@.len() ==> removed && final(self).bookmarks@ == old(
                self,
            ).bookmarks@.remove(index as int),
            index >= old(self).bookmarks@.len() ==> !removed && *final(self) == *old(self),
    {
        if index < self.bookmarks.len() {
            self.bookmarks.remove(index);
            true
        } else {
            false
        }
    }

    /// The kept shortcuts, in order.
    pub fn get_bookmarks(&self) -> (r: &Vec<Bookmark>)
        ensures
            r == self.bookmarks,
    {
        &self.bookmarks
    }
}

} // verus!
