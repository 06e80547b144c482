//! One browsing session: current listing, cursor, sort settings, bounded
//! navigation history, and a contiguous multi-selection.
//!
//! Every operation that needs a directory's contents takes the result of that
//! read as an argument: the caller lists the pane's target path and hands the
//! outcome in. On a failed read the pane is left exactly as it was.
use crate::errors::{IoError, NavigationError};
use crate::item::{is_parent_name, parent_marker, FileItem};
use crate::listing::{
    assemble_listing, default_order, is_listing_of, lemma_perm_contains, lemma_sel_sort_of_sorted,
    lemma_sel_sort_props, sort_entries, SortBy, SortOrder,
};
use crate::path::{has_parent, parent_dir_of, path_has_parent};
use vstd::prelude::*;
use vstd::string::*;

verus! {

/// Most entries a navigation history keeps; the oldest entry leaves first.
pub const HISTORY_LIMIT: usize = 50;

/// One independent directory-browsing session.
pub struct Pane {
    pub current_path: String,
    pub items: Vec<FileItem>,
    pub selected_index: usize,
    pub scroll_offset: usize,
    pub sort_by: SortBy,
    pub sort_order: SortOrder,
    pub filter_text: String,
    pub history: Vec<String>,
    pub history_index: usize,
    pub git_repo_path: Option<String>,
    pub selected_items: Vec<usize>,
    pub selection_anchor: Option<usize>,
}

/// The paths a history holds, as character sequences.
pub open spec fn hist_model(h: Seq<String>) -> Seq<Seq<char>> {
    h.map_values(|s: String| s@)
}

impl Pane {
    /// What every operation preserves: a non-empty bounded history whose
    /// cursor sits on the current path, and a cursor that indexes the listing
    /// whenever the listing is not empty.
    pub open spec fn wf(self) -> bool {
        &&& 1 <= self.history@.len() <= HISTORY_LIMIT
        &&& self.history_index < self.history@.len()
        &&& self.history@[self.history_index as int]@ == self.current_path@
        &&& (self.items@.len() == 0 ==> self.selected_index == 0)
        &&& (self.items@.len() > 0 ==> self.selected_index < self.items@.len())
    }

    /// The sort settings, filter, repository root, and selection of `post`
    /// are those of `pre`.
    pub open spec fn same_settings(pre: Pane, post: Pane) -> bool {
        &&& post.sort_by == pre.sort_by
        &&& post.sort_order == pre.sort_order
        &&& post.filter_text == pre.filter_text
        &&& post.git_repo_path == pre.git_repo_path
    }

    /// The selection of `post` is that of `pre`.
    pub open spec fn same_selection(pre: Pane, post: Pane) -> bool {
        &&& post.selected_items == pre.selected_items
        &&& post.selection_anchor == pre.selection_anchor
    }

    /// What a successful re-listing leaves behind: the entries are the sorted
    /// children, the parent marker in front exactly when the current path has
    /// a parent, and the cursor clamped into range.
    pub open spec fn refresh_ok(pre: Pane, post: Pane, children: Seq<FileItem>) -> bool {
        &&& post.current_path == pre.current_path
        &&& Pane::same_settings(pre, post)
        &&& Pane::same_selection(pre, post)
        &&& post.history == pre.history
        &&& post.history_index == pre.history_index
        &&& post.scroll_offset == pre.scroll_offset
        &&& is_listing_of(
            post.items@,
            default_order(children),
            pre.sort_by,
            pre.sort_order,
            has_parent(pre.current_path@),
        )
        &&& post.selected_index == if post.items@.len() == 0 {
            0int
        } else if pre.selected_index < post.items@.len() {
            pre.selected_index as int
        } else {
            post.items@.len() - 1
        }
    }

    /// The history after visiting `p`: anything ahead of the cursor is
    /// dropped, `p` is appended unless it already ends the history, and the
    /// oldest entry leaves when the limit is passed.
    pub open spec fn history_after(h: Seq<Seq<char>>, idx: int, p: Seq<char>) -> Seq<Seq<char>> {
        let cut = h.take(idx + 1);
        if cut.len() > 0 && cut.last() == p {
            cut
        } else {
            let pushed = cut.push(p);
            if pushed.len() > HISTORY_LIMIT {
                pushed.drop_first()
            } else {
                pushed
            }
        }
    }

    /// What a successful navigation leaves behind: the target is current, its
    /// listing stands sorted with the cursor and scroll reset, and the target
    /// ends the history with the history cursor on it.
    pub open spec fn nav_ok(pre: Pane, post: Pane, path: Seq<char>, children: Seq<FileItem>) -> bool {
        &&& post.current_path@ == path
        &&& Pane::same_settings(pre, post)
        &&& Pane::same_selection(pre, post)
        &&& is_listing_of(
            post.items@,
            default_order(children),
            pre.sort_by,
            pre.sort_order,
            has_parent(path),
        )
        &&& post.selected_index == 0
        &&& post.scroll_offset == 0
        &&& hist_model(post.history@) == Pane::history_after(
            hist_model(pre.history@),
            pre.history_index as int,
            path,
        )
        &&& post.history_index == post.history@.len() - 1
    }

    /// No entry of the listing is the parent marker by name.
    pub open spec fn no_marker(children: Seq<FileItem>) -> bool {
        forall|i: int| 0 <= i < children.len() ==> children[i]@.name != ".."@
    }

    /// A freshly created pane at `path`: default settings, nothing selected,
    /// a history of that one path, and the sorted listing of `children`.
    pub open spec fn is_fresh(p: Pane, path: Seq<char>, children: Seq<FileItem>) -> bool {
        &&& p.wf()
        &&& p.current_path@ == path
        &&& p.sort_by == SortBy::Name
        &&& p.sort_order == SortOrder::Ascending
        &&& p.filter_text@.len() == 0
        &&& p.git_repo_path is None
        &&& p.selected_items@.len() == 0
        &&& p.selection_anchor is None
        &&& p.scroll_offset == 0
        &&& hist_model(p.history@) == seq![path]
        &&& p.history_index == 0
        &&& is_listing_of(p.items@, children, SortBy::Name, SortOrder::Ascending, has_parent(path))
        &&& p.selected_index == 0
    }

    /// A freshly listed pane at `path`: default sort, empty filter, a history
    /// of that one path. Fails only when the listing failed, handing that
    /// error back.
    pub fn new(path: String, listing: Result<Vec<FileItem>, IoError>) -> (r: Result<
        Pane,
        IoError,
    >)
        requires
            match listing {
                Ok(children) => Pane::no_marker(children@),
                Err(_) => true,
            },
        ensures
            match listing {
                Ok(children) => match r {
                    Ok(p) => Pane::is_fresh(p, path@, children@),
                    Err(_) => false,
                },
                Err(e) => r == Err::<Pane, IoError>(e),
            },
    {
        let mut history: Vec<String> = Vec::new();
        history.push(path.clone());
        let mut pane = Pane {
            current_path: path,
            items: Vec::new(),
            selected_index: 0,
            scroll_offset: 0,
            sort_by: SortBy::Name,
            sort_order: SortOrder::Ascending,
            filter_text: String::new(),
            history,
            history_index: 0,
            git_repo_path: None,
            selected_items: Vec::new(),
            selection_anchor: None,
        };
        proof {
            assert(hist_model(pane.history@) =~= seq![path@]);
        }
        let ghost cs = match &listing {
            Ok(children) => children@,
            Err(_) => Seq::<FileItem>::empty(),
        };
        match pane.refresh(listing) {
            Ok(_) => {
                proof {
                    lemma_sel_sort_props(cs, SortBy::Name, SortOrder::Ascending);
                    lemma_sel_sort_of_sorted(default_order(cs), SortBy::Name, SortOrder::Ascending);
                }
                Ok(pane)
            },
            Err(e) => Err(e),
        }
    }

    /// The whole outcome of a `refresh` call: on a good read the entries are
    /// replaced as `refresh_ok` says, the parent marker standing in front
    /// exactly when the current path has a parent; on a failed read the pane
    /// is untouched and the error handed back.
    pub open spec fn refresh_outcome(
        pre: Pane,
        post: Pane,
        listing: Result<Vec<FileItem>, IoError>,
        r: Result<(), IoError>,
    ) -> bool {
        match listing {
            Ok(children) => {
                &&& r is Ok
                &&& Pane::refresh_ok(pre, post, children@)
                &&& (has_parent(pre.current_path@) ==> post.items@.len() > 0 && post.items@[0]@
                    == parent_marker())
                &&& (!has_parent(pre.current_path@) ==> Pane::no_marker(post.items@))
            },
            Err(e) => r == Err::<(), IoError>(e) && post == pre,
        }
    }

    /// Re-lists the current path from the handed-in read. On success the
    /// entries are replaced as `refresh_ok` says; on failure the pane is
    /// left untouched and the error handed back.
    pub fn refresh(&mut self, listing: Result<Vec<FileItem>, IoError>) -> (r: Result<(), IoError>)
        requires
            match listing {
                Ok(children) => Pane::no_marker(children@),
                Err(_) => true,
            },
        ensures
            old(self).wf() ==> final(self).wf(),
            Pane::refresh_outcome(*old(self), *final(self), listing, r),
    {
        match listing {
            Err(e) => Err(e),
            Ok(children) => {
                let ghost cs = children@;
                let with_parent = path_has_parent(self.current_path.as_str());
                let listed = sort_entries(children, SortBy::Name, SortOrder::Ascending);
                let assembled = assemble_listing(listed, self.sort_by, self.sort_order, with_parent);
                self.items = assembled;
                if self.items.len() == 0 {
                    self.selected_index = 0;
                } else if self.selected_index >= self.items.len() {
                    self.selected_index = self.items.len() - 1;
                }
                proof {
                    if !has_parent(self.current_path@) {
                        assert(self.items@.to_multiset() == cs.to_multiset());
                        lemma_perm_contains(self.items@, cs);
                        assert forall|i: int|
                            0 <= i < self.items@.len() implies self.items@[i]@.name != ".."@ by {
                            assert(cs.contains(self.items@[i]));
                            let w = choose|j: int| 0 <= j < cs.len() && cs[j] == self.items@[i];
                            assert(cs[w]@.name != ".."@);
                        }
                    }
                }
                Ok(())
            },
        }
    }

    /// Makes `path` current and lists it from the handed-in read, recording
    /// the visit in the history as `nav_ok` says. On a failed read nothing
    /// changes and the error is handed back.
    pub fn navigate_to(&mut self, path: String, listing: Result<Vec<FileItem>, IoError>) -> (r:
        Result<(), IoError>)
        requires
            old(self).wf(),
            match listing {
                Ok(children) => Pane::no_marker(children@),
                Err(_) => true,
            },
        ensures
            final(self).wf(),
            match listing {
                Ok(children) => r is Ok && Pane::nav_ok(*old(self), *final(self), path@, children@),
                Err(e) => r == Err::<(), IoError>(e) && *final(self) == *old(self),
            },
    {
        match listing {
            Err(e) => Err(e),
            Ok(children) => {
                let ghost pre = *self;
                let ghost h0 = hist_model(self.history@);
                self.current_path = path.clone();
                let rr = self.refresh(Ok(children));
                assert(rr is Ok);
                self.selected_index = 0;
                self.scroll_offset = 0;
                // Drop anything ahead of the history cursor.
                self.history.truncate(self.history_index + 1);
                proof {
                    assert(hist_model(self.history@) =~= h0.take(pre.history_index + 1));
                }
                let ghost cut = hist_model(self.history@);
                let hlen = self.history.len();
                let same = self.history[hlen - 1].eq(&path);
                if !same {
                    self.history.push(path);
                    proof {
                        assert(hist_model(self.history@) =~= cut.push(path@));
                    }
                    if self.history.len() > HISTORY_LIMIT {
                        self.history.remove(0);
                        proof {
                            assert(hist_model(self.history@) =~= cut.push(path@).drop_first());
                        }
                    }
                    self.history_index = self.history.len() - 1;
                } else {
                    proof {
                        assert(cut.last() == path@);
                        assert(hist_model(self.history@) =~= Pane::history_after(
                            h0,
                            pre.history_index as int,
                            path@,
                        ));
                    }
                }
                proof {
                    assert(hist_model(self.history@) =~= Pane::history_after(
                        h0,
                        pre.history_index as int,
                        path@,
                    ));
                }
                Ok(())
            },
        }
    }

    /// A step back through the history is possible.
    pub fn can_go_back(&self) -> (r: bool)
        ensures
            r == (self.history_index > 0),
    {
        self.history_index > 0
    }

    /// A step forward through the history is possible.
    pub fn can_go_forward(&self) -> (r: bool)
        ensures
            r == (self.history_index + 1 < self.history@.len()),
    {
        let len = self.history.len();
        len > 0 && self.history_index < len - 1
    }

    /// The path one step back in the history, if there is one: what a caller
    /// lists before asking for `navigate_back`.
    pub fn back_target(&self) -> (r: Option<String>)
        requires
            self.wf(),
        ensures
            match r {
                Some(p) => self.history_index > 0 && p@ == hist_model(self.history@)[
                    self.history_index - 1
                ],
                None => self.history_index == 0,
            },
    {
        if self.history_index > 0 {
            Some(self.history[self.history_index - 1].clone())
        } else {
            None
        }
    }

    /// The path one step forward in the history, if there is one.
    pub fn forward_target(&self) -> (r: Option<String>)
        requires
            self.wf(),
        ensures
            match r {
                Some(p) => self.history_index + 1 < self.history@.len() && p@ == hist_model(
                    self.history@,
                )[self.history_index + 1],
                None => self.history_index + 1 >= self.history@.len(),
            },
    {
        if self.history_index + 1 < self.history.len() {
            Some(self.history[self.history_index + 1].clone())
        } else {
            None
        }
    }

    /// What stepping through the history to position `idx` leaves behind:
    /// the history itself untouched, its cursor on `idx`, that path current
    /// and listed, cursor and scroll reset.
    pub open spec fn step_ok(pre: Pane, post: Pane, idx: int, children: Seq<FileItem>) -> bool {
        &&& post.history == pre.history
        &&& post.history_index == idx
        &&& post.current_path@ == hist_model(pre.history@)[idx]
        &&& Pane::same_settings(pre, post)
        &&& Pane::same_selection(pre, post)
        &&& is_listing_of(
            post.items@,
            default_order(children),
            pre.sort_by,
            pre.sort_order,
            has_parent(post.current_path@),
        )
        &&& post.selected_index == 0
        &&& post.scroll_offset == 0
    }

    /// Steps one entry back in the history and lists that path from the
    /// handed-in read. At the boundary nothing changes and success is
    /// returned; on a failed read nothing changes and the error is handed
    /// back.
    pub fn navigate_back(&mut self, listing: Result<Vec<FileItem>, IoError>) -> (r: Result<
        (),
        IoError,
    >)
        requires
            old(self).wf(),
            match listing {
                Ok(children) => Pane::no_marker(children@),
                Err(_) => true,
            },
        ensures
            final(self).wf(),
            old(self).history_index == 0 ==> r is Ok && *final(self) == *old(self),
            old(self).history_index > 0 ==> match listing {
                Ok(children) => r is Ok && Pane::step_ok(
                    *old(self),
                    *final(self),
                    old(self).history_index - 1,
                    children@,
                ),
                Err(e) => r == Err::<(), IoError>(e) && *final(self) == *old(self),
            },
    {
        if self.history_index == 0 {
            return Ok(());
        }
        self.step_to(self.history_index - 1, listing)
    }

    /// Steps one entry forward in the history and lists that path from the
    /// handed-in read; the boundary and failure cases are as in
    /// `navigate_back`.
    pub fn navigate_forward(&mut self, listing: Result<Vec<FileItem>, IoError>) -> (r: Result<
        (),
        IoError,
    >)
        requires
            old(self).wf(),
            match listing {
                Ok(children) => Pane::no_marker(children@),
                Err(_) => true,
            },
        ensures
            final(self).wf(),
            old(self).history_index + 1 >= old(self).history@.len() ==> r is Ok && *final(self)
                == *old(self),
            old(self).history_index + 1 < old(self).history@.len() ==> match listing {
                Ok(children) => r is Ok && Pane::step_ok(
                    *old(self),
                    *final(self),
                    old(self).history_index + 1,
                    children@,
                ),
                Err(e) => r == Err::<(), IoError>(e) && *final(self) == *old(self),
            },
    {
        if self.history_index + 1 >= self.history.len() {
            return Ok(());
        }
        self.step_to(self.history_index + 1, listing)
    }

    /// Moves the history cursor to `idx` and lists that path.
    fn step_to(&mut self, idx: usize, listing: Result<Vec<FileItem>, IoError>) -> (r: Result<
        (),
        IoError,
    >)
        requires
            old(self).wf(),
            idx < old(self).history@.len(),
            match listing {
                Ok(children) => Pane::no_marker(children@),
                Err(_) => true,
            },
        ensures
            final(self).wf(),
            match listing {
                Ok(children) => r is Ok && Pane::step_ok(
                    *old(self),
                    *final(self),
                    idx as int,
                    children@,
                ),
                Err(e) => r == Err::<(), IoError>(e) && *final(self) == *old(self),
            },
    {
        match listing {
            Err(e) => Err(e),
            Ok(children) => {
                self.history_index = idx;
                self.current_path = self.history[idx].clone();
                let rr = self.refresh(Ok(children));
                assert(rr is Ok);
                self.selected_index = 0;
                self.scroll_offset = 0;
                Ok(())
            },
        }
    }

    /// The path entering the selected entry would lead to: the parent of the
    /// current path for the parent marker (the current path itself at the
    /// root), the entry's own path for another directory, nothing for a file
    /// or an empty listing.
    pub open spec fn enter_target_spec(self) -> Option<Seq<char>> {
        if self.selected_index < self.items@.len() && self.items@[
            self.selected_index as int
        ]@.is_dir {
            let it = self.items@[self.selected_index as int]@;
            if it.name == ".."@ {
                match crate::path::parent_of(self.current_path@) {
                    Some(par) => Some(par),
                    None => Some(self.current_path@),
                }
            } else {
                Some(it.path)
            }
        } else {
            None
        }
    }

    /// Computes the path entering the selected entry would lead to, as
    /// `enter_target_spec` says.
    pub fn enter_target(&self) -> (r: Option<String>)
        ensures
            match r {
                Some(p) => self.enter_target_spec() == Some(p@),
                None => self.enter_target_spec() is None,
            },
    {
        if self.selected_index >= self.items.len() {
            return None;
        }
        let item = &self.items[self.selected_index];
        if !item.is_dir {
            return None;
        }
        if crate::item::is_parent_name(&item.name) {
            match parent_dir_of(self.current_path.as_str()) {
                Some(par) => Some(par),
                None => Some(self.current_path.clone()),
            }
        } else {
            Some(item.path.clone())
        }
    }

    /// The whole outcome of entering the selected entry: a no-op for a
    /// non-directory, `InvalidPath` where resolution failed, the listing's
    /// error where the read failed, and otherwise a navigation to the
    /// resolved path; on every failure the pane is untouched.
    pub open spec fn enter_outcome(
        pre: Pane,
        post: Pane,
        resolved: Option<String>,
        listing: Result<Vec<FileItem>, IoError>,
        r: Result<(), NavigationError>,
    ) -> bool {
        &&& (pre.enter_target_spec() is None ==> r is Ok && post == pre)
        &&& (pre.enter_target_spec() is Some ==> match resolved {
            None => r == Err::<(), NavigationError>(NavigationError::InvalidPath) && post == pre,
            Some(p) => match listing {
                Ok(children) => r is Ok && Pane::nav_ok(pre, post, p@, children@),
                Err(e) => r == Err::<(), NavigationError>(NavigationError::Io(e)) && post == pre,
            },
        })
    }

    /// Enters the selected entry: a directory is navigated to through its
    /// resolved canonical path (which the caller supplies, `None` where
    /// resolution failed), anything else is a no-op. On any failure the pane
    /// is left untouched.
    pub fn enter_directory(
        &mut self,
        resolved: Option<String>,
        listing: Result<Vec<FileItem>, IoError>,
    ) -> (r: Result<(), NavigationError>)
        requires
            old(self).wf(),
            match listing {
                Ok(children) => Pane::no_marker(children@),
                Err(_) => true,
            },
        ensures
            final(self).wf(),
            Pane::enter_outcome(*old(self), *final(self), resolved, listing, r),
    {
        let target = self.enter_target();
        if target.is_none() {
            return Ok(());
        }
        match resolved {
            None => Err(NavigationError::InvalidPath),
            Some(p) => match self.navigate_to(p, listing) {
                Ok(_) => Ok(()),
                Err(e) => Err(NavigationError::Io(e)),
            },
        }
    }

    /// What a plain upward cursor move leaves behind: the cursor one row up
    /// where it could go up, and no selection either way.
    pub open spec fn moved_up(pre: Pane, post: Pane) -> bool {
        &&& post.selected_index == if pre.selected_index > 0 {
            pre.selected_index - 1
        } else {
            0int
        }
        &&& post.selected_items@.len() == 0
        &&& post.selection_anchor is None
        &&& Pane::same_but_cursor_and_selection(pre, post)
    }

    /// What a plain downward cursor move leaves behind: the cursor one row
    /// down where a row was below it, and no selection either way.
    pub open spec fn moved_down(pre: Pane, post: Pane) -> bool {
        &&& post.selected_index == if pre.selected_index + 1 < pre.items@.len() {
            pre.selected_index + 1
        } else {
            pre.selected_index as int
        }
        &&& post.selected_items@.len() == 0
        &&& post.selection_anchor is None
        &&& Pane::same_but_cursor_and_selection(pre, post)
    }

    /// Moves the cursor one row up if it can go up, and drops the selection
    /// either way.
    pub fn move_up(&mut self)
        ensures
            Pane::moved_up(*old(self), *final(self)),
            old(self).wf() ==> final(self).wf(),
    {
        if self.selected_index > 0 {
            self.selected_index = self.selected_index - 1;
        }
        self.selected_items = Vec::new();
        self.selection_anchor = None;
    }

    /// Moves the cursor one row down if a row is below it, and drops the
    /// selection either way.
    pub fn move_down(&mut self)
        ensures
            Pane::moved_down(*old(self), *final(self)),
            old(self).wf() ==> final(self).wf(),
    {
        if self.items.len() > 0 && self.selected_index < self.items.len() - 1 {
            self.selected_index = self.selected_index + 1;
        }
        self.selected_items = Vec::new();
        self.selection_anchor = None;
    }

    /// Everything but the cursor, scroll, and selection of `post` is that of
    /// `pre`.
    pub open spec fn same_but_cursor_and_selection(pre: Pane, post: Pane) -> bool {
        &&& post.current_path == pre.current_path
        &&& post.items == pre.items
        &&& post.scroll_offset == pre.scroll_offset
        &&& Pane::same_settings(pre, post)
        &&& post.history == pre.history
        &&& post.history_index == pre.history_index
    }

    /// The run of indices from `lo` through `hi`.
    pub open spec fn span_seq(lo: int, hi: int) -> Seq<usize>
        recommends
            0 <= lo <= hi,
    {
        Seq::new((hi - lo + 1) as nat, |t: int| (lo + t) as usize)
    }

    /// Recomputes the contiguous selection between the anchor and the cursor;
    /// without an anchor nothing changes.
    pub fn update_selection_range(&mut self)
        ensures
            match old(self).selection_anchor {
                Some(anchor) => final(self).selected_items@ == Pane::span_seq(
                    vstd::math::min(anchor as int, old(self).selected_index as int),
                    vstd::math::max(anchor as int, old(self).selected_index as int),
                ),
                None => final(self).selected_items == old(self).selected_items,
            },
            final(self).selection_anchor == old(self).selection_anchor,
            final(self).selected_index == old(self).selected_index,
            Pane::same_but_cursor_and_selection(*old(self), *final(self)),
            old(self).wf() ==> final(self).wf(),
    {
        match self.selection_anchor {
            None => {},
            Some(anchor) => {
                let lo = if anchor < self.selected_index {
                    anchor
                } else {
                    self.selected_index
                };
                let hi = if anchor < self.selected_index {
                    self.selected_index
                } else {
                    anchor
                };
                let span = hi - lo;
                let mut sel: Vec<usize> = Vec::new();
                let mut k: usize = 0;
                while k < span
                    invariant
                        k <= span,
                        lo + span <= usize::MAX,
                        sel@.len() == k,
                        forall|t: int| 0 <= t < k ==> sel@[t] == (lo + t) as usize,
                    decreases span - k,
                {
                    sel.push(lo + k);
                    k = k + 1;
                }
                sel.push(hi);
                proof {
                    assert(sel@ =~= Pane::span_seq(lo as int, hi as int));
                }
                self.selected_items = sel;
            },
        }
    }

    /// Moves the cursor one row up, extending the selection: the anchor is
    /// planted at the cursor if none stands, and after a move the selection
    /// spans anchor to cursor.
    pub fn move_up_with_selection(&mut self)
        ensures
            final(self).selection_anchor == Some(
                match old(self).selection_anchor {
                    Some(a) => a,
                    None => old(self).selected_index,
                },
            ),
            final(self).selected_index == if old(self).selected_index > 0 {
                old(self).selected_index - 1
            } else {
                0int
            },
            old(self).selected_index > 0 ==> final(self).selected_items@ == Pane::span_seq(
                vstd::math::min(
                    final(self).selection_anchor->0 as int,
                    final(self).selected_index as int,
                ),
                vstd::math::max(
                    final(self).selection_anchor->0 as int,
                    final(self).selected_index as int,
                ),
            ),
            old(self).selected_index == 0 ==> final(self).selected_items == old(self).selected_items,
            Pane::same_but_cursor_and_selection(*old(self), *final(self)),
            old(self).wf() ==> final(self).wf(),
    {
        if self.selection_anchor.is_none() {
            self.selection_anchor = Some(self.selected_index);
        }
        if self.selected_index > 0 {
            self.selected_index = self.selected_index - 1;
            self.update_selection_range();
        }
    }

    /// Moves the cursor one row down, extending the selection, as
    /// `move_up_with_selection` does upward.
    pub fn move_down_with_selection(&mut self)
        ensures
            final(self).selection_anchor == Some(
                match old(self).selection_anchor {
                    Some(a) => a,
                    None => old(self).selected_index,
                },
            ),
            final(self).selected_index == if old(self).selected_index + 1 < old(self).items@.len() {
                old(self).selected_index + 1
            } else {
                old(self).selected_index as int
            },
            old(self).selected_index + 1 < old(self).items@.len() ==> final(self).selected_items@ == Pane::span_seq(
                vstd::math::min(
                    final(self).selection_anchor->0 as int,
                    final(self).selected_index as int,
                ),
                vstd::math::max(
                    final(self).selection_anchor->0 as int,
                    final(self).selected_index as int,
                ),
            ),
            old(self).selected_index + 1 >= old(self).items@.len() ==> final(self).selected_items
                == old(self).selected_items,
            Pane::same_but_cursor_and_selection(*old(self), *final(self)),
            old(self).wf() ==> final(self).wf(),
    {
        if self.selection_anchor.is_none() {
            self.selection_anchor = Some(self.selected_index);
        }
        if self.items.len() > 0 && self.selected_index < self.items.len() - 1 {
            self.selected_index = self.selected_index + 1;
            self.update_selection_range();
        }
    }

    /// Drops the selection: no selected rows, no anchor.
    pub fn clear_selection(&mut self)
        ensures
            final(self).selected_items@.len() == 0,
            final(self).selection_anchor is None,
            final(self).selected_index == old(self).selected_index,
            Pane::same_but_cursor_and_selection(*old(self), *final(self)),
            old(self).wf() ==> final(self).wf(),
    {
        self.selected_items = Vec::new();
        self.selection_anchor = None;
    }

    /// Whether the row at `index` lies in the multi-selection.
    pub fn is_item_selected(&self, index: usize) -> (r: bool)
        ensures
            r == self.selected_items@.contains(index),
    {
        let n = self.selected_items.len();
        let mut i: usize = 0;
        while i < n
            invariant
                i <= n,
                n == self.selected_items@.len(),
                forall|j: int| 0 <= j < i ==> self.selected_items@[j] != index,
            decreases n - i,
        {
            if self.selected_items[i] == index {
                return true;
            }
            i = i + 1;
        }
        false
    }

    /// The entry under the cursor, if the listing has one there.
    pub fn get_selected_item(&self) -> (r: Option<&FileItem>)
        ensures
            match r {
                Some(it) => self.selected_index < self.items@.len() && *it == self.items@[
                    self.selected_index as int
                ],
                None => self.selected_index >= self.items@.len(),
            },
    {
        if self.selected_index < self.items.len() {
            Some(&self.items[self.selected_index])
        } else {
            None
        }
    }

    /// The entries the rows of `idxs` point at, rows out of range skipped.
    pub open spec fn gathered(items: Seq<FileItem>, idxs: Seq<usize>) -> Seq<FileItem>
        decreases idxs.len(),
    {
        if idxs.len() == 0 {
            Seq::empty()
        } else {
            Pane::gathered(items, idxs.drop_last()) + if (idxs.last() as int) < items.len() {
                seq![items[idxs.last() as int]]
            } else {
                Seq::empty()
            }
        }
    }

    /// The selected entries: the rows of the multi-selection if one stands,
    /// else the entry under the cursor, else nothing.
    pub fn get_selected_items(&self) -> (r: Vec<&FileItem>)
        ensures
            r@.map_values(|x: &FileItem| *x) == if self.selected_items@.len() == 0 {
                if self.items@.len() > 0 && self.selected_index < self.items@.len() {
                    seq![self.items@[self.selected_index as int]]
                } else {
                    Seq::<FileItem>::empty()
                }
            } else {
                Pane::gathered(self.items@, self.selected_items@)
            },
    {
        let mut r: Vec<&FileItem> = Vec::new();
        if self.selected_items.len() == 0 {
            if self.selected_index < self.items.len() {
                r.push(&self.items[self.selected_index]);
                proof {
                    assert(r@.map_values(|x: &FileItem| *x) =~= seq![
                        self.items@[self.selected_index as int],
                    ]);
                }
            } else {
                proof {
                    assert(r@.map_values(|x: &FileItem| *x) =~= Seq::<FileItem>::empty());
                }
            }
            return r;
        }
        let n = self.selected_items.len();
        let mut i: usize = 0;
        while i < n
            invariant
                i <= n,
                n == self.selected_items@.len(),
                r@.map_values(|x: &FileItem| *x) =~= Pane::gathered(
                    self.items@,
                    self.selected_items@.take(i as int),
                ),
            decreases n - i,
        {
            proof {
                assert(self.selected_items@.take(i as int + 1).drop_last() =~= self
                    .selected_items@.take(i as int));
                assert(self.selected_items@.take(i as int + 1).last() == self.selected_items@[
                    i as int
                ]);
            }
            let idx = self.selected_items[i];
            if idx < self.items.len() {
                r.push(&self.items[idx]);
            }
            i = i + 1;
            proof {
                assert(r@.map_values(|x: &FileItem| *x) =~= Pane::gathered(
                    self.items@,
                    self.selected_items@.take(i as int),
                ));
            }
        }
        proof {
            assert(self.selected_items@.take(n as int) =~= self.selected_items@);
        }
        r
    }

    /// Index of the first entry named "..", from position `i` on; -1 if none
    /// follows.
    pub open spec fn first_marker_from(s: Seq<FileItem>, i: int) -> int
        decreases s.len() - i,
        when 0 <= i <= s.len()
    {
        if i >= s.len() {
            -1
        } else if s[i]@.name == ".."@ {
            i
        } else {
            Pane::first_marker_from(s, i + 1)
        }
    }

    /// Index of the first entry named "..", or -1 if there is none.
    pub open spec fn first_marker(s: Seq<FileItem>) -> int {
        Pane::first_marker_from(s, 0)
    }

    /// What re-sorting the entries leaves behind: without a parent marker a
    /// sorted permutation of all entries; with one, the first marker put in
    /// front and a sorted permutation of the rest behind it.
    pub open spec fn resorted(
        pre_items: Seq<FileItem>,
        post_items: Seq<FileItem>,
        sort_by: SortBy,
        order: SortOrder,
    ) -> bool {
        let fm = Pane::first_marker(pre_items);
        &&& post_items.len() == pre_items.len()
        &&& if fm == -1 {
            is_listing_of(post_items, pre_items, sort_by, order, false)
        } else {
            &&& post_items.len() > 0
            &&& post_items[0] == pre_items[fm]
            &&& post_items.skip(1) == crate::listing::sel_sort(
                pre_items.remove(fm),
                sort_by,
                order,
            )
            &&& post_items.skip(1).to_multiset() == pre_items.remove(fm).to_multiset()
            &&& crate::listing::sorted_items(post_items.skip(1), sort_by, order)
        }
    }

    /// A prefix without a marker does not change which marker is first.
    proof fn lemma_first_marker_skip(s: Seq<FileItem>, i: int)
        requires
            0 <= i <= s.len(),
            forall|j: int| 0 <= j < i ==> s[j]@.name != ".."@,
        ensures
            Pane::first_marker(s) == Pane::first_marker_from(s, i),
        decreases i,
    {
        if i > 0 {
            Pane::lemma_first_marker_skip(s, i - 1);
        }
    }

    /// Re-sorts the entries in place under the current settings, keeping the
    /// first parent marker, if one stands anywhere, in front and out of the
    /// comparison.
    pub fn apply_sort(&mut self)
        ensures
            Pane::resorted(old(self).items@, final(self).items@, old(self).sort_by, old(self).sort_order),
            final(self).selected_index == old(self).selected_index,
            final(self).scroll_offset == old(self).scroll_offset,
            final(self).current_path == old(self).current_path,
            final(self).history == old(self).history,
            final(self).history_index == old(self).history_index,
            Pane::same_settings(*old(self), *final(self)),
            Pane::same_selection(*old(self), *final(self)),
            old(self).wf() ==> final(self).wf(),
    {
        let ghost items0 = self.items@;
        let n = self.items.len();
        let mut i: usize = 0;
        while i < n && !is_parent_name(&self.items[i].name)
            invariant
                i <= n,
                n == self.items@.len(),
                self.items@ == items0,
                forall|j: int| 0 <= j < i ==> self.items@[j]@.name != ".."@,
            decreases n - i,
        {
            i = i + 1;
        }
        proof {
            Pane::lemma_first_marker_skip(items0, i as int);
        }
        if i < n {
            let m = i;
            proof {
                assert(Pane::first_marker(items0) == m);
            }
            let parent_item = self.items.remove(m);
            let mut rest: Vec<FileItem> = Vec::new();
            core::mem::swap(&mut rest, &mut self.items);
            proof {
                assert(rest@ == items0.remove(m as int));
            }
            let mut sorted = crate::listing::sort_entries(rest, self.sort_by, self.sort_order);
            let ghost s_sorted = sorted@;
            sorted.insert(0, parent_item);
            self.items = sorted;
            proof {
                assert(self.items@.skip(1) =~= s_sorted);
            }
        } else {
            proof {
                assert(Pane::first_marker(items0) == -1);
            }
            let mut rest: Vec<FileItem> = Vec::new();
            core::mem::swap(&mut rest, &mut self.items);
            self.items = crate::listing::sort_entries(rest, self.sort_by, self.sort_order);
        }
    }

    /// Chooses the sort column: the same column again turns the direction
    /// around, a new column starts ascending; then re-sorts in place.
    /// What choosing `key` does to the sort settings: the same column again
    /// turns the direction around, a new column starts ascending.
    pub open spec fn toggled_sort(pre: Pane, post: Pane, key: SortBy) -> bool {
        &&& post.sort_by == key
        &&& post.sort_order == if pre.sort_by == key {
            if pre.sort_order == SortOrder::Ascending {
                SortOrder::Descending
            } else {
                SortOrder::Ascending
            }
        } else {
            SortOrder::Ascending
        }
    }

    pub fn toggle_sort(&mut self, sort_by: SortBy)
        ensures
            Pane::toggled_sort(*old(self), *final(self), sort_by),
            Pane::resorted(
                old(self).items@,
                final(self).items@,
                final(self).sort_by,
                final(self).sort_order,
            ),
            final(self).selected_index == old(self).selected_index,
            final(self).scroll_offset == old(self).scroll_offset,
            final(self).current_path == old(self).current_path,
            final(self).history == old(self).history,
            final(self).history_index == old(self).history_index,
            final(self).filter_text == old(self).filter_text,
            final(self).git_repo_path == old(self).git_repo_path,
            Pane::same_selection(*old(self), *final(self)),
            old(self).wf() ==> final(self).wf(),
    {
        if self.sort_by == sort_by {
            self.sort_order = match self.sort_order {
                SortOrder::Ascending => SortOrder::Descending,
                SortOrder::Descending => SortOrder::Ascending,
            };
        } else {
            self.sort_by = sort_by;
            self.sort_order = SortOrder::Ascending;
        }
        self.apply_sort();
    }

    /// Stores the substring later shown entries are filtered by; the entries
    /// themselves stay untouched.
    pub fn apply_filter(&mut self, substring: String)
        ensures
            final(self).filter_text == substring,
            final(self).current_path == old(self).current_path,
            final(self).items == old(self).items,
            final(self).selected_index == old(self).selected_index,
            final(self).scroll_offset == old(self).scroll_offset,
            final(self).sort_by == old(self).sort_by,
            final(self).sort_order == old(self).sort_order,
            final(self).history == old(self).history,
            final(self).history_index == old(self).history_index,
            final(self).git_repo_path == old(self).git_repo_path,
            Pane::same_selection(*old(self), *final(self)),
            old(self).wf() ==> final(self).wf(),
    {
        self.filter_text = substring;
    }

    /// Scrolls just enough to bring the cursor into a viewport of
    /// `viewport_height` rows starting at the scroll offset.
    pub fn update_scroll(&mut self, viewport_height: usize)
        requires
            viewport_height >= 1,
        ensures
            final(self).scroll_offset == if old(self).selected_index < old(self).scroll_offset {
                old(self).selected_index as int
            } else if old(self).selected_index - old(self).scroll_offset >= viewport_height {
                old(self).selected_index - viewport_height + 1
            } else {
                old(self).scroll_offset as int
            },
            final(self).selected_index == old(self).selected_index,
            final(self).items == old(self).items,
            final(self).current_path == old(self).current_path,
            final(self).history == old(self).history,
            final(self).history_index == old(self).history_index,
            Pane::same_settings(*old(self), *final(self)),
            Pane::same_selection(*old(self), *final(self)),
            old(self).wf() ==> final(self).wf(),
    {
        if self.selected_index < self.scroll_offset {
            self.scroll_offset = self.selected_index;
        } else if self.selected_index - self.scroll_offset >= viewport_height {
            self.scroll_offset = self.selected_index - viewport_height + 1;
        }
    }
}

/// Choosing the already-active sort column twice restores the direction it
/// started with, whatever that was; in particular two `Name` toggles on a
/// pane sorted ascending by name end ascending by name.
pub proof fn lemma_toggle_same_column_twice(p0: Pane, p1: Pane, p2: Pane, key: SortBy)
    requires
        p0.sort_by == key,
        Pane::toggled_sort(p0, p1, key),
        Pane::toggled_sort(p1, p2, key),
    ensures
        p2.sort_by == p0.sort_by,
        p2.sort_order == p0.sort_order,
{
}

/// Visiting `a`, then a different `b`, then stepping back restores `a` as the
/// current path, with the entries exactly the sorted fresh listing handed to
/// the backward step. The three hypotheses are what `navigate_to` (twice)
/// and `navigate_back` guarantee, so the law holds of every such call
/// sequence on a well-formed pane.
pub proof fn lemma_navigate_back_restores(
    p0: Pane,
    p1: Pane,
    p2: Pane,
    p3: Pane,
    a: Seq<char>,
    b: Seq<char>,
    ca: Seq<FileItem>,
    cb: Seq<FileItem>,
    ca2: Seq<FileItem>,
)
    requires
        p0.wf(),
        Pane::nav_ok(p0, p1, a, ca),
        Pane::nav_ok(p1, p2, b, cb),
        a != b,
        Pane::step_ok(p2, p3, p2.history_index - 1, ca2),
    ensures
        p2.history_index > 0,
        p3.current_path@ == a,
        is_listing_of(p3.items@, default_order(ca2), p2.sort_by, p2.sort_order, has_parent(a)),
{
    let h0 = hist_model(p0.history@);
    let h1 = hist_model(p1.history@);
    let h2 = hist_model(p2.history@);
    let cut0 = h0.take(p0.history_index + 1);
    assert(h1 == Pane::history_after(h0, p0.history_index as int, a));
    assert(h1.len() >= 1 && h1.last() == a && h1.len() <= HISTORY_LIMIT) by {
        if !(cut0.len() > 0 && cut0.last() == a) {
            let pushed = cut0.push(a);
            if pushed.len() > HISTORY_LIMIT {
                assert(h1 == pushed.drop_first());
                assert(h1.last() == pushed.last());
            }
        }
    }
    let cut1 = h1.take(p1.history_index + 1);
    assert(p1.history_index == h1.len() - 1);
    assert(cut1 =~= h1);
    assert(cut1.last() == a);
    let pushed1 = h1.push(b);
    assert(h2 == Pane::history_after(h1, p1.history_index as int, b));
    assert(h2.len() >= 2 && h2[h2.len() - 2] == a) by {
        if pushed1.len() > HISTORY_LIMIT {
            assert(h2 == pushed1.drop_first());
            assert(h2[h2.len() - 2] == pushed1[pushed1.len() - 2]);
            assert(pushed1[pushed1.len() - 2] == h1.last());
        } else {
            assert(h2 == pushed1);
            assert(h2[h2.len() - 2] == h1.last());
        }
    }
    assert(p2.history_index == h2.len() - 1);
    assert(p3.current_path@ == h2[p2.history_index - 1]);
}

} // verus!
