//! Two panes side by side and the flags a front end toggles. Every
//! directory read is handed in by the caller, as the pane operations ask.
use crate::errors::{IoError, NavigationError};
use crate::item::FileItem;
use crate::pane::Pane;
use vstd::prelude::*;
use vstd::string::*;

verus! {

/// The colour scheme a front end draws with; the engine only names them.
#[derive(Clone, Copy, Debug, PartialEq, Eq, Structural)]
pub enum Theme {
    Dark,
    Light,
    Dracula,
    Nord,
    Monokai,
    SolarizedDark,
}

impl Theme {
    /// The scheme's display name.
    pub fn name(&self) -> (r: &'static str)
        ensures
            r@ == match self {
                Theme::Dark => "Dark (Default)"@,
                Theme::Light => "Light"@,
                Theme::Dracula => "Dracula"@,
                Theme::Nord => "Nord"@,
                Theme::Monokai => "Monokai"@,
                Theme::SolarizedDark => "Solarized Dark"@,
            },
    {
        match self {
            Theme::Dark => "Dark (Default)",
            Theme::Light => "Light",
            Theme::Dracula => "Dracula",
            Theme::Nord => "Nord",
            Theme::Monokai => "Monokai",
            Theme::SolarizedDark => "Solarized Dark",
        }
    }

    /// Every scheme, in presentation order.
    pub fn all() -> (r: Vec<Theme>)
        ensures
            r@ == seq![
                Theme::Dark,
                Theme::Light,
                Theme::Dracula,
                Theme::Nord,
                Theme::Monokai,
                Theme::SolarizedDark,
            ],
    {
        let mut v: Vec<Theme> = Vec::new();
        v.push(Theme::Dark);
        v.push(Theme::Light);
        v.push(Theme::Dracula);
        v.push(Theme::Nord);
        v.push(Theme::Monokai);
        v.push(Theme::SolarizedDark);
        proof {
            assert(v@ =~= seq![
                Theme::Dark,
                Theme::Light,
                Theme::Dracula,
                Theme::Nord,
                Theme::Monokai,
                Theme::SolarizedDark,
            ]);
        }
        v
    }
}

/// The whole engine state of one session: two independent panes, which of
/// them is active, and the front end's toggles.
pub struct App {
    pub left_pane: Pane,
    pub right_pane: Pane,
    pub active_pane: usize,
    pub should_quit: bool,
    pub show_mounts: bool,
    pub show_preview: bool,
}

impl App {
    /// Both panes are well-formed.
    pub open spec fn wf(self) -> bool {
        &&& self.left_pane.wf()
        &&& self.right_pane.wf()
    }

    /// The flags and the active-pane choice of `post` are those of `pre`.
    pub open spec fn same_flags(pre: App, post: App) -> bool {
        &&& post.active_pane == pre.active_pane
        &&& post.should_quit == pre.should_quit
        &&& post.show_mounts == pre.show_mounts
        &&& post.show_preview == pre.show_preview
    }

    /// Two fresh panes over `start_dir`, listed from the two handed-in
    /// reads, the left pane active, every toggle off. Either failed read
    /// fails the whole call with its error, the left one first.
    pub fn new(
        start_dir: String,
        left_listing: Result<Vec<FileItem>, IoError>,
        right_listing: Result<Vec<FileItem>, IoError>,
    ) -> (r: Result<App, IoError>)
        requires
            match left_listing {
                Ok(children) => Pane::no_marker(children@),
                Err(_) => true,
            },
            match right_listing {
                Ok(children) => Pane::no_marker(children@),
                Err(_) => true,
            },
        ensures
            match (left_listing, right_listing) {
                (Ok(lc), Ok(rc)) => match r {
                    Ok(app) => {
                        &&& Pane::is_fresh(app.left_pane, start_dir@, lc@)
                        &&& Pane::is_fresh(app.right_pane, start_dir@, rc@)
                        &&& app.active_pane == 0
                        &&& !app.should_quit
                        &&& !app.show_mounts
                        &&& !app.show_preview
                    },
                    Err(_) => false,
                },
                (Err(e), _) => r == Err::<App, IoError>(e),
                (Ok(_), Err(e)) => r == Err::<App, IoError>(e),
            },
    {
        let left_pane = match Pane::new(start_dir.clone(), left_listing) {
            Ok(p) => p,
            Err(e) => {
                return Err(e);
            },
        };
        let right_pane = match Pane::new(start_dir, right_listing) {
            Ok(p) => p,
            Err(e) => {
                return Err(e);
            },
        };
        Ok(
            App {
                left_pane,
                right_pane,
                active_pane: 0,
                should_quit: false,
                show_mounts: false,
                show_preview: false,
            },
        )
    }

    /// The pane keyboard input goes to.
    pub fn get_active_pane(&self) -> (r: &Pane)
        ensures
            *r == if self.active_pane == 0 {
                self.left_pane
            } else {
                self.right_pane
            },
    {
        if self.active_pane == 0 {
            &self.left_pane
        } else {
            &self.right_pane
        }
    }

    /// The pane keyboard input goes to, for mutation; the other pane and the
    /// flags stay as they were.
    pub fn get_active_pane_mut(&mut self) -> (r: &mut Pane)
        ensures
            *r == if old(self).active_pane == 0 {
                old(self).left_pane
            } else {
                old(self).right_pane
            },
            old(self).active_pane == 0 ==> final(self).left_pane == *final(r) && final(self).right_pane == old(self).right_pane,
            old(self).active_pane != 0 ==> final(self).right_pane == *final(r) && final(self).left_pane == old(self).left_pane,
            App::same_flags(*old(self), *final(self)),
    {
        if self.active_pane == 0 {
            &mut self.left_pane
        } else {
            &mut self.right_pane
        }
    }

    /// Hands keyboard focus to the other pane.
    pub fn switch_pane(&mut self)
        ensures
            final(self).active_pane == if old(self).active_pane == 0 {
                1int
            } else {
                0int
            },
            final(self).left_pane == old(self).left_pane,
            final(self).right_pane == old(self).right_pane,
            final(self).should_quit == old(self).should_quit,
            final(self).show_mounts == old(self).show_mounts,
            final(self).show_preview == old(self).show_preview,
    {
        self.active_pane = if self.active_pane == 0 {
            1
        } else {
            0
        };
    }

    /// Shows or hides the mount-point overlay.
    pub fn toggle_mounts(&mut self)
        ensures
            final(self).show_mounts == !old(self).show_mounts,
            final(self).left_pane == old(self).left_pane,
            final(self).right_pane == old(self).right_pane,
            final(self).active_pane == old(self).active_pane,
            final(self).should_quit == old(self).should_quit,
            final(self).show_preview == old(self).show_preview,
    {
        self.show_mounts = !self.show_mounts;
    }

    /// Shows or hides the preview panel.
    pub fn toggle_preview(&mut self)
        ensures
            final(self).show_preview == !old(self).show_preview,
            final(self).left_pane == old(self).left_pane,
            final(self).right_pane == old(self).right_pane,
            final(self).active_pane == old(self).active_pane,
            final(self).should_quit == old(self).should_quit,
            final(self).show_mounts == old(self).show_mounts,
    {
        self.show_preview = !self.show_preview;
    }

    /// Asks the front end to leave its event loop.
    pub fn quit(&mut self)
        ensures
            final(self).should_quit,
            final(self).left_pane == old(self).left_pane,
            final(self).right_pane == old(self).right_pane,
            final(self).active_pane == old(self).active_pane,
            final(self).show_mounts == old(self).show_mounts,
            final(self).show_preview == old(self).show_preview,
    {
        self.should_quit = true;
    }

    /// Moves the active pane's cursor one row up, dropping its selection.
    pub fn move_up(&mut self)
        requires
            old(self).wf(),
        ensures
            final(self).wf(),
            App::same_flags(*old(self), *final(self)),
            old(self).active_pane == 0 ==> Pane::moved_up(old(self).left_pane, final(self).left_pane)
                && final(self).right_pane == old(self).right_pane,
            old(self).active_pane != 0 ==> Pane::moved_up(
                old(self).right_pane,
                final(self).right_pane,
            ) && final(self).left_pane == old(self).left_pane,
    {
        self.get_active_pane_mut().move_up();
    }

    /// Moves the active pane's cursor one row down, dropping its selection.
    pub fn move_down(&mut self)
        requires
            old(self).wf(),
        ensures
            final(self).wf(),
            App::same_flags(*old(self), *final(self)),
            old(self).active_pane == 0 ==> Pane::moved_down(
                old(self).left_pane,
                final(self).left_pane,
            ) && final(self).right_pane == old(self).right_pane,
            old(self).active_pane != 0 ==> Pane::moved_down(
                old(self).right_pane,
                final(self).right_pane,
            ) && final(self).left_pane == old(self).left_pane,
    {
        self.get_active_pane_mut().move_down();
    }

    /// Enters the entry selected in the active pane, as the pane's own
    /// `enter_directory` says; the other pane and the flags stay as they
    /// were.
    pub fn enter_directory(
        &mut self,
        resolved: Option<String>,
        listing: Result<Vec<FileItem>, IoError>,
    ) -> (r: Result<(), NavigationError>)
        requires
            old(self).wf(),
            match listing {
                Ok(children) => Pane::no_marker(children@),
                Err(_) => true,
            },
        ensures
            final(self).wf(),
            App::same_flags(*old(self), *final(self)),
            old(self).active_pane == 0 ==> Pane::enter_outcome(
                old(self).left_pane,
                final(self).left_pane,
                resolved,
                listing,
                r,
            ) && final(self).right_pane == old(self).right_pane,
            old(self).active_pane != 0 ==> Pane::enter_outcome(
                old(self).right_pane,
                final(self).right_pane,
                resolved,
                listing,
                r,
            ) && final(self).left_pane == old(self).left_pane,
    {
        self.get_active_pane_mut().enter_directory(resolved, listing)
    }

    /// Re-lists both panes from the two handed-in reads, the left one first;
    /// the first failure is handed back, leaving that pane and everything
    /// after it untouched.
    pub fn refresh(
        &mut self,
        left_listing: Result<Vec<FileItem>, IoError>,
        right_listing: Result<Vec<FileItem>, IoError>,
    ) -> (r: Result<(), IoError>)
        requires
            old(self).wf(),
            match left_listing {
                Ok(children) => Pane::no_marker(children@),
                Err(_) => true,
            },
            match right_listing {
                Ok(children) => Pane::no_marker(children@),
                Err(_) => true,
            },
        ensures
            final(self).wf(),
            App::same_flags(*old(self), *final(self)),
            match left_listing {
                Err(e) => r == Err::<(), IoError>(e) && final(self).left_pane == old(self).left_pane && final(self).right_pane == old(self).right_pane,
                Ok(lc) => {
                    &&& Pane::refresh_outcome(
                        old(self).left_pane,
                        final(self).left_pane,
                        left_listing,
                        Ok(()),
                    )
                    &&& Pane::refresh_outcome(
                        old(self).right_pane,
                        final(self).right_pane,
                        right_listing,
                        r,
                    )
                },
            },
    {
        match self.left_pane.refresh(left_listing) {
            Ok(_) => {},
            Err(e) => {
                return Err(e);
            },
        }
        self.right_pane.refresh(right_listing)
    }

    /// Scrolls both panes to keep their cursors inside a viewport of
    /// `viewport_height` rows.
    pub fn update_scroll(&mut self, viewport_height: usize)
        requires
            old(self).wf(),
            viewport_height >= 1,
        ensures
            final(self).wf(),
            App::same_flags(*old(self), *final(self)),
    {
        self.left_pane.update_scroll(viewport_height);
        self.right_pane.update_scroll(viewport_height);
    }
}

} // verus!
