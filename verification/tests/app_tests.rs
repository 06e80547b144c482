use dual_pane_fm::app::{App, Theme};
use dual_pane_fm::bookmarks::BookmarkManager;
use dual_pane_fm::errors::IoError;
use dual_pane_fm::item::FileItem;
use dual_pane_fm::path::{join_path, parent_dir_of};

fn entry(name: &str, dir: bool) -> FileItem {
    FileItem {
        name: name.to_string(),
        path: format!("/start/{}", name),
        is_dir: dir,
        size: 0,
        modified: 0,
        git_status: None,
    }
}

fn fresh_app() -> App {
    App::new(
        "/start".to_string(),
        Ok(vec![entry("a", true), entry("b", false)]),
        Ok(vec![entry("c", false)]),
    )
    .unwrap()
}

#[test]
fn new_app_starts_on_the_left_pane() {
    let app = fresh_app();
    assert_eq!(app.active_pane, 0);
    assert!(!app.should_quit && !app.show_mounts && !app.show_preview);
    assert_eq!(app.left_pane.current_path, "/start");
    assert_eq!(app.right_pane.current_path, "/start");
    assert_eq!(app.left_pane.items.len(), 3);
    assert_eq!(app.right_pane.items.len(), 2);
}

#[test]
fn new_app_fails_on_a_failed_listing() {
    let e = IoError {
        path: "/start".to_string(),
        cause: "denied".to_string(),
    };
    let r = App::new("/start".to_string(), Err(e), Ok(Vec::new()));
    assert!(r.is_err());
}

#[test]
fn switching_panes_redirects_input() {
    let mut app = fresh_app();
    app.move_down();
    assert_eq!(app.left_pane.selected_index, 1);
    assert_eq!(app.right_pane.selected_index, 0);
    app.switch_pane();
    assert_eq!(app.active_pane, 1);
    app.move_down();
    assert_eq!(app.left_pane.selected_index, 1);
    assert_eq!(app.right_pane.selected_index, 1);
    app.move_up();
    assert_eq!(app.right_pane.selected_index, 0);
    assert_eq!(app.get_active_pane().current_path, "/start");
}

#[test]
fn toggles_flip_their_flags() {
    let mut app = fresh_app();
    app.toggle_mounts();
    assert!(app.show_mounts);
    app.toggle_mounts();
    assert!(!app.show_mounts);
    app.toggle_preview();
    assert!(app.show_preview);
    app.quit();
    assert!(app.should_quit);
}

#[test]
fn app_refresh_reaches_both_panes() {
    let mut app = fresh_app();
    app.refresh(Ok(vec![entry("x", false)]), Ok(Vec::new())).unwrap();
    assert_eq!(app.left_pane.items.len(), 2);
    assert_eq!(app.right_pane.items.len(), 1);
}

#[test]
fn theme_names_and_order() {
    let all = Theme::all();
    assert_eq!(all.len(), 6);
    assert_eq!(all[0], Theme::Dark);
    assert_eq!(Theme::Dark.name(), "Dark (Default)");
    assert_eq!(Theme::SolarizedDark.name(), "Solarized Dark");
    assert_eq!(Theme::Nord.name(), "Nord");
}

#[test]
fn bookmarks_dedupe_by_path() {
    let mut mgr = BookmarkManager::new();
    assert!(mgr.add_bookmark("Home".to_string(), "/home/u".to_string(), "H".to_string()));
    assert!(mgr.add_bookmark("Docs".to_string(), "/home/u/docs".to_string(), "D".to_string()));
    assert!(!mgr.add_bookmark("Again".to_string(), "/home/u".to_string(), "A".to_string()));
    assert_eq!(mgr.get_bookmarks().len(), 2);
    assert_eq!(mgr.get_bookmarks()[0].name, "Home");
    assert!(mgr.remove_bookmark(0));
    assert_eq!(mgr.get_bookmarks().len(), 1);
    assert_eq!(mgr.get_bookmarks()[0].name, "Docs");
    assert!(!mgr.remove_bookmark(5));
}

#[test]
fn path_helpers_follow_the_separator() {
    assert_eq!(parent_dir_of("/a/b/c"), Some("/a/b".to_string()));
    assert_eq!(parent_dir_of("/a"), Some("/".to_string()));
    assert_eq!(parent_dir_of("/"), None);
    assert_eq!(parent_dir_of("plain"), None);
    assert_eq!(join_path("/a/b", "c"), "/a/b/c");
    assert_eq!(join_path("/", "c"), "/c");
}
