use dual_pane_fm::errors::{IoError, NavigationError};
use dual_pane_fm::item::FileItem;
use dual_pane_fm::listing::{SortBy, SortOrder};
use dual_pane_fm::pane::Pane;

fn entry(name: &str, dir: bool, size: u64, modified: u64) -> FileItem {
    FileItem {
        name: name.to_string(),
        path: format!("/tmp/probe/{}", name),
        is_dir: dir,
        size,
        modified,
        git_status: None,
    }
}

fn sample_children() -> Vec<FileItem> {
    vec![
        entry("banana", false, 10, 3),
        entry("Zoo", true, 0, 1),
        entry("apple", true, 0, 2),
        entry("Cherry", false, 5, 4),
    ]
}

fn make_pane(path: &str, children: Vec<FileItem>) -> Pane {
    Pane::new(path.to_string(), Ok(children)).unwrap()
}

fn io_err(path: &str) -> IoError {
    IoError {
        path: path.to_string(),
        cause: "permission denied".to_string(),
    }
}

#[test]
fn fresh_pane_has_sorted_listing_and_sentinel() {
    let pane = make_pane("/tmp/probe", sample_children());
    let names: Vec<&str> = pane.items.iter().map(|i| i.name.as_str()).collect();
    // Parent marker first, then directories by case-insensitive name, then files.
    assert_eq!(names, vec!["..", "apple", "Zoo", "banana", "Cherry"]);
    assert_eq!(pane.selected_index, 0);
    assert_eq!(pane.history, vec!["/tmp/probe".to_string()]);
    assert_eq!(pane.history_index, 0);
}

#[test]
fn no_sentinel_at_filesystem_root() {
    let pane = make_pane("/", sample_children());
    assert!(pane.items.iter().all(|i| i.name != ".."));
    assert_eq!(pane.items.len(), 4);
}

#[test]
fn empty_root_listing_keeps_cursor_at_zero() {
    let mut pane = make_pane("/", Vec::new());
    assert!(pane.items.is_empty());
    assert_eq!(pane.selected_index, 0);
    pane.move_down();
    pane.move_up();
    assert_eq!(pane.selected_index, 0);
    assert!(pane.get_selected_item().is_none());
    assert!(pane.get_selected_items().is_empty());
    assert_eq!(pane.enter_target(), None);
}

#[test]
fn failed_refresh_leaves_pane_untouched() {
    let mut pane = make_pane("/tmp/probe", sample_children());
    let before: Vec<String> = pane.items.iter().map(|i| i.name.clone()).collect();
    let r = pane.refresh(Err(io_err("/tmp/probe")));
    assert!(r.is_err());
    let after: Vec<String> = pane.items.iter().map(|i| i.name.clone()).collect();
    assert_eq!(before, after);
    assert_eq!(r.unwrap_err().cause, "permission denied");
}

#[test]
fn failed_navigate_rolls_back_path_and_history() {
    let mut pane = make_pane("/tmp/probe", sample_children());
    let r = pane.navigate_to("/tmp/gone".to_string(), Err(io_err("/tmp/gone")));
    assert!(r.is_err());
    assert_eq!(pane.current_path, "/tmp/probe");
    assert_eq!(pane.history, vec!["/tmp/probe".to_string()]);
    assert_eq!(pane.history_index, 0);
}

#[test]
fn history_tracks_navigation() {
    let mut pane = make_pane("/tmp/probe", sample_children());
    pane.navigate_to("/tmp/a".to_string(), Ok(vec![entry("f", false, 1, 1)]))
        .unwrap();
    pane.navigate_to("/tmp/b".to_string(), Ok(Vec::new())).unwrap();
    assert_eq!(
        pane.history,
        vec![
            "/tmp/probe".to_string(),
            "/tmp/a".to_string(),
            "/tmp/b".to_string()
        ]
    );
    assert_eq!(pane.history_index, 2);
    assert_eq!(pane.history[pane.history_index], pane.current_path);
    // Re-visiting the history head pushes nothing.
    pane.navigate_to("/tmp/b".to_string(), Ok(Vec::new())).unwrap();
    assert_eq!(pane.history.len(), 3);
}

#[test]
fn history_is_capped_at_fifty() {
    let mut pane = make_pane("/tmp/probe", Vec::new());
    for i in 0..80usize {
        pane.navigate_to(format!("/tmp/d{}", i), Ok(Vec::new())).unwrap();
        assert!(pane.history.len() <= 50);
        assert_eq!(pane.history[pane.history_index], pane.current_path);
    }
    assert_eq!(pane.history.len(), 50);
    assert_eq!(pane.current_path, "/tmp/d79");
}

#[test]
fn navigate_back_restores_previous_path() {
    let mut pane = make_pane("/tmp/a", sample_children());
    pane.navigate_to("/tmp/b".to_string(), Ok(Vec::new())).unwrap();
    assert!(pane.can_go_back());
    assert_eq!(pane.back_target(), Some("/tmp/a".to_string()));
    pane.navigate_back(Ok(sample_children())).unwrap();
    assert_eq!(pane.current_path, "/tmp/a");
    let names: Vec<&str> = pane.items.iter().map(|i| i.name.as_str()).collect();
    assert_eq!(names, vec!["..", "apple", "Zoo", "banana", "Cherry"]);
    assert!(!pane.can_go_back());
    assert!(pane.can_go_forward());
    pane.navigate_forward(Ok(Vec::new())).unwrap();
    assert_eq!(pane.current_path, "/tmp/b");
}

#[test]
fn navigation_truncates_forward_history() {
    let mut pane = make_pane("/tmp/a", Vec::new());
    pane.navigate_to("/tmp/b".to_string(), Ok(Vec::new())).unwrap();
    pane.navigate_to("/tmp/c".to_string(), Ok(Vec::new())).unwrap();
    pane.navigate_back(Ok(Vec::new())).unwrap();
    pane.navigate_back(Ok(Vec::new())).unwrap();
    assert_eq!(pane.current_path, "/tmp/a");
    pane.navigate_to("/tmp/d".to_string(), Ok(Vec::new())).unwrap();
    assert_eq!(
        pane.history,
        vec!["/tmp/a".to_string(), "/tmp/d".to_string()]
    );
    assert!(!pane.can_go_forward());
}

#[test]
fn back_at_boundary_is_a_no_op() {
    let mut pane = make_pane("/tmp/a", sample_children());
    let before_len = pane.items.len();
    pane.navigate_back(Ok(Vec::new())).unwrap();
    assert_eq!(pane.current_path, "/tmp/a");
    assert_eq!(pane.items.len(), before_len);
}

#[test]
fn toggle_sort_twice_returns_to_ascending() {
    let mut pane = make_pane("/tmp/probe", sample_children());
    assert_eq!(pane.sort_order, SortOrder::Ascending);
    pane.toggle_sort(SortBy::Name);
    assert_eq!(pane.sort_order, SortOrder::Descending);
    pane.toggle_sort(SortBy::Name);
    assert_eq!(pane.sort_order, SortOrder::Ascending);
    assert_eq!(pane.sort_by, SortBy::Name);
}

#[test]
fn directories_precede_files_in_both_directions() {
    let mut pane = make_pane("/tmp/probe", sample_children());
    for _ in 0..2 {
        pane.toggle_sort(SortBy::Name);
        let kinds: Vec<bool> = pane.items.iter().skip(1).map(|i| i.is_dir).collect();
        let first_file = kinds.iter().position(|d| !d).unwrap();
        assert!(kinds[..first_file].iter().all(|d| *d));
        assert!(kinds[first_file..].iter().all(|d| !*d));
        assert_eq!(pane.items[0].name, "..");
    }
    // Descending flips the name order among directories, not their priority.
    pane.toggle_sort(SortBy::Name);
    let names: Vec<&str> = pane.items.iter().map(|i| i.name.as_str()).collect();
    assert_eq!(names, vec!["..", "Zoo", "apple", "Cherry", "banana"]);
}

#[test]
fn sort_by_size_ignores_kind() {
    let mut pane = make_pane("/tmp/probe", sample_children());
    pane.toggle_sort(SortBy::Size);
    let sizes: Vec<u64> = pane.items.iter().skip(1).map(|i| i.size).collect();
    assert_eq!(sizes, vec![0, 0, 5, 10]);
    pane.toggle_sort(SortBy::Date);
    let dates: Vec<u64> = pane.items.iter().skip(1).map(|i| i.modified).collect();
    assert_eq!(dates, vec![1, 2, 3, 4]);
    pane.toggle_sort(SortBy::Date);
    let dates: Vec<u64> = pane.items.iter().skip(1).map(|i| i.modified).collect();
    assert_eq!(dates, vec![4, 3, 2, 1]);
}

#[test]
fn refresh_keeps_name_order_among_size_ties() {
    let mut pane = make_pane("/tmp/probe", Vec::new());
    pane.toggle_sort(SortBy::Size);
    // The listing is put in default name order first; the size sort is
    // stable, so equal sizes stay name-ordered however the read returns them.
    pane.refresh(Ok(vec![
        entry("zeta", false, 5, 1),
        entry("alpha", false, 5, 2),
        entry("mid", false, 3, 3),
    ]))
    .unwrap();
    let names: Vec<&str> = pane.items.iter().map(|i| i.name.as_str()).collect();
    assert_eq!(names, vec!["..", "mid", "alpha", "zeta"]);
}

#[test]
fn cursor_moves_and_clamps() {
    let mut pane = make_pane("/tmp/probe", sample_children());
    pane.move_up();
    assert_eq!(pane.selected_index, 0);
    for _ in 0..10 {
        pane.move_down();
    }
    assert_eq!(pane.selected_index, 4);
    pane.move_up();
    assert_eq!(pane.selected_index, 3);
}

#[test]
fn refresh_clamps_cursor_into_range() {
    let mut pane = make_pane("/tmp/probe", sample_children());
    for _ in 0..4 {
        pane.move_down();
    }
    assert_eq!(pane.selected_index, 4);
    pane.refresh(Ok(vec![entry("only", false, 1, 1)])).unwrap();
    assert_eq!(pane.items.len(), 2);
    assert_eq!(pane.selected_index, 1);
}

#[test]
fn extend_selection_three_times_spans_four_rows() {
    let mut pane = make_pane("/tmp/probe", sample_children());
    pane.move_down_with_selection();
    pane.move_down_with_selection();
    pane.move_down_with_selection();
    assert_eq!(pane.selection_anchor, Some(0));
    assert_eq!(pane.selected_index, 3);
    assert_eq!(pane.selected_items, vec![0, 1, 2, 3]);
    assert!(pane.is_item_selected(0));
    assert!(pane.is_item_selected(3));
    assert!(!pane.is_item_selected(4));
}

#[test]
fn plain_move_clears_selection() {
    let mut pane = make_pane("/tmp/probe", sample_children());
    pane.move_down_with_selection();
    assert!(!pane.selected_items.is_empty());
    pane.move_down();
    assert!(pane.selected_items.is_empty());
    assert_eq!(pane.selection_anchor, None);
}

#[test]
fn extending_upward_keeps_anchor() {
    let mut pane = make_pane("/tmp/probe", sample_children());
    pane.move_down();
    pane.move_down();
    pane.move_up_with_selection();
    pane.move_up_with_selection();
    assert_eq!(pane.selection_anchor, Some(2));
    assert_eq!(pane.selected_items, vec![0, 1, 2]);
    pane.clear_selection();
    assert!(pane.selected_items.is_empty());
    assert_eq!(pane.selection_anchor, None);
}

#[test]
fn selected_items_fall_back_to_cursor() {
    let mut pane = make_pane("/tmp/probe", sample_children());
    pane.move_down();
    let single = pane.get_selected_items();
    assert_eq!(single.len(), 1);
    assert_eq!(single[0].name, "apple");
    pane.move_down_with_selection();
    let many = pane.get_selected_items();
    let names: Vec<&str> = many.iter().map(|i| i.name.as_str()).collect();
    assert_eq!(names, vec!["apple", "Zoo"]);
}

#[test]
fn enter_target_resolves_marker_and_directories() {
    let mut pane = make_pane("/tmp/probe", sample_children());
    // Cursor on the parent marker.
    assert_eq!(pane.enter_target(), Some("/tmp".to_string()));
    pane.move_down();
    assert_eq!(pane.enter_target(), Some("/tmp/probe/apple".to_string()));
    pane.move_down();
    pane.move_down();
    // A file is not entered.
    assert_eq!(pane.enter_target(), None);
}

#[test]
fn enter_directory_reports_resolution_failure() {
    let mut pane = make_pane("/tmp/probe", sample_children());
    let r = pane.enter_directory(None, Ok(Vec::new()));
    assert!(matches!(r, Err(NavigationError::InvalidPath)));
    assert_eq!(pane.current_path, "/tmp/probe");
    let r = pane.enter_directory(
        Some("/tmp".to_string()),
        Err(io_err("/tmp")),
    );
    assert!(matches!(r, Err(NavigationError::Io(_))));
    assert_eq!(pane.current_path, "/tmp/probe");
    let r = pane.enter_directory(Some("/tmp".to_string()), Ok(Vec::new()));
    assert!(r.is_ok());
    assert_eq!(pane.current_path, "/tmp");
}

#[test]
fn update_scroll_follows_cursor() {
    let mut pane = make_pane("/tmp/probe", sample_children());
    for _ in 0..4 {
        pane.move_down();
    }
    pane.update_scroll(2);
    assert_eq!(pane.scroll_offset, 3);
    for _ in 0..4 {
        pane.move_up();
    }
    pane.update_scroll(2);
    assert_eq!(pane.scroll_offset, 0);
}

#[test]
fn apply_filter_stores_without_touching_entries() {
    let mut pane = make_pane("/tmp/probe", sample_children());
    let before = pane.items.len();
    pane.apply_filter("ban".to_string());
    assert_eq!(pane.filter_text, "ban");
    assert_eq!(pane.items.len(), before);
}
