use dual_pane_fm::trash::{get_trash_display_name, get_trash_path, is_trash_path};
use std::path::Path;

fn trash_from_environment() -> Option<String> {
    let home = dirs::home_dir().map(|h| h.to_string_lossy().to_string());
    let (xdg_present, fallback_present) = match &home {
        Some(h) => (
            Path::new(&format!("{}/.local/share/Trash/files", h)).exists(),
            Path::new(&format!("{}/.Trash", h)).exists(),
        ),
        None => (false, false),
    };
    get_trash_path(home.as_deref(), xdg_present, fallback_present)
}

#[test]
fn test_trash_path_returns_option() {
    let trash = trash_from_environment();
    // Doesn't panic, just returns Option
    let _ = trash;
}

#[test]
fn test_is_trash_path() {
    if let Some(trash) = trash_from_environment() {
        assert!(is_trash_path(&trash, Some(&trash)));
    }
}

#[test]
fn trash_location_prefers_the_xdg_directory() {
    let t = get_trash_path(Some("/home/u"), true, true).unwrap();
    assert_eq!(t, "/home/u/.local/share/Trash/files");
    let t = get_trash_path(Some("/home/u"), false, true).unwrap();
    assert_eq!(t, "/home/u/.Trash");
    assert!(get_trash_path(Some("/home/u"), false, false).is_none());
    assert!(get_trash_path(None, true, true).is_none());
}

#[test]
fn paths_inside_the_trash_are_recognised() {
    let trash = "/home/u/.Trash";
    assert!(is_trash_path("/home/u/.Trash", Some(trash)));
    assert!(is_trash_path("/home/u/.Trash/old.txt", Some(trash)));
    assert!(!is_trash_path("/home/u/.Trashy", Some(trash)));
    assert!(!is_trash_path("/home/u/docs", Some(trash)));
    assert!(!is_trash_path("/home/u/.Trash", None));
}

#[test]
fn trash_display_name() {
    assert_eq!(get_trash_display_name(), "Trash");
}
