use dual_pane_fm::item::{
    apply_git_status, calculate_directory_stats, format_size, get_file_type, is_archive,
    u64_to_dec, FileItem, FileType, GitStatus,
};
use dual_pane_fm::text::truncate_text;

fn entry(name: &str, dir: bool, size: u64) -> FileItem {
    FileItem {
        name: name.to_string(),
        path: format!("/d/{}", name),
        is_dir: dir,
        size,
        modified: 0,
        git_status: None,
    }
}

#[test]
fn format_size_picks_the_unit() {
    assert_eq!(format_size(0), "0 B");
    assert_eq!(format_size(999), "999 B");
    assert_eq!(format_size(1023), "1023 B");
    assert_eq!(format_size(1024), "1.00 KB");
    assert_eq!(format_size(1536), "1.50 KB");
    assert_eq!(format_size(10 * 1024 * 1024), "10.00 MB");
    assert_eq!(format_size(1024 * 1024 * 1024), "1.00 GB");
    assert_eq!(format_size(3 * 1024 * 1024 * 1024 + 512 * 1024 * 1024), "3.50 GB");
}

#[test]
fn format_size_rounds_half_up_to_two_decimals() {
    // 1.005 KB rounds up to 1.01 KB.
    assert_eq!(format_size(1029), "1.00 KB");
    assert_eq!(format_size(1030), "1.01 KB");
    // Just below the next whole unit the fraction carries.
    assert_eq!(format_size(2 * 1024 - 1), "2.00 KB");
}

#[test]
fn u64_to_dec_writes_decimal() {
    assert_eq!(u64_to_dec(0), "0");
    assert_eq!(u64_to_dec(7), "7");
    assert_eq!(u64_to_dec(105), "105");
    assert_eq!(u64_to_dec(u64::MAX), "18446744073709551615");
}

#[test]
fn stats_skip_the_parent_marker() {
    let items = vec![
        FileItem::parent_dir(),
        entry("a", true, 0),
        entry("b", false, 10),
        entry("c", false, 32),
    ];
    let stats = calculate_directory_stats(&items);
    assert_eq!(stats.folder_count, 1);
    assert_eq!(stats.file_count, 2);
    assert_eq!(stats.total_items, 3);
    assert_eq!(stats.total_size, 42);
}

#[test]
fn stats_size_saturates_instead_of_overflowing() {
    let items = vec![entry("a", false, u64::MAX), entry("b", false, 5)];
    let stats = calculate_directory_stats(&items);
    assert_eq!(stats.total_size, u64::MAX);
}

#[test]
fn archive_detection_goes_by_extension() {
    assert!(is_archive("/home/u/backup.zip"));
    assert!(is_archive("/home/u/backup.TAR"));
    assert!(is_archive("/home/u/x.tgz"));
    assert!(is_archive("/home/u/x.7z"));
    assert!(!is_archive("/home/u/backup.txt"));
    assert!(!is_archive("/home/u/zip"));
    assert!(!is_archive("/home/u/.zip"));
    assert!(!is_archive("/home/u/noext"));
}

#[test]
fn file_type_classification() {
    assert_eq!(get_file_type("/a/readme.md"), FileType::Text);
    assert_eq!(get_file_type("/a/data.JSON"), FileType::Text);
    assert_eq!(get_file_type("/a/photo.jpeg"), FileType::Image);
    assert_eq!(get_file_type("/a/paper.pdf"), FileType::Pdf);
    assert_eq!(get_file_type("/a/program.exe"), FileType::Other);
    assert_eq!(get_file_type("/a/noext"), FileType::Other);
}

#[test]
fn truncation_appends_ellipsis_only_when_cutting() {
    assert_eq!(truncate_text("short", 10), "short");
    assert_eq!(truncate_text("exactly", 7), "exactly");
    assert_eq!(truncate_text("a longer text", 6), "a long...");
}

#[test]
fn git_status_icons() {
    assert_eq!(GitStatus::Unmodified.icon(), "");
    assert_eq!(GitStatus::Modified.icon(), "M");
    assert_eq!(GitStatus::Added.icon(), "A");
    assert_eq!(GitStatus::Deleted.icon(), "D");
    assert_eq!(GitStatus::Renamed.icon(), "R");
    assert_eq!(GitStatus::Copied.icon(), "C");
    assert_eq!(GitStatus::Untracked.icon(), "?");
    assert_eq!(GitStatus::Ignored.icon(), "!");
}

#[test]
fn parent_marker_row() {
    let p = FileItem::parent_dir();
    assert_eq!(p.name, "..");
    assert!(p.is_dir);
    assert_eq!(p.size, 0);
    assert!(p.git_status.is_none());
}

#[test]
fn git_overlay_stamps_every_entry_but_the_marker() {
    let mut items = vec![
        FileItem::parent_dir(),
        entry("tracked", false, 1),
        entry("fresh", false, 1),
    ];
    let statuses = vec![("/d/tracked".to_string(), GitStatus::Modified)];
    apply_git_status(&mut items, &statuses);
    assert_eq!(items[0].git_status, None);
    assert_eq!(items[1].git_status, Some(GitStatus::Modified));
    assert_eq!(items[2].git_status, Some(GitStatus::Unmodified));
}
