use dual_pane_fm::errors::IoError;
use dual_pane_fm::search::{search_files, FsNode, SearchCriteria, SearchFileType};

fn file(name: &str, size: u64, content: &str) -> FsNode {
    FsNode {
        name: name.to_string(),
        path: format!("/probe/{}", name),
        is_dir: false,
        size,
        modified: 100,
        content: Some(content.to_string()),
        children: Vec::new(),
    }
}

fn dir(name: &str, children: Vec<FsNode>) -> FsNode {
    FsNode {
        name: name.to_string(),
        path: format!("/probe/{}", name),
        is_dir: true,
        size: 0,
        modified: 100,
        content: None,
        children,
    }
}

fn root(children: Vec<FsNode>) -> FsNode {
    FsNode {
        name: "probe".to_string(),
        path: "/probe".to_string(),
        is_dir: true,
        size: 0,
        modified: 100,
        content: None,
        children,
    }
}

fn names(r: &[dual_pane_fm::item::FileItem]) -> Vec<String> {
    r.iter().map(|i| i.name.clone()).collect()
}

#[test]
fn directories_only_reaches_every_depth() {
    // Matching directories sit below a non-matching file-bearing one.
    let tree = root(vec![
        dir(
            "outer",
            vec![
                file("noise.txt", 10, ""),
                dir("inner", vec![dir("deepest", Vec::new())]),
            ],
        ),
        file("top.txt", 10, ""),
    ]);
    let criteria = SearchCriteria {
        file_type: SearchFileType::Directories,
        ..Default::default()
    };
    let r = search_files(&criteria, Ok(&tree)).unwrap();
    assert_eq!(names(&r), vec!["outer", "inner", "deepest"]);
}

#[test]
fn files_only_still_descends_into_directories() {
    let tree = root(vec![dir(
        "sub",
        vec![dir("subsub", vec![file("deep.txt", 1, "")])],
    )]);
    let criteria = SearchCriteria {
        file_type: SearchFileType::Files,
        ..Default::default()
    };
    let r = search_files(&criteria, Ok(&tree)).unwrap();
    assert_eq!(names(&r), vec!["deep.txt"]);
}

#[test]
fn min_size_excludes_small_files_only() {
    let tree = root(vec![
        file("small.bin", 500, ""),
        file("big.bin", 2048, ""),
        file("odd-name", 4096, ""),
    ]);
    let criteria = SearchCriteria {
        min_size: Some(1024),
        ..Default::default()
    };
    let r = search_files(&criteria, Ok(&tree)).unwrap();
    assert_eq!(names(&r), vec!["big.bin", "odd-name"]);
}

#[test]
fn max_size_bound_excludes_large_files() {
    let tree = root(vec![file("a", 10, ""), file("b", 1000, "")]);
    let criteria = SearchCriteria {
        max_size: Some(100),
        ..Default::default()
    };
    let r = search_files(&criteria, Ok(&tree)).unwrap();
    assert_eq!(names(&r), vec!["a"]);
}

#[test]
fn hidden_entries_are_skipped_and_not_descended() {
    let tree = root(vec![
        dir(".git", vec![file("config", 1, "")]),
        file(".hidden", 1, ""),
        file("shown", 1, ""),
    ]);
    let r = search_files(&SearchCriteria::default(), Ok(&tree)).unwrap();
    assert_eq!(names(&r), vec!["shown"]);

    let all = SearchCriteria {
        include_hidden: true,
        ..Default::default()
    };
    let r = search_files(&all, Ok(&tree)).unwrap();
    assert_eq!(names(&r), vec![".git", "config", ".hidden", "shown"]);
}

#[test]
fn filename_filter_is_a_case_insensitive_substring() {
    let tree = root(vec![
        file("Report.PDF", 1, ""),
        file("notes.txt", 1, ""),
        dir("reports", Vec::new()),
    ]);
    let criteria = SearchCriteria {
        filename_pattern: "report".to_string(),
        ..Default::default()
    };
    let r = search_files(&criteria, Ok(&tree)).unwrap();
    assert_eq!(names(&r), vec!["Report.PDF", "reports"]);

    let sensitive = SearchCriteria {
        filename_pattern: "report".to_string(),
        case_sensitive: true,
        ..Default::default()
    };
    let r = search_files(&sensitive, Ok(&tree)).unwrap();
    assert_eq!(names(&r), vec!["reports"]);
}

#[test]
fn name_misses_inside_a_directory_do_not_prune_descent() {
    let tree = root(vec![dir(
        "misnamed",
        vec![file("target.rs", 1, "")],
    )]);
    let criteria = SearchCriteria {
        filename_pattern: "target".to_string(),
        ..Default::default()
    };
    let r = search_files(&criteria, Ok(&tree)).unwrap();
    assert_eq!(names(&r), vec!["target.rs"]);
}

#[test]
fn content_filter_reads_files_only() {
    let tree = root(vec![
        file("has.txt", 1, "alpha beta gamma"),
        file("lacks.txt", 1, "nothing here"),
        FsNode {
            name: "unreadable.txt".to_string(),
            path: "/probe/unreadable.txt".to_string(),
            is_dir: false,
            size: 1,
            modified: 100,
            content: None,
            children: Vec::new(),
        },
        dir("anydir", Vec::new()),
    ]);
    let criteria = SearchCriteria {
        content_pattern: "BETA".to_string(),
        ..Default::default()
    };
    let r = search_files(&criteria, Ok(&tree)).unwrap();
    // Case-folded content match; directories pass the content filter.
    assert_eq!(names(&r), vec!["has.txt", "anydir"]);

    let sensitive = SearchCriteria {
        content_pattern: "BETA".to_string(),
        case_sensitive: true,
        ..Default::default()
    };
    let r = search_files(&sensitive, Ok(&tree)).unwrap();
    assert_eq!(names(&r), vec!["anydir"]);
}

#[test]
fn case_folding_reaches_beyond_ascii() {
    // Lowercasing is the standard Unicode one, so accented capitals match
    // their small forms, in content and in names alike.
    let tree = root(vec![
        file("menu.txt", 1, "CAF\u{c9}"),
        file("CAF\u{c9}.txt", 1, ""),
    ]);
    let by_content = SearchCriteria {
        content_pattern: "caf\u{e9}".to_string(),
        ..Default::default()
    };
    let r = search_files(&by_content, Ok(&tree)).unwrap();
    assert_eq!(names(&r), vec!["menu.txt"]);

    let by_name = SearchCriteria {
        filename_pattern: "caf\u{e9}".to_string(),
        ..Default::default()
    };
    let r = search_files(&by_name, Ok(&tree)).unwrap();
    assert_eq!(names(&r), vec!["CAF\u{c9}.txt"]);
}

#[test]
fn modified_time_bounds_apply() {
    let mut old_file = file("old", 1, "");
    old_file.modified = 10;
    let mut new_file = file("new", 1, "");
    new_file.modified = 200;
    let tree = root(vec![old_file, new_file]);
    let criteria = SearchCriteria {
        modified_after: Some(50),
        ..Default::default()
    };
    let r = search_files(&criteria, Ok(&tree)).unwrap();
    assert_eq!(names(&r), vec!["new"]);
    let criteria = SearchCriteria {
        modified_before: Some(50),
        ..Default::default()
    };
    let r = search_files(&criteria, Ok(&tree)).unwrap();
    assert_eq!(names(&r), vec!["old"]);
}

#[test]
fn matched_directory_is_still_recursed_into() {
    let tree = root(vec![dir("abc", vec![dir("abcd", Vec::new())])]);
    let criteria = SearchCriteria {
        filename_pattern: "abc".to_string(),
        ..Default::default()
    };
    let r = search_files(&criteria, Ok(&tree)).unwrap();
    assert_eq!(names(&r), vec!["abc", "abcd"]);
}

#[test]
fn unreadable_root_fails_the_call() {
    let e = IoError {
        path: "/probe".to_string(),
        cause: "denied".to_string(),
    };
    let r = search_files(&SearchCriteria::default(), Err(e));
    assert!(r.is_err());
    assert_eq!(r.unwrap_err().path, "/probe");
}

#[test]
fn default_criteria_match_everything_visible() {
    let c = SearchCriteria::default();
    assert_eq!(c.search_path, ".");
    assert_eq!(c.file_type, SearchFileType::All);
    assert!(!c.case_sensitive);
    assert!(!c.include_hidden);
    assert!(c.min_size.is_none() && c.max_size.is_none());
}
