use dual_pane_fm::diff::{
    bytes_equal, compare_contents, compare_lines, compute_diff, split_lines, DiffLineType,
};

fn lines(v: &[&str]) -> Vec<String> {
    v.iter().map(|s| s.to_string()).collect()
}

#[test]
fn identical_bytes_short_circuit() {
    let data: Vec<u8> = b"hello\nworld\n".to_vec();
    let text = String::from_utf8(data.clone()).unwrap();
    let r = compare_contents(
        "/a".to_string(),
        "/b".to_string(),
        &data,
        &data.clone(),
        &text,
        &text.clone(),
    );
    assert!(r.are_identical);
    assert!(r.diff_lines.is_empty());
    assert_eq!(r.equal_lines, 0);
    assert_eq!(r.left_only_lines, 0);
    assert_eq!(r.right_only_lines, 0);
    assert_eq!(r.modified_lines, 0);
    assert_eq!(r.left_path, "/a");
    assert_eq!(r.right_path, "/b");
}

#[test]
fn modified_line_in_the_middle() {
    let left = lines(&["a", "b", "c"]);
    let right = lines(&["a", "x", "c"]);
    let r = compare_lines("/l".to_string(), "/r".to_string(), &left, &right);
    let kinds: Vec<DiffLineType> = r.diff_lines.iter().map(|d| d.line_type).collect();
    assert_eq!(
        kinds,
        vec![DiffLineType::Equal, DiffLineType::Modified, DiffLineType::Equal]
    );
    assert_eq!(r.equal_lines, 2);
    assert_eq!(r.modified_lines, 1);
    assert_eq!(r.left_only_lines, 0);
    assert_eq!(r.right_only_lines, 0);
    assert!(!r.are_identical);
}

#[test]
fn removed_line_resyncs_within_lookahead() {
    let left = lines(&["a", "b", "c"]);
    let right = lines(&["a", "c"]);
    let r = compare_lines("/l".to_string(), "/r".to_string(), &left, &right);
    let kinds: Vec<DiffLineType> = r.diff_lines.iter().map(|d| d.line_type).collect();
    assert_eq!(
        kinds,
        vec![DiffLineType::Equal, DiffLineType::Removed, DiffLineType::Equal]
    );
    assert_eq!(r.equal_lines, 2);
    assert_eq!(r.left_only_lines, 1);
    assert_eq!(r.right_only_lines, 0);
    assert_eq!(r.modified_lines, 0);
}

#[test]
fn added_line_resyncs_within_lookahead() {
    let left = lines(&["a", "c"]);
    let right = lines(&["a", "b", "c"]);
    let d = compute_diff(&left, &right);
    let kinds: Vec<DiffLineType> = d.iter().map(|x| x.line_type).collect();
    assert_eq!(
        kinds,
        vec![DiffLineType::Equal, DiffLineType::Added, DiffLineType::Equal]
    );
    assert_eq!(d[1].left_line_num, None);
    assert_eq!(d[1].right_line_num, Some(2));
    assert_eq!(d[1].right_content, "b");
    assert_eq!(d[1].left_content, "");
}

#[test]
fn removed_side_wins_at_equal_distance() {
    // At distance 1 both a removal and an addition would realign; the
    // removed side is tried first.
    let left = lines(&["x", "t"]);
    let right = lines(&["t", "x"]);
    let d = compute_diff(&left, &right);
    let kinds: Vec<DiffLineType> = d.iter().map(|x| x.line_type).collect();
    assert_eq!(
        kinds,
        vec![
            DiffLineType::Removed,
            DiffLineType::Equal,
            DiffLineType::Added
        ]
    );
}

#[test]
fn no_resync_beyond_window_pairs_as_modified() {
    let left = lines(&["a1", "a2", "a3", "a4", "a5", "a6", "a7"]);
    let right = lines(&["b1", "b2", "b3", "b4", "b5", "b6", "a1"]);
    // "a1" reappears only at distance 6 on the right, past the window of 5,
    // so the first rows pair as Modified.
    let d = compute_diff(&left, &right);
    assert_eq!(d[0].line_type, DiffLineType::Modified);
}

#[test]
fn trailing_lines_are_added_or_removed() {
    let left = lines(&["a"]);
    let right = lines(&["a", "b", "c"]);
    let r = compare_lines("/l".to_string(), "/r".to_string(), &left, &right);
    let kinds: Vec<DiffLineType> = r.diff_lines.iter().map(|d| d.line_type).collect();
    assert_eq!(
        kinds,
        vec![DiffLineType::Equal, DiffLineType::Added, DiffLineType::Added]
    );
    assert_eq!(r.right_only_lines, 2);

    let r2 = compare_lines("/l".to_string(), "/r".to_string(), &right, &left);
    assert_eq!(r2.left_only_lines, 2);
}

#[test]
fn line_numbers_are_one_based() {
    let left = lines(&["a", "b"]);
    let right = lines(&["a", "b"]);
    let d = compute_diff(&left, &right);
    assert_eq!(d[0].left_line_num, Some(1));
    assert_eq!(d[0].right_line_num, Some(1));
    assert_eq!(d[1].left_line_num, Some(2));
    assert_eq!(d[1].right_line_num, Some(2));
    assert_eq!(d[0].left_content, "a");
    assert_eq!(d[0].right_content, "a");
}

#[test]
fn split_lines_handles_terminators() {
    let got = split_lines("a\nb");
    assert_eq!(got, vec!["a".to_string(), "b".to_string()]);
    let got = split_lines("a\nb\n");
    assert_eq!(got, vec!["a".to_string(), "b".to_string()]);
    let got = split_lines("a\r\nb\r");
    assert_eq!(got, vec!["a".to_string(), "b\r".to_string()]);
    let got = split_lines("\n");
    assert_eq!(got, vec!["".to_string()]);
    let got = split_lines("");
    assert!(got.is_empty());
}

#[test]
fn differing_bytes_equal_lines_count_as_identical() {
    // A trailing newline changes the bytes but not the split lines, so the
    // line comparison reports identity.
    let lb: Vec<u8> = b"a\nb\n".to_vec();
    let rb: Vec<u8> = b"a\nb".to_vec();
    let lt = String::from_utf8(lb.clone()).unwrap();
    let rt = String::from_utf8(rb.clone()).unwrap();
    let r = compare_contents("/l".to_string(), "/r".to_string(), &lb, &rb, &lt, &rt);
    assert!(r.are_identical);
    assert_eq!(r.equal_lines, 2);
    assert_eq!(r.diff_lines.len(), 2);
}

#[test]
fn bytes_equal_compares_contents() {
    assert!(bytes_equal(&vec![1u8, 2, 3], &vec![1u8, 2, 3]));
    assert!(!bytes_equal(&vec![1u8, 2, 3], &vec![1u8, 2, 4]));
    assert!(!bytes_equal(&vec![1u8, 2], &vec![1u8, 2, 3]));
    assert!(bytes_equal(&Vec::new(), &Vec::new()));
}
