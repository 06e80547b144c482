//! Line-oriented file comparison: a greedy aligner that walks both line lists,
//! resynchronising after a mismatch by looking ahead a bounded number of lines.
use vstd::prelude::*;

verus! {

/// How one emitted comparison row relates the two sides.
#[derive(Clone, Copy, Debug, PartialEq, Eq, Structural)]
pub enum DiffLineType {
    Equal,
    Added,
    Removed,
    Modified,
}

/// One row of a comparison: the kind, the 1-based line number on each side
/// (absent on the side that has no line), and the text on each side.
#[derive(Clone, Debug)]
pub struct DiffLine {
    pub line_type: DiffLineType,
    pub left_line_num: Option<usize>,
    pub right_line_num: Option<usize>,
    pub left_content: String,
    pub right_content: String,
}

/// Mathematical image of a `DiffLine`.
#[verifier::ext_equal]
pub ghost struct DiffLineModel {
    pub line_type: DiffLineType,
    pub left_line_num: Option<int>,
    pub right_line_num: Option<int>,
    pub left_content: Seq<char>,
    pub right_content: Seq<char>,
}

impl View for DiffLine {
    type V = DiffLineModel;

    open spec fn view(&self) -> DiffLineModel {
        DiffLineModel {
            line_type: self.line_type,
            left_line_num: match self.left_line_num {
                Some(n) => Some(n as int),
                None => None,
            },
            right_line_num: match self.right_line_num {
                Some(n) => Some(n as int),
                None => None,
            },
            left_content: self.left_content@,
            right_content: self.right_content@,
        }
    }
}

/// The character sequences of a list of lines.
pub open spec fn lines_model(v: Seq<String>) -> Seq<Seq<char>> {
    v.map_values(|s: String| s@)
}

/// The models of a list of emitted rows.
pub open spec fn diff_model(v: Seq<DiffLine>) -> Seq<DiffLineModel> {
    v.map_values(|d: DiffLine| d@)
}

/// Row for a line present and equal on both sides.
pub open spec fn equal_line(l: Seq<Seq<char>>, r: Seq<Seq<char>>, i: int, j: int) -> DiffLineModel {
    DiffLineModel {
        line_type: DiffLineType::Equal,
        left_line_num: Some(i + 1),
        right_line_num: Some(j + 1),
        left_content: l[i],
        right_content: r[j],
    }
}

/// Row for a line only the right side has.
pub open spec fn added_line(r: Seq<Seq<char>>, j: int) -> DiffLineModel {
    DiffLineModel {
        line_type: DiffLineType::Added,
        left_line_num: None,
        right_line_num: Some(j + 1),
        left_content: Seq::empty(),
        right_content: r[j],
    }
}

/// Row for a line only the left side has.
pub open spec fn removed_line(l: Seq<Seq<char>>, i: int) -> DiffLineModel {
    DiffLineModel {
        line_type: DiffLineType::Removed,
        left_line_num: Some(i + 1),
        right_line_num: None,
        left_content: l[i],
        right_content: Seq::empty(),
    }
}

/// Row pairing two differing lines.
pub open spec fn modified_line(l: Seq<Seq<char>>, r: Seq<Seq<char>>, i: int, j: int) -> DiffLineModel {
    DiffLineModel {
        line_type: DiffLineType::Modified,
        left_line_num: Some(i + 1),
        right_line_num: Some(j + 1),
        left_content: l[i],
        right_content: r[j],
    }
}

/// Treating `l[i..i+d]` as removed would realign the cursors: `l[i+d]` equals `r[j]`.
pub open spec fn removed_resync_at(
    l: Seq<Seq<char>>,
    r: Seq<Seq<char>>,
    i: int,
    j: int,
    d: int,
) -> bool {
    i + d < l.len() && l[i + d] == r[j]
}

/// Treating `r[j..j+d]` as added would realign the cursors: `l[i]` equals `r[j+d]`.
pub open spec fn added_resync_at(
    l: Seq<Seq<char>>,
    r: Seq<Seq<char>>,
    i: int,
    j: int,
    d: int,
) -> bool {
    j + d < r.len() && l[i] == r[j + d]
}

/// The first resynchronisation found at distance `d` or beyond, up to 5:
/// the smallest distance wins, and at one distance the removed side is
/// tried before the added side. `Some((true, e))` stands for a removed-side
/// resync at distance `e`, `Some((false, e))` for an added-side one.
pub open spec fn find_resync_from(
    l: Seq<Seq<char>>,
    r: Seq<Seq<char>>,
    i: int,
    j: int,
    d: int,
) -> Option<(bool, int)>
    decreases 6 - d,
    when 1 <= d <= 6
{
    if d > 5 {
        None
    } else if removed_resync_at(l, r, i, j, d) {
        Some((true, d))
    } else if added_resync_at(l, r, i, j, d) {
        Some((false, d))
    } else {
        find_resync_from(l, r, i, j, d + 1)
    }
}

/// The resynchronisation the aligner uses after a mismatch at `(i, j)`.
pub open spec fn find_resync(l: Seq<Seq<char>>, r: Seq<Seq<char>>, i: int, j: int) -> Option<
    (bool, int),
> {
    find_resync_from(l, r, i, j, 1)
}

/// What a found resynchronisation guarantees: its distance lies in the window
/// and the corresponding realignment condition holds.
pub proof fn lemma_find_resync_props(l: Seq<Seq<char>>, r: Seq<Seq<char>>, i: int, j: int, d: int)
    requires
        1 <= d <= 6,
    ensures
        match find_resync_from(l, r, i, j, d) {
            Some(p) => {
                &&& d <= p.1 <= 5
                &&& p.0 ==> removed_resync_at(l, r, i, j, p.1)
                &&& !p.0 ==> added_resync_at(l, r, i, j, p.1)
            },
            None => true,
        },
    decreases 6 - d,
{
    if d <= 5 && !removed_resync_at(l, r, i, j, d) && !added_resync_at(l, r, i, j, d) {
        lemma_find_resync_props(l, r, i, j, d + 1);
    }
}

/// The rows the aligner emits from cursors `(i, j)` to the end of both sides.
///
/// In order: exhausted left emits the rest of the right as `Added`; exhausted
/// right emits the rest of the left as `Removed`; equal heads emit `Equal`;
/// otherwise the bounded lookahead either realigns — emitting a block of
/// `Removed` or `Added` rows — or the two heads are paired as one `Modified`.
pub open spec fn diff_from(l: Seq<Seq<char>>, r: Seq<Seq<char>>, i: int, j: int) -> Seq<
    DiffLineModel,
>
    decreases l.len() - i + r.len() - j,
    when 0 <= i <= l.len() && 0 <= j <= r.len()
    via diff_from_decreases
{
    if i >= l.len() && j >= r.len() {
        Seq::empty()
    } else if i >= l.len() {
        seq![added_line(r, j)] + diff_from(l, r, i, j + 1)
    } else if j >= r.len() {
        seq![removed_line(l, i)] + diff_from(l, r, i + 1, j)
    } else if l[i] == r[j] {
        seq![equal_line(l, r, i, j)] + diff_from(l, r, i + 1, j + 1)
    } else {
        match find_resync(l, r, i, j) {
            Some(p) => {
                if p.0 {
                    Seq::new(p.1 as nat, |k: int| removed_line(l, i + k)) + diff_from(
                        l,
                        r,
                        i + p.1,
                        j,
                    )
                } else {
                    Seq::new(p.1 as nat, |k: int| added_line(r, j + k)) + diff_from(
                        l,
                        r,
                        i,
                        j + p.1,
                    )
                }
            },
            None => seq![modified_line(l, r, i, j)] + diff_from(l, r, i + 1, j + 1),
        }
    }
}

#[via_fn]
proof fn diff_from_decreases(l: Seq<Seq<char>>, r: Seq<Seq<char>>, i: int, j: int) {
    if 0 <= i < l.len() && 0 <= j < r.len() && l[i] != r[j] {
        lemma_find_resync_props(l, r, i, j, 1);
    }
}

/// The full alignment of two line lists.
pub open spec fn diff_spec(l: Seq<Seq<char>>, r: Seq<Seq<char>>) -> Seq<DiffLineModel> {
    diff_from(l, r, 0, 0)
}

/// How many emitted rows have kind `t`.
pub open spec fn count_kind(s: Seq<DiffLineModel>, t: DiffLineType) -> nat
    decreases s.len(),
{
    if s.len() == 0 {
        0
    } else {
        count_kind(s.drop_last(), t) + if s.last().line_type == t {
            1nat
        } else {
            0nat
        }
    }
}

/// Outcome of comparing two files: the aligned rows and a tally by kind.
#[derive(Clone, Debug)]
pub struct FileComparison {
    pub left_path: String,
    pub right_path: String,
    pub are_identical: bool,
    pub diff_lines: Vec<DiffLine>,
    pub left_only_lines: usize,
    pub right_only_lines: usize,
    pub modified_lines: usize,
    pub equal_lines: usize,
}

/// Index of the first newline at or after `i`, or the length if there is none.
pub open spec fn find_nl(s: Seq<char>, i: int) -> int
    decreases s.len() - i,
    when 0 <= i <= s.len()
{
    if i >= s.len() {
        s.len() as int
    } else if s[i] == '\n' {
        i
    } else {
        find_nl(s, i + 1)
    }
}

/// `find_nl` stays between its start and the length.
pub proof fn lemma_find_nl_bounds(s: Seq<char>, i: int)
    requires
        0 <= i <= s.len(),
    ensures
        i <= find_nl(s, i) <= s.len(),
    decreases s.len() - i,
{
    if i < s.len() && s[i] != '\n' {
        lemma_find_nl_bounds(s, i + 1);
    }
}

/// If no newline lies in `[i, k)`, the first newline from `i` is the one from `k`.
proof fn lemma_find_nl_skip(s: Seq<char>, i: int, k: int)
    requires
        0 <= i <= k <= s.len(),
        forall|t: int| i <= t < k ==> s[t] != '\n',
    ensures
        find_nl(s, i) == find_nl(s, k),
    decreases k - i,
{
    if i < k {
        lemma_find_nl_skip(s, i + 1, k);
    }
}

/// The text of the line starting at `i` and delimited at `k`: a line that a
/// newline terminates loses one carriage return directly before it.
pub open spec fn line_at(s: Seq<char>, i: int, k: int) -> Seq<char> {
    if k < s.len() && i < k && s[k - 1] == '\r' {
        s.subrange(i, k - 1)
    } else {
        s.subrange(i, k)
    }
}

/// The lines of `s` from index `i` on: newline-delimited, a trailing partial
/// line included, nothing after a final newline.
pub open spec fn split_from(s: Seq<char>, i: int) -> Seq<Seq<char>>
    decreases s.len() - i,
    when 0 <= i <= s.len()
    via split_from_decreases
{
    if i >= s.len() {
        Seq::empty()
    } else {
        let k = find_nl(s, i);
        if k < s.len() {
            seq![line_at(s, i, k)] + split_from(s, k + 1)
        } else {
            seq![line_at(s, i, k)]
        }
    }
}

#[via_fn]
proof fn split_from_decreases(s: Seq<char>, i: int) {
    if 0 <= i < s.len() {
        lemma_find_nl_bounds(s, i);
    }
}

/// The lines of a whole text.
pub open spec fn split_lines_spec(s: Seq<char>) -> Seq<Seq<char>> {
    split_from(s, 0)
}

/// Splits a text into lines, exactly as `split_lines_spec` says.
pub fn split_lines(s: &str) -> (res: Vec<String>)
    ensures
        lines_model(res@) == split_lines_spec(s@),
{
    let n = s.unicode_len();
    let mut res: Vec<String> = Vec::new();
    let mut i: usize = 0;
    while i < n
        invariant
            i <= n,
            n == s@.len(),
            split_from(s@, 0) == lines_model(res@) + split_from(s@, i as int),
        decreases n - i,
    {
        let ghost i0 = i as int;
        let mut k: usize = i;
        while k < n && s.get_char(k) != '\n'
            invariant
                i <= k <= n,
                n == s@.len(),
                forall|t: int| i <= t < k ==> s@[t] != '\n',
            decreases n - k,
        {
            k = k + 1;
        }
        proof {
            lemma_find_nl_skip(s@, i as int, k as int);
            assert(find_nl(s@, i as int) == k);
        }
        let line_str = if k < n && k > i && s.get_char(k - 1) == '\r' {
            s.substring_char(i, k - 1)
        } else {
            s.substring_char(i, k)
        };
        let line = String::from_str(line_str);
        proof {
            assert(line@ == line_at(s@, i0, k as int));
        }
        let ghost pre = lines_model(res@);
        res.push(line);
        proof {
            assert(lines_model(res@) =~= pre.push(line_at(s@, i0, k as int)));
        }
        if k < n {
            i = k + 1;
            proof {
                assert(split_from(s@, i0) =~= seq![line_at(s@, i0, k as int)] + split_from(
                    s@,
                    i as int,
                ));
                assert(split_from(s@, 0) =~= lines_model(res@) + split_from(s@, i as int));
            }
        } else {
            i = n;
            proof {
                assert(split_from(s@, i0) =~= seq![line_at(s@, i0, k as int)]);
                assert(split_from(s@, i as int) =~= Seq::<Seq<char>>::empty());
                assert(split_from(s@, 0) =~= lines_model(res@) + split_from(s@, i as int));
            }
        }
    }
    proof {
        assert(split_from(s@, i as int) =~= Seq::<Seq<char>>::empty());
        assert(split_from(s@, 0) =~= lines_model(res@));
    }
    res
}

/// `r` holds the full line comparison of `l` and `rr` under the given paths:
/// the aligned rows, the tally of each kind, and the identity verdict.
pub open spec fn is_comparison_of(
    r: FileComparison,
    lp: Seq<char>,
    rp: Seq<char>,
    l: Seq<Seq<char>>,
    rr: Seq<Seq<char>>,
) -> bool {
    let rows = diff_spec(l, rr);
    &&& r.left_path@ == lp
    &&& r.right_path@ == rp
    &&& diff_model(r.diff_lines@) == rows
    &&& r.equal_lines == count_kind(rows, DiffLineType::Equal)
    &&& r.right_only_lines == count_kind(rows, DiffLineType::Added)
    &&& r.left_only_lines == count_kind(rows, DiffLineType::Removed)
    &&& r.modified_lines == count_kind(rows, DiffLineType::Modified)
    &&& r.are_identical == (count_kind(rows, DiffLineType::Added) == 0 && count_kind(
        rows,
        DiffLineType::Removed,
    ) == 0 && count_kind(rows, DiffLineType::Modified) == 0)
}

/// `r` reports the two files as identical: no rows, all tallies zero.
pub open spec fn is_identical_report(r: FileComparison, lp: Seq<char>, rp: Seq<char>) -> bool {
    &&& r.left_path@ == lp
    &&& r.right_path@ == rp
    &&& r.are_identical
    &&& r.diff_lines@.len() == 0
    &&& r.equal_lines == 0
    &&& r.right_only_lines == 0
    &&& r.left_only_lines == 0
    &&& r.modified_lines == 0
}

/// Compares two line lists and tallies the emitted rows by kind.
pub fn compare_lines(
    left_path: String,
    right_path: String,
    left_lines: &Vec<String>,
    right_lines: &Vec<String>,
) -> (r: FileComparison)
    ensures
        is_comparison_of(
            r,
            left_path@,
            right_path@,
            lines_model(left_lines@),
            lines_model(right_lines@),
        ),
{
    let diff_lines = compute_diff(left_lines, right_lines);
    let ghost rows = diff_model(diff_lines@);
    let mut equal_c: usize = 0;
    let mut added_c: usize = 0;
    let mut removed_c: usize = 0;
    let mut modified_c: usize = 0;
    let total = diff_lines.len();
    let mut idx: usize = 0;
    while idx < total
        invariant
            idx <= total,
            total == diff_lines@.len(),
            rows == diff_model(diff_lines@),
            rows.len() == total,
            equal_c == count_kind(rows.take(idx as int), DiffLineType::Equal),
            added_c == count_kind(rows.take(idx as int), DiffLineType::Added),
            removed_c == count_kind(rows.take(idx as int), DiffLineType::Removed),
            modified_c == count_kind(rows.take(idx as int), DiffLineType::Modified),
            equal_c + added_c + removed_c + modified_c == idx,
        decreases total - idx,
    {
        let ghost before = rows.take(idx as int);
        let ghost after = rows.take(idx as int + 1);
        proof {
            assert(after.drop_last() =~= before);
            assert(after.last() == rows[idx as int]);
        }
        match diff_lines[idx].line_type {
            DiffLineType::Equal => {
                equal_c = equal_c + 1;
            },
            DiffLineType::Added => {
                added_c = added_c + 1;
            },
            DiffLineType::Removed => {
                removed_c = removed_c + 1;
            },
            DiffLineType::Modified => {
                modified_c = modified_c + 1;
            },
        }
        idx = idx + 1;
    }
    proof {
        assert(rows.take(total as int) =~= rows);
    }
    let are_identical = added_c == 0 && removed_c == 0 && modified_c == 0;
    FileComparison {
        left_path,
        right_path,
        are_identical,
        diff_lines,
        left_only_lines: removed_c,
        right_only_lines: added_c,
        modified_lines: modified_c,
        equal_lines: equal_c,
    }
}

/// Decides whether two byte strings are equal.
pub fn bytes_equal(a: &Vec<u8>, b: &Vec<u8>) -> (r: bool)
    ensures
        r == (a@ == b@),
{
    if a.len() != b.len() {
        return false;
    }
    let n = a.len();
    let mut i: usize = 0;
    while i < n
        invariant
            i <= n,
            n == a@.len(),
            n == b@.len(),
            forall|j: int| 0 <= j < i ==> a@[j] == b@[j],
        decreases n - i,
    {
        if a[i] != b[i] {
            return false;
        }
        i = i + 1;
    }
    proof {
        assert(a@ =~= b@);
    }
    true
}

/// Compares two files given their raw bytes and their decoded text. Equal
/// bytes short-circuit to an identical report with no rows; otherwise both
/// texts are split into lines and aligned.
pub fn compare_contents(
    left_path: String,
    right_path: String,
    left_bytes: &Vec<u8>,
    right_bytes: &Vec<u8>,
    left_text: &str,
    right_text: &str,
) -> (r: FileComparison)
    ensures
        left_bytes@ == right_bytes@ ==> is_identical_report(r, left_path@, right_path@),
        left_bytes@ != right_bytes@ ==> is_comparison_of(
            r,
            left_path@,
            right_path@,
            split_lines_spec(left_text@),
            split_lines_spec(right_text@),
        ),
{
    if bytes_equal(left_bytes, right_bytes) {
        FileComparison {
            left_path,
            right_path,
            are_identical: true,
            diff_lines: Vec::new(),
            left_only_lines: 0,
            right_only_lines: 0,
            modified_lines: 0,
            equal_lines: 0,
        }
    } else {
        let left_lines = split_lines(left_text);
        let right_lines = split_lines(right_text);
        compare_lines(left_path, right_path, &left_lines, &right_lines)
    }
}

/// Decides whether two lines are equal, character for character.
fn line_eq(a: &String, b: &String) -> (r: bool)
    ensures
        r == (a@ == b@),
{
    a.eq(b)
}

/// The resynchronisation the aligner uses after a mismatch at `(li, rj)`:
/// the executable mirror of `find_resync`.
fn find_resync_exec(
    left_lines: &Vec<String>,
    right_lines: &Vec<String>,
    li: usize,
    rj: usize,
) -> (r: Option<(bool, usize)>)
    requires
        li < left_lines@.len(),
        rj < right_lines@.len(),
    ensures
        ({
            let fr = find_resync(
                lines_model(left_lines@),
                lines_model(right_lines@),
                li as int,
                rj as int,
            );
            match r {
                Some(p) => fr == Some((p.0, p.1 as int)),
                None => fr is None,
            }
        }),
{
    let ghost lm = lines_model(left_lines@);
    let ghost rm = lines_model(right_lines@);
    let lmax = left_lines.len();
    let rmax = right_lines.len();
    let mut d: usize = 1;
    while d <= 5
        invariant
            1 <= d <= 6,
            li < lmax,
            rj < rmax,
            lm == lines_model(left_lines@),
            rm == lines_model(right_lines@),
            lmax == left_lines@.len(),
            rmax == right_lines@.len(),
            lm.len() == lmax,
            rm.len() == rmax,
            find_resync(lm, rm, li as int, rj as int) == find_resync_from(
                lm,
                rm,
                li as int,
                rj as int,
                d as int,
            ),
        decreases 6 - d,
    {
        if d < lmax - li && line_eq(&left_lines[li + d], &right_lines[rj]) {
            assert(removed_resync_at(lm, rm, li as int, rj as int, d as int));
            return Some((true, d));
        }
        if d < rmax - rj && line_eq(&left_lines[li], &right_lines[rj + d]) {
            assert(!removed_resync_at(lm, rm, li as int, rj as int, d as int));
            assert(added_resync_at(lm, rm, li as int, rj as int, d as int));
            return Some((false, d));
        }
        assert(!removed_resync_at(lm, rm, li as int, rj as int, d as int));
        assert(!added_resync_at(lm, rm, li as int, rj as int, d as int));
        d = d + 1;
    }
    None
}

/// Aligns two line lists, emitting exactly the rows of `diff_spec`.
pub fn compute_diff(left_lines: &Vec<String>, right_lines: &Vec<String>) -> (res: Vec<DiffLine>)
    ensures
        diff_model(res@) == diff_spec(lines_model(left_lines@), lines_model(right_lines@)),
{
    let ghost lm = lines_model(left_lines@);
    let ghost rm = lines_model(right_lines@);
    let lmax = left_lines.len();
    let rmax = right_lines.len();
    let mut result: Vec<DiffLine> = Vec::new();
    let mut li: usize = 0;
    let mut rj: usize = 0;
    while li < lmax || rj < rmax
        invariant
            lm == lines_model(left_lines@),
            rm == lines_model(right_lines@),
            lmax == left_lines@.len(),
            rmax == right_lines@.len(),
            lm.len() == lmax,
            rm.len() == rmax,
            li <= lmax,
            rj <= rmax,
            diff_from(lm, rm, 0, 0) == diff_model(result@) + diff_from(
                lm,
                rm,
                li as int,
                rj as int,
            ),
        decreases lmax - li + rmax - rj,
    {
        let ghost pre = diff_model(result@);
        let ghost li0 = li as int;
        let ghost rj0 = rj as int;
        if li >= lmax {
            let line = DiffLine {
                line_type: DiffLineType::Added,
                left_line_num: None,
                right_line_num: Some(rj + 1),
                left_content: String::new(),
                right_content: right_lines[rj].clone(),
            };
            proof {
                assert(line@ =~~= added_line(rm, rj0));
            }
            result.push(line);
            rj = rj + 1;
            proof {
                assert(diff_model(result@) =~~= pre.push(added_line(rm, rj0)));
                assert(diff_from(lm, rm, li0, rj0) =~~= seq![added_line(rm, rj0)] + diff_from(
                    lm,
                    rm,
                    li0,
                    rj0 + 1,
                ));
                assert(diff_from(lm, rm, 0, 0) =~~= diff_model(result@) + diff_from(
                    lm,
                    rm,
                    li as int,
                    rj as int,
                ));
            }
        } else if rj >= rmax {
            let line = DiffLine {
                line_type: DiffLineType::Removed,
                left_line_num: Some(li + 1),
                right_line_num: None,
                left_content: left_lines[li].clone(),
                right_content: String::new(),
            };
            proof {
                assert(line@ =~~= removed_line(lm, li0));
            }
            result.push(line);
            li = li + 1;
            proof {
                assert(diff_model(result@) =~~= pre.push(removed_line(lm, li0)));
                assert(diff_from(lm, rm, li0, rj0) =~~= seq![removed_line(lm, li0)] + diff_from(
                    lm,
                    rm,
                    li0 + 1,
                    rj0,
                ));
                assert(diff_from(lm, rm, 0, 0) =~~= diff_model(result@) + diff_from(
                    lm,
                    rm,
                    li as int,
                    rj as int,
                ));
            }
        } else if line_eq(&left_lines[li], &right_lines[rj]) {
            let line = DiffLine {
                line_type: DiffLineType::Equal,
                left_line_num: Some(li + 1),
                right_line_num: Some(rj + 1),
                left_content: left_lines[li].clone(),
                right_content: right_lines[rj].clone(),
            };
            proof {
                assert(lm[li0] == rm[rj0]);
                assert(line@ =~~= equal_line(lm, rm, li0, rj0));
            }
            result.push(line);
            li = li + 1;
            rj = rj + 1;
            proof {
                assert(diff_model(result@) =~~= pre.push(equal_line(lm, rm, li0, rj0)));
                assert(diff_from(lm, rm, li0, rj0) =~~= seq![equal_line(lm, rm, li0, rj0)]
                    + diff_from(lm, rm, li0 + 1, rj0 + 1));
                assert(diff_from(lm, rm, 0, 0) =~~= diff_model(result@) + diff_from(
                    lm,
                    rm,
                    li as int,
                    rj as int,
                ));
            }
        } else {
            assert(lm[li0] != rm[rj0]);
            match find_resync_exec(left_lines, right_lines, li, rj) {
                Some((true, d)) => {
                    proof {
                        lemma_find_resync_props(lm, rm, li0, rj0, 1);
                        assert(removed_resync_at(lm, rm, li0, rj0, d as int));
                        assert(diff_from(lm, rm, li0, rj0) =~~= Seq::new(
                            d as nat,
                            |k: int| removed_line(lm, li0 + k),
                        ) + diff_from(lm, rm, li0 + d, rj0));
                    }
                    let mut k: usize = 0;
                    while k < d
                        invariant
                            k <= d,
                            d <= 5,
                            li == li0 + k,
                            li0 + d < lm.len(),
                            rj == rj0,
                            lm == lines_model(left_lines@),
                            lm.len() == left_lines@.len(),
                            lm.len() <= usize::MAX,
                            diff_model(result@) =~~= pre + Seq::new(
                                k as nat,
                                |t: int| removed_line(lm, li0 + t),
                            ),
                        decreases d - k,
                    {
                        let line = DiffLine {
                            line_type: DiffLineType::Removed,
                            left_line_num: Some(li + 1),
                            right_line_num: None,
                            left_content: left_lines[li].clone(),
                            right_content: String::new(),
                        };
                        proof {
                            assert(line@ =~~= removed_line(lm, li as int));
                        }
                        let ghost dm0 = diff_model(result@);
                        result.push(line);
                        li = li + 1;
                        k = k + 1;
                        proof {
                            assert(diff_model(result@) =~~= dm0.push(removed_line(lm, li0 + k - 1)));
                            assert(dm0.push(removed_line(lm, li0 + k - 1)) =~~= pre + Seq::new(
                                k as nat,
                                |t: int| removed_line(lm, li0 + t),
                            ));
                        }
                    }
                    proof {
                        assert(diff_from(lm, rm, 0, 0) =~~= diff_model(result@) + diff_from(
                            lm,
                            rm,
                            li as int,
                            rj as int,
                        ));
                    }
                },
                Some((false, d)) => {
                    proof {
                        lemma_find_resync_props(lm, rm, li0, rj0, 1);
                        assert(added_resync_at(lm, rm, li0, rj0, d as int));
                        assert(diff_from(lm, rm, li0, rj0) =~~= Seq::new(
                            d as nat,
                            |k: int| added_line(rm, rj0 + k),
                        ) + diff_from(lm, rm, li0, rj0 + d));
                    }
                    let mut k: usize = 0;
                    while k < d
                        invariant
                            k <= d,
                            d <= 5,
                            rj == rj0 + k,
                            rj0 + d < rm.len(),
                            li == li0,
                            rm == lines_model(right_lines@),
                            rm.len() == right_lines@.len(),
                            rm.len() <= usize::MAX,
                            diff_model(result@) =~~= pre + Seq::new(
                                k as nat,
                                |t: int| added_line(rm, rj0 + t),
                            ),
                        decreases d - k,
                    {
                        let line = DiffLine {
                            line_type: DiffLineType::Added,
                            left_line_num: None,
                            right_line_num: Some(rj + 1),
                            left_content: String::new(),
                            right_content: right_lines[rj].clone(),
                        };
                        proof {
                            assert(line@ =~~= added_line(rm, rj as int));
                        }
                        let ghost dm0 = diff_model(result@);
                        result.push(line);
                        rj = rj + 1;
                        k = k + 1;
                        proof {
                            assert(diff_model(result@) =~~= dm0.push(added_line(rm, rj0 + k - 1)));
                            assert(dm0.push(added_line(rm, rj0 + k - 1)) =~~= pre + Seq::new(
                                k as nat,
                                |t: int| added_line(rm, rj0 + t),
                            ));
                        }
                    }
                    proof {
                        assert(diff_from(lm, rm, 0, 0) =~~= diff_model(result@) + diff_from(
                            lm,
                            rm,
                            li as int,
                            rj as int,
                        ));
                    }
                },
                None => {
                    let line = DiffLine {
                        line_type: DiffLineType::Modified,
                        left_line_num: Some(li + 1),
                        right_line_num: Some(rj + 1),
                        left_content: left_lines[li].clone(),
                        right_content: right_lines[rj].clone(),
                    };
                    proof {
                        assert(line@ =~~= modified_line(lm, rm, li0, rj0));
                    }
                    result.push(line);
                    li = li + 1;
                    rj = rj + 1;
                    proof {
                        assert(diff_model(result@) =~~= pre.push(modified_line(lm, rm, li0, rj0)));
                        assert(diff_from(lm, rm, li0, rj0) =~~= seq![
                            modified_line(lm, rm, li0, rj0),
                        ] + diff_from(lm, rm, li0 + 1, rj0 + 1));
                        assert(diff_from(lm, rm, 0, 0) =~~= diff_model(result@) + diff_from(
                            lm,
                            rm,
                            li as int,
                            rj as int,
                        ));
                    }
                },
            }
        }
    }
    proof {
        assert(diff_from(lm, rm, li as int, rj as int) =~~= Seq::<DiffLineModel>::empty());
        assert(diff_model(result@) =~~= diff_from(lm, rm, 0, 0));
    }
    result
}

} // verus!
