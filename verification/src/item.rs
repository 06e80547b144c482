//! The entry representation every engine component consumes: one row of a
//! directory listing, with classification and display helpers.
use crate::path::file_name_of;
use crate::text::{last_pos, lemma_last_pos, lower_of, lowercase, rfind_from, string_eq_str};
use vstd::prelude::*;
use vstd::string::*;

verus! {

/// Version-control annotation attached to an entry by an outside collaborator;
/// the engine stores it and hands it back, nothing more.
#[derive(Clone, Copy, Debug, PartialEq, Eq, Structural)]
pub enum GitStatus {
    Unmodified,
    Modified,
    Added,
    Deleted,
    Renamed,
    Copied,
    Untracked,
    Ignored,
}

impl GitStatus {
    /// One-character marker shown next to an entry.
    pub fn icon(&self) -> (r: &'static str)
        ensures
            r@ == match self {
                GitStatus::Unmodified => ""@,
                GitStatus::Modified => "M"@,
                GitStatus::Added => "A"@,
                GitStatus::Deleted => "D"@,
                GitStatus::Renamed => "R"@,
                GitStatus::Copied => "C"@,
                GitStatus::Untracked => "?"@,
                GitStatus::Ignored => "!"@,
            },
    {
        match self {
            GitStatus::Unmodified => "",
            GitStatus::Modified => "M",
            GitStatus::Added => "A",
            GitStatus::Deleted => "D",
            GitStatus::Renamed => "R",
            GitStatus::Copied => "C",
            GitStatus::Untracked => "?",
            GitStatus::Ignored => "!",
        }
    }
}

/// One directory entry: display name, absolute path, kind, size in bytes,
/// modification time in seconds since the epoch, and an optional
/// version-control tag.
#[derive(Debug)]
pub struct FileItem {
    pub name: String,
    pub path: String,
    pub is_dir: bool,
    pub size: u64,
    pub modified: u64,
    pub git_status: Option<GitStatus>,
}

/// Mathematical image of a `FileItem`.
#[verifier::ext_equal]
pub ghost struct ItemModel {
    pub name: Seq<char>,
    pub path: Seq<char>,
    pub is_dir: bool,
    pub size: u64,
    pub modified: u64,
    pub git_status: Option<GitStatus>,
}

impl View for FileItem {
    type V = ItemModel;

    open spec fn view(&self) -> ItemModel {
        ItemModel {
            name: self.name@,
            path: self.path@,
            is_dir: self.is_dir,
            size: self.size,
            modified: self.modified,
            git_status: self.git_status,
        }
    }
}

/// The models of a list of entries.
pub open spec fn items_model(v: Seq<FileItem>) -> Seq<ItemModel> {
    v.map_values(|x: FileItem| x@)
}

/// The synthetic "go to parent" row: a directory named "..", size zero.
pub open spec fn parent_marker() -> ItemModel {
    ItemModel {
        name: ".."@,
        path: ".."@,
        is_dir: true,
        size: 0,
        modified: 0,
        git_status: None,
    }
}

impl FileItem {
    /// The synthetic "go to parent" row prepended to listings.
    pub fn parent_dir() -> (r: FileItem)
        ensures
            r@ == parent_marker(),
    {
        FileItem {
            name: String::from_str(".."),
            path: String::from_str(".."),
            is_dir: true,
            size: 0,
            modified: 0,
            git_status: None,
        }
    }

    /// A field-for-field copy of this entry.
    pub fn duplicate(&self) -> (r: FileItem)
        ensures
            r@ == self@,
    {
        FileItem {
            name: self.name.clone(),
            path: self.path.clone(),
            is_dir: self.is_dir,
            size: self.size,
            modified: self.modified,
            git_status: self.git_status,
        }
    }
}

/// Decides whether a name is the parent marker "..".
pub fn is_parent_name(s: &String) -> (r: bool)
    ensures
        r == (s@ == ".."@),
{
    proof {
        reveal_strlit("..");
    }
    let st = s.as_str();
    if st.unicode_len() != 2 {
        return false;
    }
    let r = st.get_char(0) == '.' && st.get_char(1) == '.';
    proof {
        if r {
            assert(s@ =~= ".."@);
        }
    }
    r
}

/// Count of folders in a listing, the parent marker left out.
pub open spec fn stat_folders(s: Seq<ItemModel>) -> nat
    decreases s.len(),
{
    if s.len() == 0 {
        0
    } else {
        stat_folders(s.drop_last()) + if s.last().name != ".."@ && s.last().is_dir {
            1nat
        } else {
            0nat
        }
    }
}

/// Count of files in a listing, the parent marker left out.
pub open spec fn stat_files(s: Seq<ItemModel>) -> nat
    decreases s.len(),
{
    if s.len() == 0 {
        0
    } else {
        stat_files(s.drop_last()) + if s.last().name != ".."@ && !s.last().is_dir {
            1nat
        } else {
            0nat
        }
    }
}

/// Total size of the files in a listing, the parent marker and folders left out.
pub open spec fn stat_size(s: Seq<ItemModel>) -> nat
    decreases s.len(),
{
    if s.len() == 0 {
        0
    } else {
        stat_size(s.drop_last()) + if s.last().name != ".."@ && !s.last().is_dir {
            s.last().size as nat
        } else {
            0nat
        }
    }
}

/// Summary of one listing: how many folders and files it holds and how many
/// bytes the files take together.
#[derive(Clone, Debug)]
pub struct DirectoryStats {
    pub total_items: usize,
    pub folder_count: usize,
    pub file_count: usize,
    pub total_size: u64,
}

/// Tallies a listing: folders, files, and the files' total size, the parent
/// marker skipped. A size sum beyond `u64::MAX` saturates there.
pub fn calculate_directory_stats(items: &Vec<FileItem>) -> (r: DirectoryStats)
    ensures
        r.folder_count == stat_folders(items_model(items@)),
        r.file_count == stat_files(items_model(items@)),
        r.total_items == r.folder_count + r.file_count,
        r.total_size == if stat_size(items_model(items@)) <= u64::MAX {
            stat_size(items_model(items@)) as u64
        } else {
            u64::MAX
        },
{
    let ghost m = items_model(items@);
    let n = items.len();
    let mut folder_count: usize = 0;
    let mut file_count: usize = 0;
    let mut total_size: u64 = 0;
    let mut i: usize = 0;
    while i < n
        invariant
            i <= n,
            n == items@.len(),
            m == items_model(items@),
            m.len() == n,
            folder_count == stat_folders(m.take(i as int)),
            file_count == stat_files(m.take(i as int)),
            folder_count + file_count <= i,
            total_size == if stat_size(m.take(i as int)) <= u64::MAX {
                stat_size(m.take(i as int)) as u64
            } else {
                u64::MAX
            },
        decreases n - i,
    {
        proof {
            assert(m.take(i as int + 1).drop_last() =~= m.take(i as int));
            assert(m.take(i as int + 1).last() == m[i as int]);
        }
        let item = &items[i];
        if !is_parent_name(&item.name) {
            if item.is_dir {
                folder_count = folder_count + 1;
            } else {
                file_count = file_count + 1;
                if item.size > u64::MAX - total_size {
                    total_size = u64::MAX;
                } else {
                    total_size = total_size + item.size;
                }
            }
        }
        i = i + 1;
    }
    proof {
        assert(m.take(n as int) =~= m);
    }
    DirectoryStats {
        total_items: folder_count + file_count,
        folder_count,
        file_count,
        total_size,
    }
}

/// The extension of a path: what follows the last dot of its final component,
/// unless that dot begins the component or there is none.
pub open spec fn ext_of(p: Seq<char>) -> Option<Seq<char>> {
    let nm = file_name_of(p);
    let d = last_pos(nm, '.');
    if d <= 0 {
        None
    } else {
        Some(nm.skip(d + 1))
    }
}

/// Computes the extension of a path, as `ext_of` says.
pub fn extension_of(path: &str) -> (r: Option<String>)
    ensures
        match r {
            Some(e) => ext_of(path@) == Some(e@),
            None => ext_of(path@) is None,
        },
{
    let n = path.unicode_len();
    proof {
        lemma_last_pos(path@, '/');
    }
    let start: usize = match rfind_from(path, '/', 0) {
        Some(sl) => sl + 1,
        None => 0,
    };
    assert(start == last_pos(path@, '/') + 1);
    let ghost nm = file_name_of(path@);
    proof {
        lemma_last_pos(nm, '.');
        assert(forall|t: int| 0 <= t < nm.len() ==> nm[t] == path@[start + t]);
    }
    match rfind_from(path, '.', start) {
        Some(d) => {
            if d > start {
                proof {
                    assert(nm[d - start] == '.');
                    assert(forall|t: int| d - start < t < nm.len() ==> nm[t] != '.');
                    assert(last_pos(nm, '.') == d - start);
                }
                let e = String::from_str(path.substring_char(d + 1, n));
                proof {
                    assert(e@ =~= nm.skip(d - start + 1));
                }
                Some(e)
            } else {
                proof {
                    assert(d == start);
                    assert(forall|t: int| 0 < t < nm.len() ==> nm[t] != '.');
                    assert(last_pos(nm, '.') <= 0);
                }
                None
            }
        },
        None => {
            proof {
                assert(forall|t: int| 0 <= t < nm.len() ==> nm[t] != '.');
                assert(last_pos(nm, '.') == -1);
            }
            None
        },
    }
}

/// The extension marks a known archive format.
pub open spec fn is_archive_ext(e: Seq<char>) -> bool {
    ||| lower_of(e) == "zip"@
    ||| lower_of(e) == "tar"@
    ||| lower_of(e) == "gz"@
    ||| lower_of(e) == "tgz"@
    ||| lower_of(e) == "bz2"@
    ||| lower_of(e) == "xz"@
    ||| lower_of(e) == "7z"@
    ||| lower_of(e) == "rar"@
}

/// The path names an archive, going by its extension.
pub open spec fn is_archive_path(p: Seq<char>) -> bool {
    match ext_of(p) {
        Some(e) => is_archive_ext(e),
        None => false,
    }
}

/// Decides whether a path names an archive, by its extension, case ignored.
pub fn is_archive(path: &str) -> (r: bool)
    ensures
        r == is_archive_path(path@),
{
    match extension_of(path) {
        Some(e) => {
            let low = lowercase(e.as_str());
            string_eq_str(&low, "zip") || string_eq_str(&low, "tar") || string_eq_str(&low, "gz")
                || string_eq_str(&low, "tgz") || string_eq_str(&low, "bz2") || string_eq_str(
                &low,
                "xz",
            ) || string_eq_str(&low, "7z") || string_eq_str(&low, "rar")
        },
        None => false,
    }
}

pub const KB: u64 = 1024;

pub const MB: u64 = KB * 1024;

pub const GB: u64 = MB * 1024;

/// The character for one decimal digit.
pub open spec fn digit_char(d: nat) -> char {
    if d == 0 {
        '0'
    } else if d == 1 {
        '1'
    } else if d == 2 {
        '2'
    } else if d == 3 {
        '3'
    } else if d == 4 {
        '4'
    } else if d == 5 {
        '5'
    } else if d == 6 {
        '6'
    } else if d == 7 {
        '7'
    } else if d == 8 {
        '8'
    } else {
        '9'
    }
}

/// The decimal digits of `n`, most significant first.
pub open spec fn dec_digits(n: nat) -> Seq<char>
    decreases n,
{
    if n < 10 {
        seq![digit_char(n)]
    } else {
        dec_digits(n / 10).push(digit_char(n % 10))
    }
}

/// `size` in hundredths of `unit`, rounded half up, before the carry.
pub open spec fn scale_raw_frac(size: nat, unit: nat) -> nat {
    ((size % unit) * 100 + unit / 2) / unit
}

/// Whole units of `size` in `unit`, a fraction rounding up to a full unit
/// carried over.
pub open spec fn scale_whole(size: nat, unit: nat) -> nat {
    if scale_raw_frac(size, unit) >= 100 {
        size / unit + 1
    } else {
        size / unit
    }
}

/// Hundredths left after the whole units, the carry applied.
pub open spec fn scale_frac(size: nat, unit: nat) -> nat {
    if scale_raw_frac(size, unit) >= 100 {
        0
    } else {
        scale_raw_frac(size, unit)
    }
}

/// "W.FF" for `size` measured in `unit`.
pub open spec fn scaled_display(size: nat, unit: nat) -> Seq<char> {
    dec_digits(scale_whole(size, unit)) + seq!['.'] + seq![
        digit_char(scale_frac(size, unit) / 10),
        digit_char(scale_frac(size, unit) % 10),
    ]
}

/// The human-readable form of a byte count: two-decimal gigabytes, megabytes
/// or kilobytes when the size reaches the unit, plain bytes below a kilobyte.
pub open spec fn size_display(size: nat) -> Seq<char> {
    if size >= GB {
        scaled_display(size, GB as nat) + seq![' ', 'G', 'B']
    } else if size >= MB {
        scaled_display(size, MB as nat) + seq![' ', 'M', 'B']
    } else if size >= KB {
        scaled_display(size, KB as nat) + seq![' ', 'K', 'B']
    } else {
        dec_digits(size) + seq![' ', 'B']
    }
}

/// One decimal digit as text.
fn digit_str(d: u64) -> (r: &'static str)
    requires
        d < 10,
    ensures
        r@ == seq![digit_char(d as nat)],
{
    proof {
        reveal_strlit("0");
        reveal_strlit("1");
        reveal_strlit("2");
        reveal_strlit("3");
        reveal_strlit("4");
        reveal_strlit("5");
        reveal_strlit("6");
        reveal_strlit("7");
        reveal_strlit("8");
        reveal_strlit("9");
    }
    let r = if d == 0 {
        "0"
    } else if d == 1 {
        "1"
    } else if d == 2 {
        "2"
    } else if d == 3 {
        "3"
    } else if d == 4 {
        "4"
    } else if d == 5 {
        "5"
    } else if d == 6 {
        "6"
    } else if d == 7 {
        "7"
    } else if d == 8 {
        "8"
    } else {
        "9"
    };
    proof {
        assert(r@ =~= seq![digit_char(d as nat)]);
    }
    r
}

/// Writes `n` in decimal.
pub fn u64_to_dec(n: u64) -> (r: String)
    ensures
        r@ == dec_digits(n as nat),
    decreases n,
{
    if n < 10 {
        String::from_str(digit_str(n))
    } else {
        let mut s = u64_to_dec(n / 10);
        s.append(digit_str(n % 10));
        proof {
            assert(s@ =~= dec_digits(n as nat));
        }
        s
    }
}

/// "W.FF" for `size` measured in `unit`, rounded half up to two decimals.
fn scaled_size_string(size: u64, unit: u64) -> (r: String)
    requires
        1024 <= unit <= GB,
    ensures
        r@ == scaled_display(size as nat, unit as nat),
{
    let whole0 = size / unit;
    let rem = size % unit;
    assert(rem < unit);
    assert(rem * 100 + unit / 2 <= u64::MAX) by (nonlinear_arith)
        requires
            rem < unit,
            1024 <= unit <= 1073741824,
    ;
    let f0 = (rem * 100 + unit / 2) / unit;
    assert(f0 <= 100) by (nonlinear_arith)
        requires
            rem < unit,
            1024 <= unit,
            f0 == ((rem * 100 + unit / 2) / unit as int),
    ;
    proof {
        vstd::arithmetic::div_mod::lemma_div_is_ordered_by_denominator(
            size as int,
            1024,
            unit as int,
        );
    }
    let whole = if f0 >= 100 {
        whole0 + 1
    } else {
        whole0
    };
    let frac = if f0 >= 100 {
        0
    } else {
        f0
    };
    let mut s = u64_to_dec(whole);
    s.append(".");
    s.append(digit_str(frac / 10));
    s.append(digit_str(frac % 10));
    proof {
        reveal_strlit(".");
        assert(s@ =~= scaled_display(size as nat, unit as nat));
    }
    s
}

/// Renders a byte count as text, exactly as `size_display` says.
pub fn format_size(size: u64) -> (r: String)
    ensures
        r@ == size_display(size as nat),
{
    if size >= GB {
        let mut s = scaled_size_string(size, GB);
        s.append(" GB");
        proof {
            reveal_strlit(" GB");
            assert(s@ =~= size_display(size as nat));
        }
        s
    } else if size >= MB {
        let mut s = scaled_size_string(size, MB);
        s.append(" MB");
        proof {
            reveal_strlit(" MB");
            assert(s@ =~= size_display(size as nat));
        }
        s
    } else if size >= KB {
        let mut s = scaled_size_string(size, KB);
        s.append(" KB");
        proof {
            reveal_strlit(" KB");
            assert(s@ =~= size_display(size as nat));
        }
        s
    } else {
        let mut s = u64_to_dec(size);
        s.append(" B");
        proof {
            reveal_strlit(" B");
            assert(s@ =~= size_display(size as nat));
        }
        s
    }
}

/// The tag recorded for `path`, if the status list holds one: the first
/// pair with that path decides.
pub open spec fn status_lookup(statuses: Seq<(String, GitStatus)>, path: Seq<char>) -> Option<
    GitStatus,
>
    decreases statuses.len(),
{
    if statuses.len() == 0 {
        None
    } else if statuses[0].0@ == path {
        Some(statuses[0].1)
    } else {
        status_lookup(statuses.drop_first(), path)
    }
}

/// A prefix without the path does not change what the lookup finds.
proof fn lemma_status_lookup_skip(statuses: Seq<(String, GitStatus)>, path: Seq<char>, i: int)
    requires
        0 <= i <= statuses.len(),
        forall|j: int| 0 <= j < i ==> statuses[j].0@ != path,
    ensures
        status_lookup(statuses, path) == status_lookup(statuses.skip(i), path),
    decreases i,
{
    if i > 0 {
        lemma_status_lookup_skip(statuses.drop_first(), path, i - 1);
        assert(statuses.skip(i) =~= statuses.drop_first().skip(i - 1));
    } else {
        assert(statuses.skip(0) =~= statuses);
    }
}

/// Finds the tag recorded for `path`, as `status_lookup` says.
fn lookup_status(statuses: &Vec<(String, GitStatus)>, path: &String) -> (r: Option<GitStatus>)
    ensures
        r == status_lookup(statuses@, path@),
{
    let n = statuses.len();
    let mut i: usize = 0;
    while i < n
        invariant
            i <= n,
            n == statuses@.len(),
            forall|j: int| 0 <= j < i ==> statuses@[j].0@ != path@,
        decreases n - i,
    {
        proof {
            lemma_status_lookup_skip(statuses@, path@, i as int);
        }
        let pair = &statuses[i];
        if pair.0.eq(path) {
            assert(statuses@.skip(i as int)[0] == statuses@[i as int]);
            return Some(pair.1);
        }
        assert(statuses@.skip(i as int)[0] == statuses@[i as int]);
        i = i + 1;
    }
    proof {
        lemma_status_lookup_skip(statuses@, path@, i as int);
        assert(statuses@.skip(i as int).len() == 0);
    }
    None
}

/// The model of an entry with its version-control tag replaced.
pub open spec fn stamped(m: ItemModel, g: GitStatus) -> ItemModel {
    ItemModel { git_status: Some(g), ..m }
}

/// The tag an overlay gives an entry: the recorded one, or `Unmodified`.
pub open spec fn applied_status(statuses: Seq<(String, GitStatus)>, path: Seq<char>) -> GitStatus {
    match status_lookup(statuses, path) {
        Some(s) => s,
        None => GitStatus::Unmodified,
    }
}

/// Stamps every entry but the parent marker with its recorded tag, or
/// `Unmodified` where none is recorded; nothing else of any entry changes.
pub fn apply_git_status(items: &mut Vec<FileItem>, statuses: &Vec<(String, GitStatus)>)
    ensures
        final(items)@.len() == old(items)@.len(),
        forall|i: int|
            0 <= i < old(items)@.len() ==> final(items)@[i]@ == (if old(items)@[i]@.name == ".."@ {
                old(items)@[i]@
            } else {
                stamped(old(items)@[i]@, applied_status(statuses@, old(items)@[i]@.path))
            }),
{
    let n = items.len();
    let mut i: usize = 0;
    while i < n
        invariant
            i <= n,
            n == items@.len(),
            items@.len() == old(items)@.len(),
            forall|j: int| i <= j < n ==> items@[j] == old(items)@[j],
            forall|j: int|
                0 <= j < i ==> items@[j]@ == (if old(items)@[j]@.name == ".."@ {
                    old(items)@[j]@
                } else {
                    stamped(old(items)@[j]@, applied_status(statuses@, old(items)@[j]@.path))
                }),
        decreases n - i,
    {
        let dotdot = is_parent_name(&items[i].name);
        if !dotdot {
            let tag = match lookup_status(statuses, &items[i].path) {
                Some(s) => s,
                None => GitStatus::Unmodified,
            };
            items[i].git_status = Some(tag);
            proof {
                assert(items@[i as int]@ =~= stamped(
                    old(items)@[i as int]@,
                    applied_status(statuses@, old(items)@[i as int]@.path),
                ));
            }
        }
        i = i + 1;
    }
}

/// Kind of preview a file supports, going by its extension.
#[derive(Clone, Copy, Debug, PartialEq, Eq, Structural)]
pub enum FileType {
    Text,
    Image,
    Pdf,
    Other,
}

/// The extension marks a previewable text format.
pub open spec fn is_text_ext(e: Seq<char>) -> bool {
    ||| lower_of(e) == "txt"@
    ||| lower_of(e) == "md"@
    ||| lower_of(e) == "rs"@
    ||| lower_of(e) == "js"@
    ||| lower_of(e) == "ts"@
    ||| lower_of(e) == "py"@
    ||| lower_of(e) == "html"@
    ||| lower_of(e) == "css"@
    ||| lower_of(e) == "json"@
    ||| lower_of(e) == "yaml"@
    ||| lower_of(e) == "toml"@
    ||| lower_of(e) == "xml"@
    ||| lower_of(e) == "csv"@
}

/// The extension marks an image format.
pub open spec fn is_image_ext(e: Seq<char>) -> bool {
    ||| lower_of(e) == "png"@
    ||| lower_of(e) == "jpg"@
    ||| lower_of(e) == "jpeg"@
    ||| lower_of(e) == "gif"@
    ||| lower_of(e) == "bmp"@
    ||| lower_of(e) == "ico"@
    ||| lower_of(e) == "webp"@
}

/// The preview kind of a path, going by its extension.
pub open spec fn file_type_of(p: Seq<char>) -> FileType {
    match ext_of(p) {
        Some(e) => {
            if is_text_ext(e) {
                FileType::Text
            } else if is_image_ext(e) {
                FileType::Image
            } else if lower_of(e) == "pdf"@ {
                FileType::Pdf
            } else {
                FileType::Other
            }
        },
        None => FileType::Other,
    }
}

/// Classifies a path by its extension, case ignored, as `file_type_of` says.
pub fn get_file_type(path: &str) -> (r: FileType)
    ensures
        r == file_type_of(path@),
{
    match extension_of(path) {
        Some(e) => {
            let low = lowercase(e.as_str());
            if string_eq_str(&low, "txt") || string_eq_str(&low, "md") || string_eq_str(&low, "rs")
                || string_eq_str(&low, "js") || string_eq_str(&low, "ts") || string_eq_str(
                &low,
                "py",
            ) || string_eq_str(&low, "html") || string_eq_str(&low, "css") || string_eq_str(
                &low,
                "json",
            ) || string_eq_str(&low, "yaml") || string_eq_str(&low, "toml") || string_eq_str(
                &low,
                "xml",
            ) || string_eq_str(&low, "csv") {
                FileType::Text
            } else if string_eq_str(&low, "png") || string_eq_str(&low, "jpg") || string_eq_str(
                &low,
                "jpeg",
            ) || string_eq_str(&low, "gif") || string_eq_str(&low, "bmp") || string_eq_str(
                &low,
                "ico",
            ) || string_eq_str(&low, "webp") {
                FileType::Image
            } else if string_eq_str(&low, "pdf") {
                FileType::Pdf
            } else {
                FileType::Other
            }
        },
        None => FileType::Other,
    }
}

} // verus!
