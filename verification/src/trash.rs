//! Where the trash directory lies and which paths fall inside it. Whether a
//! candidate directory exists on disk is the caller's business; the answers
//! are handed in as plain values.
use crate::path::joined;
use crate::text::{is_prefix_of, str_starts_with};
use vstd::prelude::*;
use vstd::string::*;

verus! {

/// The trash directory under `home`: the XDG location when it exists on
/// disk, else the older dot-directory when that exists, else none; without
/// a home directory, none.
pub fn get_trash_path(home: Option<&str>, xdg_present: bool, fallback_present: bool) -> (r: Option<
    String,
>)
    ensures
        match home {
            None => r is None,
            Some(h) => if xdg_present {
                r matches Some(p) && p@ == joined(h@, ".local/share/Trash/files"@)
            } else if fallback_present {
                r matches Some(p) && p@ == joined(h@, ".Trash"@)
            } else {
                r is None
            },
        },
{
    match home {
        None => None,
        Some(h) => {
            if xdg_present {
                Some(crate::path::join_path(h, ".local/share/Trash/files"))
            } else if fallback_present {
                Some(crate::path::join_path(h, ".Trash"))
            } else {
                None
            }
        },
    }
}

/// `path` lies in the trash: it is the trash directory itself or below it.
/// Without a trash directory nothing does.
pub fn is_trash_path(path: &str, trash: Option<&str>) -> (r: bool)
    ensures
        match trash {
            None => !r,
            Some(t) => r == (path@ == t@ || is_prefix_of(t@ + seq!['/'], path@)),
        },
{
    match trash {
        None => false,
        Some(t) => {
            let mut prefix = String::from_str(t);
            prefix.append("/");
            proof {
                reveal_strlit("/");
                assert(prefix@ =~= t@ + seq!['/']);
            }
            let same = {
                let ts = String::from_str(t);
                let ps = String::from_str(path);
                ps.eq(&ts)
            };
            same || str_starts_with(path, prefix.as_str())
        },
    }
}

/// The human name of the trash directory.
pub fn get_trash_display_name() -> (r: &'static str)
    ensures
        r@ == "Trash"@,
{
    "Trash"
}

} // verus!
