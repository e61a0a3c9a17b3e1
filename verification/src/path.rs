//! On-disk layout of the history database and the image blob directory,
//! expressed as path strings built from a caller-supplied data directory.

use vstd::prelude::*;
use crate::text::chars_to_string;
use crate::text::str_chars;

verus! {

/// The history database file inside the data directory.
pub fn default_db_path(base_dir: &str) -> (r: String)
    ensures
        r@ == base_dir@ + "/clipboard_history.db"@,
{
    let mut out = String::new();
    out.append(base_dir);
    out.append("/clipboard_history.db");
    out
}

/// The directory holding one blob per unique image hash, beside the database.
pub fn images_dir(base_dir: &str) -> (r: String)
    ensures
        r@ == base_dir@ + "/clipboard_images"@,
{
    let mut out = String::new();
    out.append(base_dir);
    out.append("/clipboard_images");
    out
}

/// The blob path for an image hash: named deterministically from the hash, so
/// identical content always lands on the same file.
pub fn image_path_for_hash(base_dir: &str, hash: &str) -> (r: String)
    ensures
        r@ == base_dir@ + "/clipboard_images"@ + "/image_"@ + hash@ + ".bmp"@,
{
    let mut out = images_dir(base_dir);
    out.append("/image_");
    out.append(hash);
    out.append(".bmp");
    out
}

/// A path with every backslash turned forward, as a sqlite URL wants it.
pub open spec fn forward_slashed(s: Seq<char>) -> Seq<char> {
    s.map_values(|c: char| if c == '\\' { '/' } else { c })
}

/// The sqlite connection URL for a database path, in read-write-create mode.
pub fn sqlite_url(path: &str) -> (r: String)
    ensures
        r@ == "sqlite:///"@ + forward_slashed(path@) + "?mode=rwc"@,
{
    let chars = str_chars(path);
    let mut fixed: Vec<char> = Vec::new();
    let mut i: usize = 0;
    while i < chars.len()
        invariant
            i <= chars@.len(),
            chars@ == path@,
            fixed@ == forward_slashed(path@.subrange(0, i as int)),
        decreases chars@.len() - i,
    {
        let c = chars[i];
        if c == '\\' {
            fixed.push('/');
        } else {
            fixed.push(c);
        }
        i = i + 1;
        proof {
            assert(fixed@ =~= forward_slashed(path@.subrange(0, i as int)));
        }
    }
    proof {
        assert(path@.subrange(0, path@.len() as int) =~= path@);
    }
    let body = chars_to_string(&fixed);
    let mut out = String::new();
    out.append("sqlite:///");
    out.append(body.as_str());
    out.append("?mode=rwc");
    out
}

} // verus!
