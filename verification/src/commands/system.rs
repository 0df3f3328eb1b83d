//! The disk that holds the download folder.
use vstd::prelude::*;

verus! {

/// Capacity of the disk that holds the download folder.
#[derive(Debug, Clone)]
pub struct DiskSpaceInfo {
    pub total_space: u64,
    pub available_space: u64,
}

/// Whether `std::path::Path::starts_with` holds of the two paths (a
/// comparison by whole components).
pub uninterp spec fn path_under(path: Seq<char>, base: Seq<char>) -> bool;

/// `Path::new(path).starts_with(base)`. The component logic is std's; the
/// result is only named.
#[verifier::external_body]
fn path_starts_with(path: &str, base: &str) -> (r: bool)
    ensures
        r == path_under(path@, base@),
{
    std::path::Path::new(path).starts_with(base)
}

/// The byte length of a path's text.
pub open spec fn byte_len(s: Seq<char>) -> nat {
    vstd::utf8::encode_utf8(s).len()
}

/// Which mount point holds `path`: among those it lies under, the first
/// with the longest text; None when it lies under none.
pub open spec fn best_mount(path: Seq<char>, mounts: Seq<Seq<char>>, i: int) -> Option<int>
    decreases i,
{
    if i <= 0 {
        None
    } else {
        let prev = best_mount(path, mounts, i - 1);
        let m = mounts[i - 1];
        if path_under(path, m) && match prev {
            Some(b) => byte_len(m) > byte_len(mounts[b]),
            None => byte_len(m) > 0,
        } {
            Some(i - 1)
        } else {
            prev
        }
    }
}

/// The disk (by index among the mount points, in the order listed) that
/// holds `path` (see `best_mount`).
pub fn best_disk(path: &str, mounts: &Vec<String>) -> (r: Option<usize>)
    ensures
        match r {
            Some(k) => best_mount(path@, mounts@.map_values(|m: String| m@), mounts@.len() as int) == Some(k as int),
            None => best_mount(path@, mounts@.map_values(|m: String| m@), mounts@.len() as int) is None,
        },
{
    let ghost mv = mounts@.map_values(|m: String| m@);
    let mut best: Option<usize> = None;
    let mut best_len: usize = 0;
    let mut i: usize = 0;
    while i < mounts.len()
        invariant
            i <= mounts@.len(),
            mv == mounts@.map_values(|m: String| m@),
            match best {
                Some(k) => best_mount(path@, mv, i as int) == Some(k as int) && k < i && best_len == byte_len(mv[k as int]),
                None => best_mount(path@, mv, i as int) is None && best_len == 0,
            },
        decreases mounts.len() - i,
    {
        let m = &mounts[i];
        assert(mv[i as int] == m@);
        let len = m.as_str().as_bytes().len();
        if path_starts_with(path, m.as_str()) && len > best_len {
            best = Some(i);
            best_len = len;
        }
        i += 1;
    }
    best
}

} // verus!
