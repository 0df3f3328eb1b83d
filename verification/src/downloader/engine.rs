//! The decisions of a download: what kind of stream to fetch, how segments
//! are decoded, named and requested, which temporary folder a download
//! resumes in, and what to do once the segments are in or merged. The
//! fetching, the files and the events are the caller's.
use vstd::prelude::*;
use aes::cipher::block_padding::NoPadding;
use aes::cipher::{BlockDecryptMut, KeyIvInit};
use crate::text;
use crate::text::{chars_of, concat, contains_at, format_decimal, starts_with_at, string_of};
use crate::pattern::{extract_video_code, video_code};
use crate::scraper::Site;
use crate::downloader::task::{TaskControlState, TaskRegistry, RegistryView};
use crate::downloader::m3u8::M3u8Info;
use crate::downloader::utils::{
    get_iv_for_segment, spec_iv_byte, spec_strip_fake_header, strip_fake_header, view_opt_bytes,
};

verus! {

// ---------------------------------------------------------------------------
// Streams and requests
// ---------------------------------------------------------------------------

/// A stream URL naming an `.mp4` file, or no `.m3u8` playlist, is fetched
/// as one file.
pub open spec fn spec_is_direct_mp4(stream_url: Seq<char>) -> bool {
    text::contains(stream_url, ".mp4"@) || !text::contains(stream_url, ".m3u8"@)
}

/// Whether the stream is downloaded as a single MP4 file.
pub fn is_direct_mp4(stream_url: &str) -> (r: bool)
    ensures
        r == spec_is_direct_mp4(stream_url@),
{
    let s = chars_of(stream_url);
    contains_at(&s, &chars_of(".mp4")) || !contains_at(&s, &chars_of(".m3u8"))
}

/// How many segments are fetched at once: the setting, within 1 to 16.
pub fn concurrency_limit(max_concurrent: usize) -> (r: usize)
    ensures
        r == (if max_concurrent < 1 {
            1
        } else if max_concurrent > 16 {
            16
        } else {
            max_concurrent
        }),
{
    if max_concurrent < 1 {
        1
    } else if max_concurrent > 16 {
        16
    } else {
        max_concurrent
    }
}

/// The last byte of a range of `len` bytes from `start` (the first byte
/// for an empty range).
pub open spec fn range_end(start: u64, len: u64) -> int {
    start + if len > 0 {
        len - 1
    } else {
        0
    }
}

/// The `Range` header value of a byte range: `bytes=<first>-<last>`.
pub open spec fn spec_range_header(start: u64, len: u64) -> Seq<char> {
    "bytes="@ + text::decimal(start as nat) + "-"@ + text::decimal(range_end(start, len) as nat)
}

/// The `Range` header value for the byte range `(start, len)`.
pub fn byte_range_header(start: u64, len: u64) -> (r: String)
    requires
        range_end(start, len) <= u64::MAX,
    ensures
        r@ == spec_range_header(start, len),
{
    let last = start + if len > 0 {
        len - 1
    } else {
        0
    };
    let mut v = concat(&chars_of("bytes="), &format_decimal(start));
    v = concat(&v, &chars_of("-"));
    v = concat(&v, &format_decimal(last));
    string_of(&v)
}

/// The file a segment is stored in: `<index>.ts`.
pub open spec fn spec_segment_file_name(index: usize) -> Seq<char> {
    text::decimal(index as nat) + ".ts"@
}

/// The name of segment `index`'s file in the temporary folder.
pub fn segment_file_name(index: usize) -> (r: String)
    ensures
        r@ == spec_segment_file_name(index),
{
    let v = concat(&format_decimal(index as u64), &chars_of(".ts"));
    string_of(&v)
}

/// The list of segment files, one `file '<i>.ts'` line each, in order.
pub open spec fn spec_concat_list(total: nat) -> Seq<char>
    decreases total,
{
    if total == 0 {
        seq![]
    } else {
        spec_concat_list((total - 1) as nat) + "file '"@ + text::decimal((total - 1) as nat)
            + ".ts'\n"@
    }
}

/// The input list for ffmpeg's concat demuxer over `total` segments.
pub fn concat_list(total: usize) -> (r: String)
    ensures
        r@ == spec_concat_list(total as nat),
{
    let mut v: Vec<char> = Vec::new();
    let mut i: usize = 0;
    while i < total
        invariant
            i <= total,
            v@ == spec_concat_list(i as nat),
        decreases total - i,
    {
        v = concat(&v, &chars_of("file '"));
        v = concat(&v, &format_decimal(i as u64));
        v = concat(&v, &chars_of(".ts'\n"));
        i += 1;
    }
    string_of(&v)
}

/// The names of the outputs of a download: `<title>.mp4` and `<title>.ts`.
pub fn output_file_names(safe_title: &str) -> (r: (String, String))
    ensures
        r.0@ == safe_title@ + ".mp4"@,
        r.1@ == safe_title@ + ".ts"@,
{
    let t = chars_of(safe_title);
    (string_of(&concat(&t, &chars_of(".mp4"))), string_of(&concat(&t, &chars_of(".ts"))))
}

/// The temporary folder of a download named after its title: `temp_<title>`.
pub fn temp_dir_name(safe_title: &str) -> (r: String)
    ensures
        r@ == "temp_"@ + safe_title@,
{
    string_of(&concat(&chars_of("temp_"), &chars_of(safe_title)))
}

// ---------------------------------------------------------------------------
// Segment data
// ---------------------------------------------------------------------------

/// How a stream's segments are read: in the clear when its playlist names
/// no key, else decrypted with the key fetched from the named URL.
pub enum KeyPlan {
    Clear,
    Fetch(String),
}

/// The key plan of a media playlist.
pub fn key_plan(info: &M3u8Info) -> (r: KeyPlan)
    ensures
        match info.key_url {
            None => r is Clear,
            Some(u) => r matches KeyPlan::Fetch(v) && v@ == u@,
        },
{
    match &info.key_url {
        None => KeyPlan::Clear,
        Some(u) => KeyPlan::Fetch(u.clone()),
    }
}

/// How the block cipher refused its input.
pub enum DecryptFailure {
    /// The key or the IV is not 16 bytes long.
    InvalidLength,
    /// The data is not a whole number of 16-byte blocks.
    Unpad,
}

/// AES-128-CBC decryption of `data` with `key` and `iv`, without padding.
pub uninterp spec fn aes128_cbc_plaintext(key: Seq<u8>, iv: Seq<u8>, data: Seq<u8>) -> Seq<u8>;

/// Decrypts with `cbc::Decryptor::<aes::Aes128>::new_from_slices(key, iv)`
/// and `decrypt_padded_mut::<NoPadding>`. As the crates' sources show, the
/// first fails unless key and IV are 16 bytes each, the second unless the
/// data is a whole number of 16-byte blocks, and without padding the
/// plaintext keeps every byte. The plaintext is only named.
#[verifier::external_body]
fn aes128_cbc_decrypt(key: &[u8], iv: &[u8], data: Vec<u8>) -> (r: Result<Vec<u8>, DecryptFailure>)
    ensures
        match r {
            Ok(p) => key@.len() == 16 && iv@.len() == 16 && data@.len() % 16 == 0 && p@
                == aes128_cbc_plaintext(key@, iv@, data@) && p@.len() == data@.len(),
            Err(DecryptFailure::InvalidLength) => key@.len() != 16 || iv@.len() != 16,
            Err(DecryptFailure::Unpad) => key@.len() == 16 && iv@.len() == 16 && data@.len() % 16 != 0,
        },
{
    let dec = match cbc::Decryptor::<aes::Aes128>::new_from_slices(key, iv) {
        Ok(d) => d,
        Err(_) => return Err(DecryptFailure::InvalidLength),
    };
    let mut buf = data;
    match dec.decrypt_padded_mut::<NoPadding>(&mut buf) {
        Ok(p) => Ok(p.to_vec()),
        Err(_) => Err(DecryptFailure::Unpad),
    }
}

/// The 16-byte IV of segment `index`.
pub open spec fn segment_iv(index: usize, iv: Option<Seq<u8>>) -> Seq<u8> {
    Seq::new(16, |k: int| spec_iv_byte(index, iv, k))
}

/// A playlist IV is used as given for every segment: the same 16 bytes
/// whatever the segment's index, namely the IV right-aligned and padded
/// with zero bytes in front (its first 16 bytes when longer).
pub proof fn law_playlist_iv_for_every_segment(index: usize, iv: Seq<u8>)
    ensures
        segment_iv(index, Some(iv)) == segment_iv(0, Some(iv)),
        segment_iv(index, Some(iv)).len() == 16,
        iv.len() == 16 ==> segment_iv(index, Some(iv)) == iv,
        iv.len() < 16 ==> segment_iv(index, Some(iv)) == Seq::new((16 - iv.len()) as nat, |k: int| 0u8) + iv,
        iv.len() > 16 ==> segment_iv(index, Some(iv)) == iv.take(16),
{
    assert(segment_iv(index, Some(iv)) =~= segment_iv(0, Some(iv)));
    if iv.len() == 16 {
        assert(segment_iv(index, Some(iv)) =~= iv);
    }
    if iv.len() < 16 {
        assert(segment_iv(index, Some(iv)) =~= Seq::new((16 - iv.len()) as nat, |k: int| 0u8) + iv);
    }
    if iv.len() > 16 {
        assert(segment_iv(index, Some(iv)) =~= iv.take(16));
    }
}

/// Without a playlist IV, segment `index` uses its index as a 128-bit
/// big-endian number: eight zero bytes, then the 64-bit index, most
/// significant byte first.
pub proof fn law_segment_number_iv(index: usize)
    ensures
        segment_iv(index, None).len() == 16,
        forall|k: int| 0 <= k < 8 ==> #[trigger] segment_iv(index, None)[k] == 0,
        forall|k: int|
            8 <= k < 16 ==> #[trigger] segment_iv(index, None)[k] as int == (index as int / pow256(15 - k)) % 256,
{
    let x = index as u64;
    assert(((x >> 56u64) & 0xffu64) == (x / 72057594037927936u64) % 256u64) by (bit_vector);
    assert(((x >> 48u64) & 0xffu64) == (x / 281474976710656u64) % 256u64) by (bit_vector);
    assert(((x >> 40u64) & 0xffu64) == (x / 1099511627776u64) % 256u64) by (bit_vector);
    assert(((x >> 32u64) & 0xffu64) == (x / 4294967296u64) % 256u64) by (bit_vector);
    assert(((x >> 24u64) & 0xffu64) == (x / 16777216u64) % 256u64) by (bit_vector);
    assert(((x >> 16u64) & 0xffu64) == (x / 65536u64) % 256u64) by (bit_vector);
    assert(((x >> 8u64) & 0xffu64) == (x / 256u64) % 256u64) by (bit_vector);
    assert(((x >> 0u64) & 0xffu64) == (x / 1u64) % 256u64) by (bit_vector);
    assert forall|k: int| 8 <= k < 16 implies #[trigger] segment_iv(index, None)[k] as int == (index as int / pow256(15 - k)) % 256 by {
        reveal_with_fuel(pow256, 8);
    }
}

/// 256 to the power `e`.
pub open spec fn pow256(e: int) -> int
    decreases e,
{
    if e <= 0 {
        1
    } else {
        256 * pow256(e - 1)
    }
}

/// SupJav hides segments behind a fake image header.
pub open spec fn site_payload(site: Site, data: Seq<u8>) -> Seq<u8> {
    match site {
        Site::Supjav => spec_strip_fake_header(data),
        _ => data,
    }
}

/// What a fetched segment becomes on disk: decrypted with the playlist's
/// key (when there is one) and the segment's IV, then freed of a fake
/// header for SupJav; or the reason it cannot be decrypted.
pub open spec fn spec_decode_segment(
    site: Site,
    key: Option<Seq<u8>>,
    index: usize,
    iv: Option<Seq<u8>>,
    data: Seq<u8>,
) -> Result<Seq<u8>, Seq<char>> {
    match key {
        Some(k) => if k.len() != 16 {
            Err("Invalid Length"@)
        } else if data.len() % 16 != 0 {
            Err("decryption error: Unpad Error"@)
        } else {
            Ok(site_payload(site, aes128_cbc_plaintext(k, segment_iv(index, iv), data)))
        },
        None => Ok(site_payload(site, data)),
    }
}

pub open spec fn opt_slice_view(o: Option<&[u8]>) -> Option<Seq<u8>> {
    match o {
        Some(k) => Some(k@),
        None => None,
    }
}

fn copy_bytes(s: &[u8]) -> (v: Vec<u8>)
    ensures
        v@ == s@,
{
    let mut v: Vec<u8> = Vec::new();
    let mut i: usize = 0;
    while i < s.len()
        invariant
            i <= s.len(),
            v@ == s@.take(i as int),
        decreases s.len() - i,
    {
        v.push(s[i]);
        i += 1;
        assert(v@ =~= s@.take(i as int));
    }
    assert(s@.take(s.len() as int) =~= s@);
    v
}

fn site_payload_exec(site: Site, data: &[u8]) -> (r: Vec<u8>)
    ensures
        r@ == site_payload(site, data@),
{
    match site {
        Site::Supjav => copy_bytes(strip_fake_header(data)),
        _ => copy_bytes(data),
    }
}

/// Turns the bytes fetched for segment `index` into what is stored.
pub fn decode_segment(
    site: Site,
    key: Option<&[u8]>,
    index: usize,
    iv: &Option<Vec<u8>>,
    data: Vec<u8>,
) -> (r: Result<Vec<u8>, String>)
    ensures
        match spec_decode_segment(site, opt_slice_view(key), index, view_opt_bytes(*iv), data@) {
            Ok(d) => r matches Ok(v) && v@ == d,
            Err(e) => r matches Err(m) && m@ == e,
        },
{
    match key {
        Some(k) => {
            let ivb = get_iv_for_segment(index, iv);
            assert(ivb@ =~= segment_iv(index, view_opt_bytes(*iv)));
            match aes128_cbc_decrypt(k, &ivb, data) {
                Ok(p) => Ok(site_payload_exec(site, &p)),
                Err(DecryptFailure::InvalidLength) => Err("Invalid Length".to_string()),
                Err(DecryptFailure::Unpad) => Err("decryption error: Unpad Error".to_string()),
            }
        },
        None => Ok(site_payload_exec(site, &data)),
    }
}

/// The init segment of an encrypted fMP4 stream, decrypted with the IV of
/// the first segment; kept as fetched when it cannot be decrypted.
pub fn decrypt_init_segment(key: &[u8], iv: &Option<Vec<u8>>, data: Vec<u8>) -> (r: Vec<u8>)
    ensures
        r@ == (if key@.len() == 16 && data@.len() % 16 == 0 {
            aes128_cbc_plaintext(key@, segment_iv(0, view_opt_bytes(*iv)), data@)
        } else {
            data@
        }),
{
    let ivb = get_iv_for_segment(0, iv);
    assert(ivb@ =~= segment_iv(0, view_opt_bytes(*iv)));
    let keep = data.clone();
    match aes128_cbc_decrypt(key, &ivb, data) {
        Ok(p) => p,
        Err(_) => keep,
    }
}

// ---------------------------------------------------------------------------
// Temporary folders
// ---------------------------------------------------------------------------

/// `name` is the temporary folder of the video whose code is `code`:
/// `temp_<title>` where the title holds the same video code.
pub open spec fn temp_folder_matches(name: Seq<char>, code: Seq<char>) -> bool {
    text::starts_with(name, "temp_"@) && video_code(name.skip("temp_"@.len() as int)) == Some(code)
}

/// The first of the folder names that is the temporary folder of `url`'s
/// video, found by the video code in the URL.
pub open spec fn spec_temp_folder_for(url: Seq<char>, names: Seq<Seq<char>>) -> Option<int> {
    match video_code(url) {
        None => None,
        Some(code) => if exists|k: int| 0 <= k < names.len() && temp_folder_matches(#[trigger] names[k], code) {
            Some(choose|k: int| 0 <= k < names.len() && temp_folder_matches(names[k], code)
                && forall|j: int| 0 <= j < k ==> !temp_folder_matches(#[trigger] names[j], code))
        } else {
            None
        },
    }
}

/// Among the folders of the download folder, in order, the index of the
/// first temporary folder of the same video as `url` (same video code), so
/// that a download resumes in it even when the title changed.
pub fn temp_folder_for(url: &str, names: &Vec<String>) -> (r: Option<usize>)
    ensures
        match r {
            Some(k) => video_code(url@) matches Some(code) && k < names@.len() && temp_folder_matches(
                names@[k as int]@,
                code,
            ) && forall|j: int| 0 <= j < k ==> !temp_folder_matches(#[trigger] names@[j]@, code),
            None => video_code(url@) matches Some(code) ==> forall|j: int|
                0 <= j < names@.len() ==> !temp_folder_matches(#[trigger] names@[j]@, code),
        },
{
    let code = match extract_video_code(url) {
        Some(c) => c,
        None => return None,
    };
    let cv = chars_of(code.as_str());
    let prefix = chars_of("temp_");
    let mut k: usize = 0;
    while k < names.len()
        invariant
            video_code(url@) == Some(code@),
            cv@ == code@,
            prefix@ == "temp_"@,
            forall|j: int| 0 <= j < k ==> !temp_folder_matches(#[trigger] names@[j]@, code@),
        decreases names.len() - k,
    {
        let n = chars_of(names[k].as_str());
        if starts_with_at(&n, &prefix) {
            let title = string_of(&n[prefix.len()..n.len()]);
            match extract_video_code(title.as_str()) {
                Some(c) => {
                    if text::eq(&chars_of(c.as_str()), &cv) {
                        return Some(k);
                    }
                },
                None => {},
            }
        }
        assert(!temp_folder_matches(names@[k as int]@, code@));
        k += 1;
    }
    None
}

// ---------------------------------------------------------------------------
// After the segments, after the merge
// ---------------------------------------------------------------------------

/// How the segment phase of a download ended.
pub enum SegmentsOutcome {
    Completed,
    Cancelled,
    Paused,
    /// A newer instance took over this URL (pause → resume race); the current
    /// task must back off without touching files or emitting events.
    Superseded,
    /// Some segments could not be downloaded even after retries.
    Failed(Vec<usize>),
}

/// The task's state, running when it is gone.
pub open spec fn state_or_running(v: RegistryView, url: Seq<char>) -> TaskControlState {
    if v.tasks.contains_key(url) {
        v.tasks[url].state
    } else {
        TaskControlState::Running
    }
}

/// A newer instance holds the task.
pub open spec fn superseded(v: RegistryView, url: Seq<char>, my_generation: u64) -> bool {
    v.tasks.contains_key(url) && v.tasks[url].generation != my_generation
}

/// Settles the segment phase: a superseded instance backs off first; then
/// a cancel or pause request wins; then any segment still missing fails the
/// download.
pub fn settle_segments(
    reg: &TaskRegistry,
    url: &str,
    my_generation: u64,
    failed: Vec<usize>,
) -> (r: SegmentsOutcome)
    ensures
        superseded(reg.view(), url@, my_generation) ==> r is Superseded,
        !superseded(reg.view(), url@, my_generation) ==> match state_or_running(reg.view(), url@) {
            TaskControlState::Cancelled => r is Cancelled,
            TaskControlState::Paused => r is Paused,
            TaskControlState::Running => if failed@.len() > 0 {
                r matches SegmentsOutcome::Failed(f) && f@ == failed@
            } else {
                r is Completed
            },
        },
{
    let is_superseded = match reg.generation(url) {
        Some(g) => g != my_generation,
        None => false,
    };
    if is_superseded {
        return SegmentsOutcome::Superseded;
    }
    let state = match reg.state(url) {
        Some(s) => s,
        None => TaskControlState::Running,
    };
    match state {
        TaskControlState::Cancelled => SegmentsOutcome::Cancelled,
        TaskControlState::Paused => SegmentsOutcome::Paused,
        TaskControlState::Running => if failed.len() > 0 {
            SegmentsOutcome::Failed(failed)
        } else {
            SegmentsOutcome::Completed
        },
    }
}

/// The next retry round for `failed` missing segments after `attempt`
/// rounds: at most three rounds, and only while segments are missing.
pub fn next_retry_attempt(failed: usize, attempt: u32) -> (r: Option<u32>)
    ensures
        r == (if failed > 0 && attempt < 3 {
            Some((attempt + 1) as u32)
        } else {
            None::<u32>
        }),
{
    if failed > 0 && attempt < 3 {
        Some(attempt + 1)
    } else {
        None
    }
}

/// The message of a download that still misses `n` segments.
pub open spec fn spec_failed_segments_message(n: usize) -> Seq<char> {
    text::decimal(n as nat) + " 个分片下载失败（已重试 3 次），可点击「继续」断点续传"@
}

pub fn failed_segments_message(n: usize) -> (r: String)
    ensures
        r@ == spec_failed_segments_message(n),
{
    string_of(&concat(&format_decimal(n as u64), &chars_of(" 个分片下载失败（已重试 3 次），可点击「继续」断点续传")))
}

/// What to do once the segments are merged.
#[derive(Debug, Clone, Copy, PartialEq, Eq, Structural)]
pub enum AfterMerge {
    /// Cancelled, but a newer instance owns the files: touch nothing.
    Abandon,
    /// Cancelled: delete the outputs and the temporary folder, forget the task.
    Discard,
    /// Done (also when paused during the merge, the output being whole):
    /// delete the temporary folder, forget the task, report completion.
    Complete,
}

/// The decision after the merge, from the task's state then.
pub fn after_merge(reg: &TaskRegistry, url: &str, my_generation: u64) -> (r: AfterMerge)
    ensures
        r == (if state_or_running(reg.view(), url@) == TaskControlState::Cancelled {
            if reg.view().tasks.contains_key(url@) && reg.view().tasks[url@].generation == my_generation {
                AfterMerge::Discard
            } else {
                AfterMerge::Abandon
            }
        } else {
            AfterMerge::Complete
        }),
{
    match reg.state(url) {
        Some(TaskControlState::Cancelled) => {
            if reg.is_current(url, my_generation) {
                AfterMerge::Discard
            } else {
                AfterMerge::Abandon
            }
        },
        _ => AfterMerge::Complete,
    }
}

} // verus!
