//! Startup recovery: which `.part` files in the model directory are
//! interrupted downloads, what the manifest knows of them, and whether they
//! are stale (not updated for more than 14 days).
use vstd::prelude::*;
use crate::resume::{ResumeManifest, ResumeEntry, entry_for};
use crate::download::{PART_RETENTION_SECS, unix_now_secs};
use crate::text::{chars_of, string_from_chars, ends_with};

verus! {

/// A file found in the model directory: its name and size in bytes (0 when
/// the size could not be read).
pub struct DirEntryInfo {
    pub name: String,
    pub len: u64,
}

/// Information about a `.part` file found during a recovery scan.
#[derive(Debug, Clone)]
pub struct PartialDownloadInfo {
    pub filename: String,
    pub bytes_on_disk: u64,
    pub total_bytes: Option<u64>,
    pub last_updated_secs: u64,
    /// True if the file has not been updated in more than 14 days.
    pub is_stale: bool,
}

/// What a `PartialDownloadInfo` holds.
pub struct PartialView {
    pub filename: Seq<char>,
    pub bytes_on_disk: u64,
    pub total_bytes: Option<u64>,
    pub last_updated_secs: u64,
    pub is_stale: bool,
}

impl View for PartialDownloadInfo {
    type V = PartialView;

    open spec fn view(&self) -> PartialView {
        PartialView {
            filename: self.filename@,
            bytes_on_disk: self.bytes_on_disk,
            total_bytes: self.total_bytes,
            last_updated_secs: self.last_updated_secs,
            is_stale: self.is_stale,
        }
    }
}

/// The `.part` suffix.
pub open spec fn part_suffix() -> Seq<char> {
    seq!['.', 'p', 'a', 'r', 't']
}

/// `s` with every trailing `.part` removed (`str::trim_end_matches`).
pub open spec fn strip_part_suffixes(s: Seq<char>) -> Seq<char>
    decreases s.len(),
{
    if ends_with(s, part_suffix()) {
        strip_part_suffixes(s.subrange(0, s.len() - 5))
    } else {
        s
    }
}

/// Whether a file last updated at `last_updated` is stale at `now`.
pub open spec fn is_stale_spec(now: u64, last_updated: u64) -> bool {
    (if now >= last_updated { now - last_updated } else { 0 }) > PART_RETENTION_SECS
}

/// What the scan reports of one directory entry at time `now`: nothing
/// unless its name ends with `.part`.
pub open spec fn partial_spec(e: DirEntryInfo, manifest: Seq<ResumeEntry>, now: u64) -> Option<PartialView> {
    if ends_with(e.name@, part_suffix()) {
        let filename = strip_part_suffixes(e.name@);
        let last = match entry_for(manifest, filename) {
            Some(r) => r.last_updated_secs,
            None => 0,
        };
        Some(PartialView {
            filename,
            bytes_on_disk: e.len,
            total_bytes: match entry_for(manifest, filename) {
                Some(r) => r.total_bytes,
                None => None,
            },
            last_updated_secs: last,
            is_stale: is_stale_spec(now, last),
        })
    } else {
        None
    }
}

/// What the scan reports of `entries`, in their order.
pub open spec fn scan_spec(entries: Seq<DirEntryInfo>, manifest: Seq<ResumeEntry>, now: u64) -> Seq<PartialView>
    decreases entries.len(),
{
    if entries.len() == 0 {
        Seq::empty()
    } else {
        scan_spec(entries.drop_last(), manifest, now) + match partial_spec(entries.last(), manifest, now) {
            Some(p) => seq![p],
            None => Seq::empty(),
        }
    }
}

fn ends_with_part(v: &Vec<char>) -> (r: bool)
    ensures
        r == ends_with(v@, part_suffix()),
{
    let n = v.len();
    if n < 5 {
        return false;
    }
    let r = v[n - 5] == '.' && v[n - 4] == 'p' && v[n - 3] == 'a' && v[n - 2] == 'r' && v[n - 1] == 't';
    proof {
        let tail = v@.subrange(n - 5, n as int);
        if r {
            assert(tail =~= part_suffix());
        } else {
            assert(tail != part_suffix()) by {
                if tail == part_suffix() {
                    assert(tail[0] == '.' && tail[1] == 'p' && tail[2] == 'a' && tail[3] == 'r' && tail[4] == 't');
                }
            }
        }
    }
    r
}

/// The download filename for a `.part` file name: every trailing `.part`
/// removed.
pub fn strip_part(name: &str) -> (r: String)
    ensures
        r@ == strip_part_suffixes(name@),
{
    let mut v = chars_of(name);
    while ends_with_part(&v)
        invariant
            strip_part_suffixes(v@) == strip_part_suffixes(name@),
        decreases v.len(),
    {
        let n = v.len();
        let ghost before = v@;
        v.truncate(n - 5);
        proof {
            assert(v@ =~= before.subrange(0, n - 5));
        }
    }
    string_from_chars(&v)
}

/// What the scan reports of one directory entry at time `now`.
pub fn partial_download_info(entry: &DirEntryInfo, manifest: &ResumeManifest, now: u64) -> (r: Option<PartialDownloadInfo>)
    ensures
        match r {
            Some(info) => partial_spec(*entry, manifest@, now) == Some(info@),
            None => partial_spec(*entry, manifest@, now) is None,
        },
{
    let v = chars_of(entry.name.as_str());
    if !ends_with_part(&v) {
        return None;
    }
    let filename = strip_part(entry.name.as_str());
    let (last, total) = match manifest.find(filename.as_str()) {
        Some(e) => (e.last_updated_secs, e.total_bytes),
        None => (0, None),
    };
    let age = now.saturating_sub(last);
    Some(PartialDownloadInfo {
        filename,
        bytes_on_disk: entry.len,
        total_bytes: total,
        last_updated_secs: last,
        is_stale: age > PART_RETENTION_SECS,
    })
}

/// What a recovery scan reports of the directory entries `entries` at time
/// `now`: one record per `.part` file, in directory order.
pub fn scan_partial_entries(entries: &Vec<DirEntryInfo>, manifest: &ResumeManifest, now: u64) -> (r: Vec<PartialDownloadInfo>)
    ensures
        r@.map_values(|p: PartialDownloadInfo| p@) == scan_spec(entries@, manifest@, now),
{
    let mut out: Vec<PartialDownloadInfo> = Vec::new();
    let mut i: usize = 0;
    while i < entries.len()
        invariant
            i <= entries.len(),
            out@.map_values(|p: PartialDownloadInfo| p@) == scan_spec(entries@.take(i as int), manifest@, now),
        decreases entries.len() - i,
    {
        proof {
            assert(entries@.take(i + 1).drop_last() == entries@.take(i as int));
            assert(entries@.take(i + 1).last() == entries@[i as int]);
        }
        let ghost before = out@.map_values(|p: PartialDownloadInfo| p@);
        match partial_download_info(&entries[i], manifest, now) {
            Some(info) => {
                out.push(info);
                proof {
                    assert(out@.map_values(|p: PartialDownloadInfo| p@) =~= before + seq![info@]);
                }
            },
            None => {
                proof {
                    assert(before + Seq::<PartialView>::empty() =~= before);
                }
            },
        }
        i += 1;
    }
    proof {
        assert(entries@.take(entries.len() as int) == entries@);
    }
    out
}

/// Scan the model directory's entries for `.part` files, cross-referenced
/// with the resume manifest and judged stale against the current time.
pub fn scan_partial_downloads(entries: &Vec<DirEntryInfo>, manifest: &ResumeManifest) -> (r: Vec<PartialDownloadInfo>)
    ensures
        exists|now: u64| r@.map_values(|p: PartialDownloadInfo| p@) == #[trigger] scan_spec(entries@, manifest@, now),
{
    let now = unix_now_secs();
    scan_partial_entries(entries, manifest, now)
}

} // verus!
