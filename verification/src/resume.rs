//! The resume manifest (`pending_resume.json`): one entry per interrupted
//! download, keyed by the model's filename.
use vstd::prelude::*;
use crate::text::str_eq;

verus! {

/// One entry of the resume manifest.
#[derive(Debug, Clone)]
pub struct ResumeEntry {
    pub filename: String,
    pub url: String,
    pub bytes_downloaded: u64,
    pub total_bytes: Option<u64>,
    /// Unix timestamp (seconds) when the download was first started.
    pub started_at_secs: u64,
    /// Unix timestamp (seconds) of the last manifest write.
    pub last_updated_secs: u64,
    pub expected_sha256: Option<String>,
    pub expected_etag: Option<String>,
}

/// The whole resume manifest.
#[derive(Debug, Clone)]
pub struct ResumeManifest {
    pub entries: Vec<ResumeEntry>,
}

impl View for ResumeManifest {
    type V = Seq<ResumeEntry>;

    open spec fn view(&self) -> Seq<ResumeEntry> {
        self.entries@
    }
}

// ─── Model ───────────────────────────────────────────────────────────────────

/// Whether some entry of `entries` is for `filename`.
pub open spec fn has_entry(entries: Seq<ResumeEntry>, filename: Seq<char>) -> bool {
    exists|i: int| 0 <= i < entries.len() && #[trigger] entries[i].filename@ == filename
}

/// `i` is the position of the first entry for `filename`.
pub open spec fn is_first_match(entries: Seq<ResumeEntry>, filename: Seq<char>, i: int) -> bool {
    &&& 0 <= i < entries.len()
    &&& entries[i].filename@ == filename
    &&& forall|j: int| 0 <= j < i ==> #[trigger] entries[j].filename@ != filename
}

/// The position of the first entry for `filename` (meaningful when
/// `has_entry(entries, filename)`).
pub open spec fn first_match(entries: Seq<ResumeEntry>, filename: Seq<char>) -> int {
    choose|i: int| is_first_match(entries, filename, i)
}

/// The first entry for `filename`, if any.
pub open spec fn entry_for(entries: Seq<ResumeEntry>, filename: Seq<char>) -> Option<ResumeEntry> {
    if has_entry(entries, filename) {
        Some(entries[first_match(entries, filename)])
    } else {
        None
    }
}

/// `entries` after inserting `entry`, or replacing the first entry with the
/// same filename.
pub open spec fn upsert_spec(entries: Seq<ResumeEntry>, entry: ResumeEntry) -> Seq<ResumeEntry> {
    if has_entry(entries, entry.filename@) {
        entries.update(first_match(entries, entry.filename@), entry)
    } else {
        entries.push(entry)
    }
}

/// Whether an entry is for another file than `filename`.
pub open spec fn other_file(filename: Seq<char>) -> spec_fn(ResumeEntry) -> bool {
    |e: ResumeEntry| e.filename@ != filename
}

/// `entries` without any entry for `filename`, the others in their order.
pub open spec fn remove_spec(entries: Seq<ResumeEntry>, filename: Seq<char>) -> Seq<ResumeEntry> {
    entries.filter(other_file(filename))
}

/// No two entries share a filename.
pub open spec fn filenames_unique(entries: Seq<ResumeEntry>) -> bool {
    forall|i: int, j: int|
        0 <= i < entries.len() && 0 <= j < entries.len() && i != j
            ==> #[trigger] entries[i].filename@ != #[trigger] entries[j].filename@
}

pub proof fn lemma_first_match_unique(entries: Seq<ResumeEntry>, filename: Seq<char>, i: int)
    requires
        is_first_match(entries, filename, i),
    ensures
        has_entry(entries, filename),
        first_match(entries, filename) == i,
{
    assert(entries[i].filename@ == filename);
    let k = first_match(entries, filename);
    assert(is_first_match(entries, filename, k));
    if k < i {
        assert(entries[k].filename@ != filename);
    } else if i < k {
        assert(entries[i].filename@ != filename);
    }
}

proof fn lemma_first_match_below(entries: Seq<ResumeEntry>, filename: Seq<char>, k: int)
    requires
        0 <= k < entries.len(),
        entries[k].filename@ == filename,
    ensures
        is_first_match(entries, filename, first_match(entries, filename)),
    decreases k,
{
    if exists|j: int| 0 <= j < k && #[trigger] entries[j].filename@ == filename {
        let j = choose|j: int| 0 <= j < k && #[trigger] entries[j].filename@ == filename;
        lemma_first_match_below(entries, filename, j);
    } else {
        assert(is_first_match(entries, filename, k));
    }
}

pub proof fn lemma_has_entry_first_match(entries: Seq<ResumeEntry>, filename: Seq<char>)
    requires
        has_entry(entries, filename),
    ensures
        is_first_match(entries, filename, first_match(entries, filename)),
{
    let i = choose|i: int| 0 <= i < entries.len() && #[trigger] entries[i].filename@ == filename;
    lemma_first_match_below(entries, filename, i);
}

/// After an upsert, some entry is for the upserted filename.
pub proof fn lemma_upsert_has_entry(entries: Seq<ResumeEntry>, entry: ResumeEntry)
    ensures
        has_entry(upsert_spec(entries, entry), entry.filename@),
{
    let n = upsert_spec(entries, entry);
    if has_entry(entries, entry.filename@) {
        lemma_has_entry_first_match(entries, entry.filename@);
        let i = first_match(entries, entry.filename@);
        assert(n[i].filename@ == entry.filename@);
    } else {
        assert(n[entries.len() as int].filename@ == entry.filename@);
    }
}

impl Default for ResumeManifest {
    fn default() -> (m: ResumeManifest)
        ensures
            m@ == Seq::<ResumeEntry>::empty(),
    {
        ResumeManifest { entries: Vec::new() }
    }
}

impl ResumeManifest {
    /// An empty manifest.
    pub fn new() -> (m: ResumeManifest)
        ensures
            m@ == Seq::<ResumeEntry>::empty(),
    {
        ResumeManifest { entries: Vec::new() }
    }

    /// The position of the first entry for `filename`, if any.
    pub fn position(&self, filename: &str) -> (r: Option<usize>)
        ensures
            match r {
                Some(i) => is_first_match(self@, filename@, i as int),
                None => !has_entry(self@, filename@),
            },
    {
        let mut i: usize = 0;
        while i < self.entries.len()
            invariant
                i <= self.entries.len(),
                forall|j: int| 0 <= j < i ==> #[trigger] self@[j].filename@ != filename@,
            decreases self.entries.len() - i,
        {
            if str_eq(self.entries[i].filename.as_str(), filename) {
                return Some(i);
            }
            i += 1;
        }
        None
    }

    /// The first entry for `filename`, if any.
    pub fn find(&self, filename: &str) -> (r: Option<&ResumeEntry>)
        ensures
            match r {
                Some(e) => entry_for(self@, filename@) == Some(*e),
                None => entry_for(self@, filename@) is None,
            },
    {
        match self.position(filename) {
            Some(i) => {
                proof {
                    lemma_first_match_unique(self@, filename@, i as int);
                }
                Some(&self.entries[i])
            },
            None => None,
        }
    }

    /// Insert or replace the entry for `entry.filename`.
    pub fn upsert(&mut self, entry: ResumeEntry)
        ensures
            final(self)@ == upsert_spec(old(self)@, entry),
    {
        match self.position(entry.filename.as_str()) {
            Some(i) => {
                proof {
                    lemma_first_match_unique(self@, entry.filename@, i as int);
                }
                self.entries.set(i, entry);
            },
            None => {
                self.entries.push(entry);
            },
        }
    }

    /// Remove every entry for `filename`, keeping the others in order.
    pub fn remove(&mut self, filename: &str)
        ensures
            final(self)@ == remove_spec(old(self)@, filename@),
    {
        let ghost start = self@;
        let mut rest: Vec<ResumeEntry> = Vec::new();
        std::mem::swap(&mut rest, &mut self.entries);
        let mut kept: Vec<ResumeEntry> = Vec::new();
        let ghost mut i: int = 0;
        while rest.len() > 0
            invariant
                0 <= i <= start.len(),
                rest@ == start.skip(i),
                kept@ == remove_spec(start.take(i), filename@),
            decreases rest.len(),
        {
            let e = rest.remove(0);
            proof {
                assert(e == start[i]);
                assert(start.take(i + 1).drop_last() == start.take(i));
                assert(start.take(i + 1).last() == e);
                assert(start.skip(i).drop_first() == start.skip(i + 1));
                reveal_with_fuel(Seq::filter, 1);
            }
            if !str_eq(e.filename.as_str(), filename) {
                kept.push(e);
            }
            proof {
                i = i + 1;
            }
        }
        proof {
            assert(start.take(i) == start);
        }
        self.entries = kept;
    }
}

} // verus!
