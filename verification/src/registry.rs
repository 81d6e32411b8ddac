//! Central download registry.
//!
//! It keeps one slot per model filename that is being downloaded, so the same
//! file is never downloaded twice at once, and one cancellation flag per
//! acquired slot. The cross-process half of the exclusion (an exclusive lock
//! on the file `lock_file_name(filename)` in the lock directory) is taken by
//! the caller; `try_acquire` is told whether it was granted.
//!
//! A released slot's flag stays readable through the tokens handed out for
//! it, so the list of flags only grows: one entry per acquisition.
use vstd::prelude::*;
use crate::text::{push_char, copy_str, str_eq};

verus! {

/// One active download: its filename and the index of its cancellation flag.
struct ActiveEntry {
    filename: String,
    flag: usize,
}

/// Central registry for active model downloads.
pub struct Registry {
    active: Vec<ActiveEntry>,
    flags: Vec<bool>,
}

/// The slot of one acquired download. It must be handed back to
/// `Registry::release` when the download finishes or fails.
pub struct DownloadGuard {
    filename: String,
    flag: usize,
}

/// A handle on the cancellation flag of one acquired download; it stays
/// readable after the slot is released.
pub struct CancellationToken {
    flag: usize,
}

/// Outcome of a `try_acquire` call.
pub enum AcquireResult {
    /// Slot acquired: proceed with the download, then release the guard.
    Acquired(DownloadGuard),
    /// A download for this filename is already in progress, in this process
    /// or in another one holding the filesystem lock.
    AlreadyActive,
}

/// What a registry stands for: the active filenames, each with the index of
/// its cancellation flag, and every flag ever handed out (a released slot's
/// flag stays readable through its tokens).
pub struct RegistryModel {
    pub active: Map<Seq<char>, nat>,
    pub flags: Seq<bool>,
}

spec fn has_name(entries: Seq<ActiveEntry>, f: Seq<char>) -> bool {
    exists|i: int| 0 <= i < entries.len() && #[trigger] entries[i].filename@ == f
}

spec fn flag_of(entries: Seq<ActiveEntry>, f: Seq<char>) -> nat {
    entries[choose|i: int| 0 <= i < entries.len() && #[trigger] entries[i].filename@ == f].flag as nat
}

spec fn active_map(entries: Seq<ActiveEntry>) -> Map<Seq<char>, nat> {
    Map::new(|f: Seq<char>| has_name(entries, f), |f: Seq<char>| flag_of(entries, f))
}

spec fn names_distinct(entries: Seq<ActiveEntry>) -> bool {
    forall|i: int, j: int|
        0 <= i < entries.len() && 0 <= j < entries.len() && i != j
            ==> #[trigger] entries[i].filename@ != #[trigger] entries[j].filename@
}

impl View for Registry {
    type V = RegistryModel;

    closed spec fn view(&self) -> RegistryModel {
        RegistryModel {
            active: active_map(self.active@),
            flags: self.flags@,
        }
    }
}

/// `filename` with path separators and colons replaced by `_`.
pub open spec fn sanitize_spec(filename: Seq<char>) -> Seq<char> {
    filename.map_values(|c: char| if c == '/' || c == '\\' || c == ':' { '_' } else { c })
}

/// The lock file's name for `filename`: `<safe>.lock`.
pub open spec fn lock_file_name_spec(filename: Seq<char>) -> Seq<char> {
    sanitize_spec(filename) + seq!['.', 'l', 'o', 'c', 'k']
}

/// The model after a `try_acquire(filename, lock_granted)`, and whether the
/// slot was acquired.
pub open spec fn acquire_spec(m: RegistryModel, filename: Seq<char>, lock_granted: bool) -> (RegistryModel, bool) {
    if m.active.contains_key(filename) || !lock_granted {
        (m, false)
    } else {
        (RegistryModel {
            active: m.active.insert(filename, m.flags.len()),
            flags: m.flags.push(false),
        }, true)
    }
}

/// The model after `cancel(filename)`, and what it returns.
pub open spec fn cancel_spec(m: RegistryModel, filename: Seq<char>) -> (RegistryModel, bool) {
    if m.active.contains_key(filename) {
        (RegistryModel {
            active: m.active,
            flags: m.flags.update(m.active[filename] as int, true),
        }, true)
    } else {
        (m, false)
    }
}

/// The model after the guard for `filename` is released.
pub open spec fn release_spec(m: RegistryModel, filename: Seq<char>) -> RegistryModel {
    RegistryModel { active: m.active.remove(filename), flags: m.flags }
}

/// Every active slot refers to a flag that exists, and no two active slots
/// share a flag.
pub open spec fn model_wf(m: RegistryModel) -> bool {
    &&& forall|f: Seq<char>| #[trigger] m.active.contains_key(f) ==> m.active[f] < m.flags.len()
    &&& forall|f: Seq<char>, g: Seq<char>|
        #[trigger] m.active.contains_key(f) && #[trigger] m.active.contains_key(g) && f != g
            ==> m.active[f] != m.active[g]
}

proof fn lemma_flag_of(entries: Seq<ActiveEntry>, i: int)
    requires
        names_distinct(entries),
        0 <= i < entries.len(),
    ensures
        has_name(entries, entries[i].filename@),
        flag_of(entries, entries[i].filename@) == entries[i].flag as nat,
{
    let f = entries[i].filename@;
    assert(entries[i].filename@ == f);
    let k = choose|k: int| 0 <= k < entries.len() && #[trigger] entries[k].filename@ == f;
    assert(k == i);
}

impl Registry {
    /// Well-formedness: no filename is active twice, every active slot
    /// refers to an existing flag, and no two slots share a flag.
    pub closed spec fn wf(&self) -> bool {
        &&& names_distinct(self.active@)
        &&& forall|i: int| 0 <= i < self.active@.len() ==> #[trigger] self.active@[i].flag < self.flags@.len()
        &&& forall|i: int, j: int| 0 <= i < self.active@.len() && 0 <= j < self.active@.len() && i != j
            ==> #[trigger] self.active@[i].flag != #[trigger] self.active@[j].flag
    }

    /// Every state of a registry keeps every active slot on an existing
    /// cancellation flag of its own.
    pub proof fn law_slots_have_flags(&self)
        requires
            self.wf(),
        ensures
            model_wf(self@),
    {
        assert forall|f: Seq<char>| #[trigger] self@.active.contains_key(f) implies self@.active[f] < self@.flags.len() by {
            let i = choose|i: int| 0 <= i < self.active@.len() && #[trigger] self.active@[i].filename@ == f;
            lemma_flag_of(self.active@, i);
        }
        assert forall|f: Seq<char>, g: Seq<char>|
            #[trigger] self@.active.contains_key(f) && #[trigger] self@.active.contains_key(g) && f != g
                implies self@.active[f] != self@.active[g] by {
            let i = choose|i: int| 0 <= i < self.active@.len() && #[trigger] self.active@[i].filename@ == f;
            let j = choose|j: int| 0 <= j < self.active@.len() && #[trigger] self.active@[j].filename@ == g;
            lemma_flag_of(self.active@, i);
            lemma_flag_of(self.active@, j);
        }
    }

    /// A new registry, with no active download.
    pub fn new() -> (r: Registry)
        ensures
            r.wf(),
            r@.active == Map::<Seq<char>, nat>::empty(),
            r@.flags == Seq::<bool>::empty(),
    {
        let r = Registry { active: Vec::new(), flags: Vec::new() };
        proof {
            assert(r@.active =~= Map::<Seq<char>, nat>::empty());
        }
        r
    }

    fn position(&self, filename: &str) -> (r: Option<usize>)
        requires
            self.wf(),
        ensures
            match r {
                Some(i) => i < self.active@.len() && self.active@[i as int].filename@ == filename@,
                None => !has_name(self.active@, filename@),
            },
    {
        let mut i: usize = 0;
        while i < self.active.len()
            invariant
                i <= self.active.len(),
                forall|j: int| 0 <= j < i ==> #[trigger] self.active@[j].filename@ != filename@,
            decreases self.active.len() - i,
        {
            if str_eq(self.active[i].filename.as_str(), filename) {
                return Some(i);
            }
            i += 1;
        }
        None
    }

    /// Try to take the download slot for `filename`. The slot is taken when
    /// no download of `filename` is active here and the caller obtained the
    /// exclusive filesystem lock (`lock_granted`); otherwise the download is
    /// already active.
    pub fn try_acquire(&mut self, filename: &str, lock_granted: bool) -> (r: AcquireResult)
        requires
            old(self).wf(),
        ensures
            final(self).wf(),
            (final(self)@, r is Acquired) == acquire_spec(old(self)@, filename@, lock_granted),
            match r {
                AcquireResult::Acquired(g) => g@ == (filename@, old(self)@.flags.len()),
                AcquireResult::AlreadyActive => true,
            },
    {
        let found = self.position(filename);
        if found.is_some() || !lock_granted {
            proof {
                match found {
                    Some(i) => {
                        assert(self.active@[i as int].filename@ == filename@);
                    },
                    None => {},
                }
            }
            return AcquireResult::AlreadyActive;
        }
        let id = self.flags.len();
        let ghost old_entries = self.active@;
        self.flags.push(false);
        self.active.push(ActiveEntry { filename: copy_str(filename), flag: id });
        proof {
            let n = self.active@.len() - 1;
            assert forall|i: int, j: int|
                0 <= i < self.active@.len() && 0 <= j < self.active@.len() && i != j
                    implies #[trigger] self.active@[i].filename@ != #[trigger] self.active@[j].filename@ by {
                if i == n {
                    assert(old_entries[j].filename@ != filename@);
                } else if j == n {
                    assert(old_entries[i].filename@ != filename@);
                } else {
                    assert(old_entries[i] == self.active@[i]);
                }
            }
            assert forall|f: Seq<char>| true implies
                #[trigger] active_map(self.active@).contains_key(f) == old(self)@.active.insert(filename@, id as nat).contains_key(f)
                && (active_map(self.active@).contains_key(f) ==> active_map(self.active@)[f] == old(self)@.active.insert(filename@, id as nat)[f]) by {
                if f == filename@ {
                    lemma_flag_of(self.active@, n);
                } else if has_name(old_entries, f) {
                    let i = choose|i: int| 0 <= i < old_entries.len() && #[trigger] old_entries[i].filename@ == f;
                    lemma_flag_of(old_entries, i);
                    assert(self.active@[i] == old_entries[i]);
                    lemma_flag_of(self.active@, i);
                } else {
                    if has_name(self.active@, f) {
                        let i = choose|i: int| 0 <= i < self.active@.len() && #[trigger] self.active@[i].filename@ == f;
                        assert(i != n);
                        assert(old_entries[i] == self.active@[i]);
                    }
                }
            }
            assert(active_map(self.active@) =~= old(self)@.active.insert(filename@, id as nat));
            assert forall|i: int, j: int| 0 <= i < self.active@.len() && 0 <= j < self.active@.len() && i != j
                implies #[trigger] self.active@[i].flag != #[trigger] self.active@[j].flag by {
                if i != n {
                    assert(old_entries[i] == self.active@[i]);
                }
                if j != n {
                    assert(old_entries[j] == self.active@[j]);
                }
            }
        }
        AcquireResult::Acquired(DownloadGuard { filename: copy_str(filename), flag: id })
    }

    /// Signal cancellation to the download of `filename`. Returns `true` if
    /// a download was active for it and is now flagged, `false` otherwise.
    pub fn cancel(&mut self, filename: &str) -> (r: bool)
        requires
            old(self).wf(),
        ensures
            final(self).wf(),
            (final(self)@, r) == cancel_spec(old(self)@, filename@),
    {
        match self.position(filename) {
            Some(i) => {
                let id = self.active[i].flag;
                proof {
                    lemma_flag_of(self.active@, i as int);
                }
                self.flags.set(id, true);
                true
            },
            None => false,
        }
    }

    /// Returns `true` if a download is currently active for `filename`.
    pub fn is_active(&self, filename: &str) -> (r: bool)
        requires
            self.wf(),
        ensures
            r == self@.active.contains_key(filename@),
    {
        self.position(filename).is_some()
    }

    /// The filenames of all currently active downloads, each once.
    pub fn active_downloads(&self) -> (r: Vec<String>)
        requires
            self.wf(),
        ensures
            r@.len() == self@.active.len(),
            forall|i: int, j: int| 0 <= i < r@.len() && 0 <= j < r@.len() && i != j
                ==> #[trigger] r@[i]@ != #[trigger] r@[j]@,
            forall|f: Seq<char>| self@.active.contains_key(f)
                <==> exists|i: int| 0 <= i < r@.len() && #[trigger] r@[i]@ == f,
    {
        let mut r: Vec<String> = Vec::new();
        let mut i: usize = 0;
        while i < self.active.len()
            invariant
                self.wf(),
                i <= self.active.len(),
                r@.len() == i,
                forall|j: int| 0 <= j < i ==> #[trigger] r@[j]@ == self.active@[j].filename@,
            decreases self.active.len() - i,
        {
            r.push(copy_str(self.active[i].filename.as_str()));
            i += 1;
        }
        proof {
            assert forall|f: Seq<char>| self@.active.contains_key(f) implies
                exists|i: int| 0 <= i < r@.len() && #[trigger] r@[i]@ == f by {
                let k = choose|k: int| 0 <= k < self.active@.len() && #[trigger] self.active@[k].filename@ == f;
                assert(r@[k]@ == f);
            }
            assert forall|f: Seq<char>| (exists|i: int| 0 <= i < r@.len() && #[trigger] r@[i]@ == f)
                implies self@.active.contains_key(f) by {
                let k = choose|k: int| 0 <= k < r@.len() && #[trigger] r@[k]@ == f;
                assert(self.active@[k].filename@ == f);
            }
            let dom = self@.active.dom();
            let names = Seq::new(self.active@.len(), |k: int| self.active@[k].filename@);
            assert forall|k: int| 0 <= k < names.len() implies dom.contains(#[trigger] names[k]) by {
                assert(self.active@[k].filename@ == names[k]);
            }
            assert(names.no_duplicates()) by {
                assert forall|a: int, b: int| 0 <= a < names.len() && 0 <= b < names.len() && a != b
                    implies names[a] != names[b] by {
                    assert(self.active@[a].filename@ != self.active@[b].filename@);
                }
            }
            assert(names.to_set() =~= dom) by {
                assert forall|f: Seq<char>| dom.contains(f) implies names.to_set().contains(f) by {
                    let k = choose|k: int| 0 <= k < self.active@.len() && #[trigger] self.active@[k].filename@ == f;
                    assert(names[k] == f);
                }
            }
            names.unique_seq_to_set();
        }
        r
    }

    /// The name of the lock file for `filename` in the lock directory:
    /// `<safe>.lock`, where `/`, `\` and `:` in the filename are replaced
    /// with `_`.
    pub fn lock_file_name(filename: &str) -> (r: String)
        ensures
            r@ == lock_file_name_spec(filename@),
    {
        let mut safe = String::new();
        for c in it: filename.chars()
            invariant
                safe@ == sanitize_spec(it.seq().take(it.index())),
        {
            proof {
                assert(sanitize_spec(it.seq().take(it.index() + 1)) =~= sanitize_spec(it.seq().take(it.index())).push(
                    if c == '/' || c == '\\' || c == ':' { '_' } else { c }));
            }
            if c == '/' || c == '\\' || c == ':' {
                push_char(&mut safe, '_');
            } else {
                push_char(&mut safe, c);
            }
        }
        push_char(&mut safe, '.');
        push_char(&mut safe, 'l');
        push_char(&mut safe, 'o');
        push_char(&mut safe, 'c');
        push_char(&mut safe, 'k');
        proof {
            assert(safe@ =~= sanitize_spec(filename@) + seq!['.', 'l', 'o', 'c', 'k']);
        }
        safe
    }

    /// Release the slot of `guard` (the end of its download): the filename
    /// is no longer active. Its cancellation flag stays readable.
    pub fn release(&mut self, guard: DownloadGuard)
        requires
            old(self).wf(),
        ensures
            final(self).wf(),
            final(self)@ == release_spec(old(self)@, guard@.0),
    {
        match self.position(guard.filename.as_str()) {
            Some(i) => {
                let ghost old_entries = self.active@;
                let ghost f = guard.filename@;
                self.active.remove(i);
                proof {
                    assert forall|a: int| 0 <= a < self.active@.len() implies
                        #[trigger] self.active@[a] == old_entries[if a < i { a } else { a + 1 }] by {}
                    assert forall|g: Seq<char>| true implies
                        #[trigger] active_map(self.active@).contains_key(g) == old(self)@.active.remove(f).contains_key(g)
                        && (active_map(self.active@).contains_key(g) ==> active_map(self.active@)[g] == old(self)@.active.remove(f)[g]) by {
                        if has_name(self.active@, g) {
                            let a = choose|a: int| 0 <= a < self.active@.len() && #[trigger] self.active@[a].filename@ == g;
                            let b = if a < i { a } else { a + 1 };
                            assert(old_entries[b].filename@ == g);
                            assert(b != i);
                            lemma_flag_of(old_entries, b);
                            lemma_flag_of(self.active@, a);
                        } else if has_name(old_entries, g) && g != f {
                            let b = choose|b: int| 0 <= b < old_entries.len() && #[trigger] old_entries[b].filename@ == g;
                            assert(b != i);
                            let a = if b < i { b } else { b - 1 };
                            assert(self.active@[a].filename@ == g);
                        }
                    }
                    assert(active_map(self.active@) =~= old(self)@.active.remove(f));
                }
            },
            None => {
                proof {
                    assert(active_map(self.active@) =~= old(self)@.active.remove(guard.filename@));
                }
            },
        }
    }
}

impl View for DownloadGuard {
    type V = (Seq<char>, nat);

    closed spec fn view(&self) -> (Seq<char>, nat) {
        (self.filename@, self.flag as nat)
    }
}

impl DownloadGuard {
    /// Signal that this download should be cancelled.
    pub fn cancel(&self, registry: &mut Registry)
        requires
            old(registry).wf(),
            self@.1 < old(registry)@.flags.len(),
        ensures
            final(registry).wf(),
            final(registry)@ == (RegistryModel {
                active: old(registry)@.active,
                flags: old(registry)@.flags.update(self@.1 as int, true),
            }),
    {
        registry.flags.set(self.flag, true);
    }

    /// Returns `true` if cancellation has been requested.
    pub fn is_cancelled(&self, registry: &Registry) -> (r: bool)
        requires
            self@.1 < registry@.flags.len(),
        ensures
            r == registry@.flags[self@.1 as int],
    {
        registry.flags[self.flag]
    }

    /// A handle on this download's cancellation flag.
    pub fn cancellation_token(&self) -> (t: CancellationToken)
        ensures
            t@ == self@.1,
    {
        CancellationToken { flag: self.flag }
    }

    /// The filename this guard protects.
    pub fn filename(&self) -> (r: &str)
        ensures
            r@ == self@.0,
    {
        self.filename.as_str()
    }
}

impl View for CancellationToken {
    type V = nat;

    closed spec fn view(&self) -> nat {
        self.flag as nat
    }
}

impl CancellationToken {
    /// Whether cancellation of the download has been requested.
    pub fn load(&self, registry: &Registry) -> (r: bool)
        requires
            self@ < registry@.flags.len(),
        ensures
            r == registry@.flags[self@ as int],
    {
        registry.flags[self.flag]
    }
}

} // verus!
