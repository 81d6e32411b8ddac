//! Properties of the library that span several operations or hold of every
//! state, proved over the models that the operations' contracts use.
use vstd::prelude::*;
use crate::resume::{ResumeEntry, has_entry, first_match, is_first_match, entry_for, upsert_spec, remove_spec,
    filenames_unique, lemma_has_entry_first_match, lemma_first_match_unique};
use crate::registry::{RegistryModel, acquire_spec, release_spec, cancel_spec, model_wf};
use crate::download::{MachineModel, Observation, Phase, Command, Effect, Notice, DownloadError, ValidationOutcome,
    ResponseInfo, MANIFEST_UPDATE_INTERVAL, next, reject_spec, entry_spec, is_gguf_magic_spec};
use crate::binary::{SUPPORTED_LLAMA_VERSION, release_asset, release_url, status_spec, BinaryStatusView,
    is_traversal_name, entry_matches_spec, InstallModel, InstallObservation, InstallCommand, InstallPhase,
    InstallError, install_next};
use crate::text::{starts_with, ends_with, contains_piece};
use crate::recovery::{DirEntryInfo, PartialView, partial_spec, scan_spec, part_suffix, strip_part_suffixes};
use crate::disks::{DiskInfo, best_mount, ancestor_free, max_available, free_bytes_spec};
use crate::paths::{ComponentView, components_view, parent_components};

verus! {

// ─── Resume manifest ─────────────────────────────────────────────────────────

/// After `upsert(entry)`, looking up `entry.filename` gives `entry`.
pub proof fn law_upsert_then_lookup(m: Seq<ResumeEntry>, entry: ResumeEntry)
    ensures
        entry_for(upsert_spec(m, entry), entry.filename@) == Some(entry),
{
    let f = entry.filename@;
    let n = upsert_spec(m, entry);
    if has_entry(m, f) {
        lemma_has_entry_first_match(m, f);
        let i = first_match(m, f);
        assert(is_first_match(n, f, i));
        lemma_first_match_unique(n, f, i);
    } else {
        let i = m.len() as int;
        assert forall|j: int| 0 <= j < i implies #[trigger] n[j].filename@ != f by {
            assert(n[j] == m[j]);
        }
        assert(is_first_match(n, f, i));
        lemma_first_match_unique(n, f, i);
    }
}

/// `upsert(entry)` leaves the lookup of every other filename unchanged.
pub proof fn law_upsert_keeps_others(m: Seq<ResumeEntry>, entry: ResumeEntry, other: Seq<char>)
    requires
        other != entry.filename@,
    ensures
        entry_for(upsert_spec(m, entry), other) == entry_for(m, other),
{
    let f = entry.filename@;
    let n = upsert_spec(m, entry);
    let replaced: int = if has_entry(m, f) { first_match(m, f) } else { m.len() as int };
    if has_entry(m, f) {
        lemma_has_entry_first_match(m, f);
    }
    assert forall|j: int| 0 <= j < n.len() && j != replaced implies #[trigger] n[j] == m[j] by {}
    if has_entry(m, other) {
        lemma_has_entry_first_match(m, other);
        let k = first_match(m, other);
        assert(k != replaced);
        assert forall|j: int| 0 <= j < k implies #[trigger] n[j].filename@ != other by {
            if j == replaced {
            } else {
                assert(n[j] == m[j]);
            }
        }
        assert(is_first_match(n, other, k));
        lemma_first_match_unique(n, other, k);
    } else {
        assert forall|j: int| 0 <= j < n.len() implies #[trigger] n[j].filename@ != other by {
            if j != replaced {
                assert(n[j] == m[j]);
            }
        }
    }
}

/// `upsert` never duplicates a filename: a manifest without duplicate
/// filenames keeps none, and it grows by one entry exactly when the
/// filename was new.
pub proof fn law_upsert_no_duplicates(m: Seq<ResumeEntry>, entry: ResumeEntry)
    requires
        filenames_unique(m),
    ensures
        filenames_unique(upsert_spec(m, entry)),
        upsert_spec(m, entry).len() == if has_entry(m, entry.filename@) { m.len() } else { m.len() + 1 },
{
    let f = entry.filename@;
    let n = upsert_spec(m, entry);
    if has_entry(m, f) {
        lemma_has_entry_first_match(m, f);
        let r = first_match(m, f);
        assert forall|i: int, j: int| 0 <= i < n.len() && 0 <= j < n.len() && i != j
            implies #[trigger] n[i].filename@ != #[trigger] n[j].filename@ by {
            if i == r {
                assert(m[j].filename@ != m[r].filename@);
            } else if j == r {
                assert(m[i].filename@ != m[r].filename@);
            } else {
                assert(m[i].filename@ != m[j].filename@);
            }
        }
    } else {
        assert forall|i: int, j: int| 0 <= i < n.len() && 0 <= j < n.len() && i != j
            implies #[trigger] n[i].filename@ != #[trigger] n[j].filename@ by {
            if i == m.len() {
                assert(n[j] == m[j]);
            } else if j == m.len() {
                assert(n[i] == m[i]);
            } else {
                assert(m[i].filename@ != m[j].filename@);
            }
        }
    }
}

/// After `remove(filename)` no entry is for `filename`; every entry for
/// another filename stays, and nothing new appears.
pub proof fn law_remove_forgets_only_filename(m: Seq<ResumeEntry>, filename: Seq<char>)
    ensures
        !has_entry(remove_spec(m, filename), filename),
        forall|i: int| 0 <= i < m.len() && m[i].filename@ != filename
            ==> remove_spec(m, filename).contains(#[trigger] m[i]),
        forall|e: ResumeEntry| #[trigger] remove_spec(m, filename).contains(e) ==> m.contains(e),
{
    let pred = crate::resume::other_file(filename);
    let r = remove_spec(m, filename);
    broadcast use vstd::seq_lib::group_filter_ensures;
    assert forall|i: int| 0 <= i < r.len() implies #[trigger] r[i].filename@ != filename by {
        assert(pred(r[i]));
    }
    assert forall|e: ResumeEntry| #[trigger] r.contains(e) implies m.contains(e) by {
        m.lemma_filter_contains_rev(pred, e);
    }
    assert forall|i: int| 0 <= i < m.len() && m[i].filename@ != filename implies r.contains(#[trigger] m[i]) by {
        assert(pred(m[i]));
        assert(m.contains(m[i]));
    }
}

proof fn lemma_filter_keeps_all(s: Seq<ResumeEntry>, pred: spec_fn(ResumeEntry) -> bool)
    requires
        forall|i: int| 0 <= i < s.len() ==> pred(#[trigger] s[i]),
    ensures
        s.filter(pred) == s,
    decreases s.len(),
{
    reveal(Seq::filter);
    if s.len() > 0 {
        lemma_filter_keeps_all(s.drop_last(), pred);
        assert(s.drop_last().push(s.last()) =~= s);
    }
}

/// Removing a filename twice is removing it once; removing a filename that
/// has no entry changes nothing.
pub proof fn law_remove_idempotent(m: Seq<ResumeEntry>, filename: Seq<char>)
    ensures
        remove_spec(remove_spec(m, filename), filename) == remove_spec(m, filename),
        !has_entry(m, filename) ==> remove_spec(m, filename) == m,
{
    let pred = crate::resume::other_file(filename);
    let r = remove_spec(m, filename);
    broadcast use vstd::seq_lib::group_filter_ensures;
    assert forall|i: int| 0 <= i < r.len() implies pred(#[trigger] r[i]) by {}
    lemma_filter_keeps_all(r, pred);
    if !has_entry(m, filename) {
        assert forall|i: int| 0 <= i < m.len() implies pred(#[trigger] m[i]) by {
            if m[i].filename@ == filename {
                assert(has_entry(m, filename));
            }
        }
        lemma_filter_keeps_all(m, pred);
    }
}

/// Recording a new download and then removing its filename gives back the
/// manifest as it was.
pub proof fn law_upsert_then_remove_restores(m: Seq<ResumeEntry>, entry: ResumeEntry)
    requires
        !has_entry(m, entry.filename@),
    ensures
        remove_spec(upsert_spec(m, entry), entry.filename@) == m,
{
    let f = entry.filename@;
    let pred = crate::resume::other_file(f);
    assert(upsert_spec(m, entry) == m.push(entry));
    assert(m.push(entry).drop_last() =~= m);
    reveal(Seq::filter);
    assert(m.push(entry).filter(pred) == m.filter(pred));
    law_remove_idempotent(m, f);
}

// ─── Registry ────────────────────────────────────────────────────────────────

/// A filename whose slot was acquired cannot be acquired again: the second
/// `try_acquire` reports it active and changes nothing.
pub proof fn law_no_duplicate_download(m: RegistryModel, filename: Seq<char>, lock1: bool, lock2: bool)
    requires
        acquire_spec(m, filename, lock1).1,
    ensures
        !acquire_spec(acquire_spec(m, filename, lock1).0, filename, lock2).1,
        acquire_spec(acquire_spec(m, filename, lock1).0, filename, lock2).0 == acquire_spec(m, filename, lock1).0,
{
}

/// Releasing an acquired slot frees it: the filename is no longer active
/// and can be acquired again.
pub proof fn law_release_frees_slot(m: RegistryModel, filename: Seq<char>)
    requires
        acquire_spec(m, filename, true).1,
    ensures
        !release_spec(acquire_spec(m, filename, true).0, filename).active.contains_key(filename),
        acquire_spec(release_spec(acquire_spec(m, filename, true).0, filename), filename, true).1,
{
}

/// A new slot's cancellation flag starts clear; cancelling the filename
/// through the registry finds it and sets exactly that flag.
pub proof fn law_cancel_reaches_guard(m: RegistryModel, filename: Seq<char>)
    requires
        model_wf(m),
        acquire_spec(m, filename, true).1,
    ensures
        !acquire_spec(m, filename, true).0.flags[m.flags.len() as int],
        cancel_spec(acquire_spec(m, filename, true).0, filename).1,
        cancel_spec(acquire_spec(m, filename, true).0, filename).0.flags[m.flags.len() as int],
        forall|i: int| 0 <= i < m.flags.len() ==>
            cancel_spec(acquire_spec(m, filename, true).0, filename).0.flags[i] == m.flags[i],
{
}

/// Cancelling a filename with no active download reports `false` and
/// changes nothing.
pub proof fn law_cancel_inactive(m: RegistryModel, filename: Seq<char>)
    requires
        !m.active.contains_key(filename),
    ensures
        cancel_spec(m, filename) == (m, false),
{
}

/// Cancelling one download sets its flag alone: every other active
/// download keeps its flag as it was, and the set of active downloads is
/// unchanged.
pub proof fn law_cancel_leaves_other_downloads(m: RegistryModel, filename: Seq<char>, other: Seq<char>)
    requires
        model_wf(m),
        m.active.contains_key(other),
        other != filename,
    ensures
        cancel_spec(m, filename).0.active == m.active,
        cancel_spec(m, filename).0.flags[m.active[other] as int] == m.flags[m.active[other] as int],
{
    if m.active.contains_key(filename) {
        assert(m.active[other] != m.active[filename]);
    }
}

/// Acquiring, cancelling and releasing keep every slot on an existing flag,
/// never clear a flag, and leave the other filenames' activity alone.
pub proof fn law_registry_operations_keep_flags(m: RegistryModel, filename: Seq<char>, other: Seq<char>, lock: bool)
    requires
        model_wf(m),
        other != filename,
    ensures
        model_wf(acquire_spec(m, filename, lock).0),
        model_wf(cancel_spec(m, filename).0),
        model_wf(release_spec(m, filename)),
        forall|i: int| 0 <= i < m.flags.len() && m.flags[i] ==> acquire_spec(m, filename, lock).0.flags[i],
        forall|i: int| 0 <= i < m.flags.len() && m.flags[i] ==> cancel_spec(m, filename).0.flags[i],
        forall|i: int| 0 <= i < m.flags.len() && m.flags[i] ==> release_spec(m, filename).flags[i],
        acquire_spec(m, filename, lock).0.active.contains_key(other) == m.active.contains_key(other),
        release_spec(m, filename).active.contains_key(other) == m.active.contains_key(other),
{
    let a = acquire_spec(m, filename, lock).0;
    assert forall|f: Seq<char>| #[trigger] a.active.contains_key(f) implies a.active[f] < a.flags.len() by {
        if f != filename && m.active.contains_key(f) {
            assert(m.active[f] < m.flags.len());
        }
    }
    let c = cancel_spec(m, filename).0;
    assert forall|f: Seq<char>| #[trigger] c.active.contains_key(f) implies c.active[f] < c.flags.len() by {
        assert(m.active[f] < m.flags.len());
    }
    let r = release_spec(m, filename);
    assert forall|f: Seq<char>| #[trigger] r.active.contains_key(f) implies r.active[f] < r.flags.len() by {
        assert(m.active[f] < m.flags.len());
    }
}

// ─── Binary manager ──────────────────────────────────────────────────────────

/// Every supported platform's release URL uses HTTPS, names the pinned
/// version, and points to a zip archive.
pub proof fn law_release_url_shape(os: Seq<char>, arch: Seq<char>)
    requires
        release_asset(os, arch) is Some,
    ensures
        starts_with(release_url(SUPPORTED_LLAMA_VERSION@, release_asset(os, arch).unwrap().0), "https://"@),
        contains_piece(release_url(SUPPORTED_LLAMA_VERSION@, release_asset(os, arch).unwrap().0), SUPPORTED_LLAMA_VERSION@),
        ends_with(release_url(SUPPORTED_LLAMA_VERSION@, release_asset(os, arch).unwrap().0), ".zip"@),
{
    reveal_strlit("https://github.com/ggerganov/llama.cpp/releases/download/");
    reveal_strlit("https://");
    reveal_strlit("/llama-");
    reveal_strlit(".zip");
    reveal_strlit("b5234");
    reveal_strlit("-bin-win-avx2-x64.zip");
    reveal_strlit("-bin-macos-arm64.zip");
    reveal_strlit("-bin-macos-x64.zip");
    reveal_strlit("-bin-ubuntu-x64.zip");
    let v = SUPPORTED_LLAMA_VERSION@;
    let suffix = release_asset(os, arch).unwrap().0;
    let url = release_url(v, suffix);
    let prefix = "https://github.com/ggerganov/llama.cpp/releases/download/"@;
    assert(url.subrange(0, 8) =~= "https://"@);
    assert(url.subrange(prefix.len() as int, (prefix.len() + v.len()) as int) =~= v);
    assert(url.subrange(url.len() - 4, url.len() as int) =~= ".zip"@);
}

/// The pinned version is never replaced silently: an installation whose
/// lock names another version is reported out of date, with both versions,
/// and only the pinned version is reported installed.
pub proof fn law_no_silent_update(binary_exists: bool, lock: Option<Seq<char>>)
    ensures
        status_spec(binary_exists, lock) matches BinaryStatusView::Installed(v) ==> v == SUPPORTED_LLAMA_VERSION@,
        (binary_exists && (lock matches Some(v) && v != SUPPORTED_LLAMA_VERSION@))
            ==> status_spec(binary_exists, lock) == BinaryStatusView::OutOfDate(lock.unwrap(), SUPPORTED_LLAMA_VERSION@),
        !binary_exists ==> status_spec(binary_exists, lock) == BinaryStatusView::NotInstalled,
{
}

/// An archive entry that could escape the destination is never extracted.
pub proof fn law_extraction_skips_traversal(name: Seq<char>, entry: Seq<char>)
    requires
        is_traversal_name(name),
    ensures
        !entry_matches_spec(name, entry),
{
}

/// The version lock is written only once the binary is in place: the
/// command to write it follows a successful extraction (and, on Unix, a
/// successful permission change).
pub proof fn law_lock_written_after_binary(s: InstallModel, obs: InstallObservation)
    requires
        s.phase != InstallPhase::WritingLock,
        install_next(s, obs).1 == InstallCommand::RemoveArchiveThenWriteLock,
    ensures
        (s.phase == InstallPhase::Extracting && !s.unix && obs matches InstallObservation::BinaryExtracted(Ok(_)))
        || (s.phase == InstallPhase::MarkingExecutable && obs matches InstallObservation::MadeExecutable(Ok(_))),
{
}

/// A tampered archive is never installed: when its SHA256 differs from the
/// published one, the archive is deleted and the installation ends with
/// the mismatch, before anything is extracted.
pub proof fn law_tampered_archive_rejected(s: InstallModel, actual: String)
    requires
        s.phase == InstallPhase::Verifying,
        s.release.sha256 matches Some(expected) && expected@ != actual@,
    ensures
        install_next(s, InstallObservation::DigestComputed(Ok(actual))).1 == InstallCommand::RemoveArchiveThenFinish,
        install_next(s, InstallObservation::DigestComputed(Ok(actual))).0.result
            matches Some(Err(InstallError::DigestMismatch(e))) && e.actual == actual,
{
}

// ─── Download machine ────────────────────────────────────────────────────────

/// A finished download stays finished: nothing it observes changes it.
pub proof fn law_finished_is_final(s: MachineModel, obs: Observation, now: u64)
    requires
        s.phase == Phase::Finished,
    ensures
        next(s, obs, now).0 == s,
        next(s, obs, now).1.command == Command::Finish,
        next(s, obs, now).1.effects.len() == 0,
{
}

/// Every written chunk is counted and reported: the byte count grows by the
/// chunk's length, the progress notice carries the new count, and the
/// manifest is saved whenever 5 MiB have been written since the last save,
/// so fewer than 5 MiB are ever unsaved.
pub proof fn law_chunk_accounting(s: MachineModel, len: u64, now: u64)
    requires
        s.phase == Phase::Transferring,
        s.bytes_downloaded + len <= u64::MAX,
        s.bytes_since_manifest <= s.bytes_downloaded,
    ensures
        next(s, Observation::ChunkWritten(len), now).0.bytes_downloaded == s.bytes_downloaded + len,
        next(s, Observation::ChunkWritten(len), now).1.effects[0] == Effect::Notify(Notice::Progress {
            bytes_downloaded: (s.bytes_downloaded + len) as u64,
            total_bytes: s.preflight.content_length,
        }),
        next(s, Observation::ChunkWritten(len), now).0.bytes_since_manifest < MANIFEST_UPDATE_INTERVAL,
        s.bytes_since_manifest + len >= MANIFEST_UPDATE_INTERVAL ==> {
            &&& next(s, Observation::ChunkWritten(len), now).1.effects.contains(Effect::SaveManifestQuietly)
            &&& entry_for(next(s, Observation::ChunkWritten(len), now).0.manifest, s.request.filename@)
                == Some(entry_spec(s.request, (s.bytes_downloaded + len) as u64, s.preflight.content_length, s.started_at, now))
        },
        next(s, Observation::ChunkWritten(len), now).1.command == Command::NextChunk,
{
    let t = MachineModel {
        bytes_downloaded: (s.bytes_downloaded + len) as u64,
        bytes_since_manifest: (s.bytes_since_manifest + len) as u64,
        ..s
    };
    law_upsert_then_lookup(t.manifest, entry_spec(t.request, t.bytes_downloaded, t.preflight.content_length, t.started_at, now));
    if s.bytes_since_manifest + len >= MANIFEST_UPDATE_INTERVAL {
        assert(next(s, Observation::ChunkWritten(len), now).1.effects[1] == Effect::SaveManifestQuietly);
    }
}

/// A cancelled download keeps its resume point: the manifest records the
/// bytes written so far, it is saved, `Cancelled` is reported, and the
/// download ends with `Cancelled`; the part file is kept.
pub proof fn law_cancel_keeps_resume_point(s: MachineModel, now: u64)
    requires
        s.phase == Phase::Transferring,
    ensures
        entry_for(next(s, Observation::CancelRequested, now).0.manifest, s.request.filename@)
            == Some(entry_spec(s.request, s.bytes_downloaded, s.preflight.content_length, s.started_at, now)),
        next(s, Observation::CancelRequested, now).1.effects
            == seq![Effect::FlushPartQuietly, Effect::SaveManifestQuietly, Effect::Notify(Notice::Cancelled)],
        next(s, Observation::CancelRequested, now).0.result == Some(Err::<ValidationOutcome, DownloadError>(DownloadError::Cancelled)),
{
    law_upsert_then_lookup(s.manifest, entry_spec(s.request, s.bytes_downloaded, s.preflight.content_length, s.started_at, now));
}

/// A file that fails validation is deleted and forgotten: the part file is
/// removed, the manifest loses its entry and is saved, the failure is
/// reported, and the download ends with that failure.
pub proof fn law_rejected_file_is_removed(s: MachineModel, e: DownloadError)
    ensures
        !has_entry(reject_spec(s, e).0.manifest, s.request.filename@),
        reject_spec(s, e).1.effects == seq![Effect::RemovePartQuietly, Effect::SaveManifestQuietly,
            Effect::Notify(Notice::Failed(e))],
        reject_spec(s, e).0.result == Some(Err::<ValidationOutcome, DownloadError>(e)),
        reject_spec(s, e).1.command == Command::Finish,
{
    law_remove_forgets_only_filename(s.manifest, s.request.filename@);
}

/// A validated file is moved into place only after validation: the
/// machine enters the renaming phase only from a matching SHA256, or from
/// GGUF magic bytes at the end of the structural checks.
pub proof fn law_rename_only_after_validation(s: MachineModel, obs: Observation, now: u64)
    requires
        s.phase != Phase::Renaming,
        next(s, obs, now).0.phase == Phase::Renaming,
    ensures
        (s.phase == Phase::Hashing && (obs matches Observation::DigestComputed(Ok(actual))
            && lowercase_matches(actual@, s.request.expected_sha256.unwrap()@)
            && next(s, obs, now).0.outcome == Some(ValidationOutcome::Sha256Verified)))
        || (s.phase == Phase::CheckingMagic && (obs matches Observation::MagicRead(Ok(bytes))
            && is_gguf_magic_spec(bytes@))),
{
}

/// The two SHA256 digests agree once both are lowercased.
pub open spec fn lowercase_matches(a: Seq<char>, b: Seq<char>) -> bool {
    crate::text::lowercase_of(a) == crate::text::lowercase_of(b)
}

/// A completed download is no longer pending: after the rename the
/// manifest has no entry for it, it is saved, and `Complete` reports the
/// same outcome that the download returns.
pub proof fn law_completion_clears_entry(s: MachineModel, now: u64)
    requires
        s.phase == Phase::Renaming,
        s.outcome is Some,
    ensures
        !has_entry(next(s, Observation::Renamed(Ok(())), now).0.manifest, s.request.filename@),
        next(s, Observation::Renamed(Ok(())), now).1.effects
            == seq![Effect::SaveManifestQuietly, Effect::Notify(Notice::Complete(s.outcome.unwrap()))],
        next(s, Observation::Renamed(Ok(())), now).0.result == Some(Ok::<ValidationOutcome, DownloadError>(s.outcome.unwrap())),
{
    law_remove_forgets_only_filename(s.manifest, s.request.filename@);
}

/// Resuming follows the server: a 200 restarts from byte 0 into a truncated
/// part file; a 206 appends from the resume offset; any other status ends
/// the download.
pub proof fn law_response_status(s: MachineModel, info: ResponseInfo, now: u64)
    requires
        s.phase == Phase::Requesting,
    ensures
        info.status == 200 ==> next(s, Observation::ResponseReceived(Ok(info)), now).1.command
            == (Command::OpenPart { truncate: true }),
        info.status == 206 ==> next(s, Observation::ResponseReceived(Ok(info)), now).1.command
            == (Command::OpenPart { truncate: s.resume_from == 0 }),
        info.status == 206 ==> next(s, Observation::ResponseReceived(Ok(info)), now).0.bytes_downloaded == s.resume_from,
        (info.status != 200 && info.status != 206) ==> next(s, Observation::ResponseReceived(Ok(info)), now).0.result
            == Some(Err::<ValidationOutcome, DownloadError>(DownloadError::UnexpectedStatus(info.status))),
{
}

/// An ETag mismatch is only a warning: with the structural checks passed,
/// the file is kept and the outcome reports the mismatch.
pub proof fn law_etag_mismatch_keeps_file(s: MachineModel, bytes: Vec<u8>, now: u64)
    requires
        s.phase == Phase::CheckingMagic,
        is_gguf_magic_spec(bytes@),
        s.etag_mismatch is Some,
    ensures
        next(s, Observation::MagicRead(Ok(bytes)), now).0.phase == Phase::Renaming,
        next(s, Observation::MagicRead(Ok(bytes)), now).0.outcome == s.etag_mismatch,
{
}

/// The space check comes before anything is written: with too little free
/// space the download ends with `InsufficientSpace` and the manifest is
/// untouched.
pub proof fn law_space_checked_first(
    s: MachineModel,
    model_dir: Vec<crate::paths::PathComponent>,
    disks: Vec<crate::disks::DiskInfo>,
    now: u64,
)
    requires
        s.phase == Phase::CheckingSpace,
        s.preflight.content_length is Some,
        crate::disks::free_bytes_spec(crate::paths::components_view(model_dir@), disks@)
            < crate::space::required_bytes_spec(s.preflight.content_length.unwrap() as nat),
    ensures
        ({
            let (t, step) = next(s, Observation::DisksListed { model_dir, disks }, now);
            &&& t.result matches Some(Err(DownloadError::InsufficientSpace(_)))
            &&& t.manifest == s.manifest
            &&& step.effects.len() == 0
        }),
{
}

/// Without range support there is no resume: the download restarts from
/// byte 0, and its start is recorded before the request.
pub proof fn law_no_resume_without_ranges(s: MachineModel, loaded: Option<crate::resume::ResumeManifest>, now: u64)
    requires
        s.phase == Phase::LoadingManifest,
        !s.preflight.supports_range,
    ensures
        next(s, Observation::ManifestLoaded(loaded), now).0.resume_from == 0,
        next(s, Observation::ManifestLoaded(loaded), now).1.command == Command::SaveManifest,
{
}

/// The recorded resume point is the part file's size when the server
/// accepts ranges, and the download's first start time is kept across
/// resumes.
pub proof fn law_resume_point(s: MachineModel, part_len: Option<u64>, now: u64)
    requires
        s.phase == Phase::MeasuringPart,
    ensures
        next(s, Observation::PartMeasured(part_len), now).0.resume_from
            == (match part_len { Some(n) => n, None => 0 }),
        entry_for(s.manifest, s.request.filename@) matches Some(e)
            ==> next(s, Observation::PartMeasured(part_len), now).0.started_at == e.started_at_secs,
        entry_for(s.manifest, s.request.filename@) is None
            ==> next(s, Observation::PartMeasured(part_len), now).0.started_at == now,
        next(s, Observation::PartMeasured(part_len), now).1.command == Command::SaveManifest,
{
}

// ─── Failures, ETags and release assets ──────────────────────────────────────

/// A network failure during the transfer keeps the resume point: the part
/// file is flushed and kept (never removed), the manifest records the bytes
/// written so far and is saved, the failure is reported, and the download
/// ends with it.
pub proof fn law_network_failure_keeps_part_file(s: MachineModel, m: String, now: u64)
    requires
        s.phase == Phase::Transferring,
    ensures
        ({
            let (t, step) = next(s, Observation::NetworkFailed(m), now);
            &&& step.effects == seq![Effect::FlushPartQuietly, Effect::SaveManifestQuietly,
                Effect::Notify(Notice::Failed(DownloadError::Network(m)))]
            &&& !step.effects.contains(Effect::RemovePartQuietly)
            &&& t.result == Some(Err::<ValidationOutcome, DownloadError>(DownloadError::Network(m)))
            &&& entry_for(t.manifest, s.request.filename@) matches Some(r) && {
                &&& r.bytes_downloaded == s.bytes_downloaded
                &&& r.total_bytes == s.preflight.content_length
                &&& r.started_at_secs == s.started_at
                &&& r.last_updated_secs == now
                &&& r.url == s.request.url
            }
        }),
{
    let e = entry_spec(s.request, s.bytes_downloaded, s.preflight.content_length, s.started_at, now);
    law_upsert_then_lookup(s.manifest, e);
    let step = next(s, Observation::NetworkFailed(m), now).1;
    if step.effects.contains(Effect::RemovePartQuietly) {
        let k = choose|k: int| 0 <= k < step.effects.len() && step.effects[k] == Effect::RemovePartQuietly;
        assert(k == 0 || k == 1 || k == 2);
    }
}

/// The ETag the download is checked against is the caller's when the
/// request carries one, whatever the preflight HEAD answered: when it
/// differs from the GET response's ETag, a download without SHA256 whose
/// size and GGUF magic pass ends with `ETagMismatch` naming the caller's
/// ETag and the GET's. With no ETag from the caller, the preflight's is
/// used.
pub proof fn law_caller_etag_is_checked(s: MachineModel, bytes: Vec<u8>, e: String, a: String, now: u64)
    requires
        s.phase == Phase::Flushing,
        s.request.expected_sha256 is None,
        bytes@ == seq![0x47u8, 0x47u8, 0x55u8, 0x46u8],
        s.actual_etag == Some(a),
    ensures
        ({
            let t1 = next(s, Observation::Flushed(Ok(())), now).0;
            let t2 = match s.preflight.content_length {
                Some(n) => next(t1, Observation::SizeMeasured(Ok(n)), now).0,
                None => t1,
            };
            let t3 = next(t2, Observation::MagicRead(Ok(bytes)), now).0;
            let t4 = next(t3, Observation::Renamed(Ok(())), now).0;
            &&& (s.request.expected_etag == Some(e) && e@ != a@)
                ==> t4.result == Some(Ok::<ValidationOutcome, DownloadError>(
                    ValidationOutcome::ETagMismatch { expected: e, actual: a }))
            &&& (s.request.expected_etag == Some(e) && e@ == a@)
                ==> t4.result == Some(Ok::<ValidationOutcome, DownloadError>(ValidationOutcome::StructuralPass))
            &&& (s.request.expected_etag is None && s.preflight.etag == Some(e) && e@ != a@)
                ==> t4.result == Some(Ok::<ValidationOutcome, DownloadError>(
                    ValidationOutcome::ETagMismatch { expected: e, actual: a }))
        }),
{
}

/// Every supported platform's release names the binary entry that the
/// platform runs: `llama-server.exe` on Windows, `llama-server` elsewhere.
pub proof fn law_release_binary_entry(os: Seq<char>, arch: Seq<char>)
    requires
        release_asset(os, arch) is Some,
    ensures
        os == "windows"@ ==> release_asset(os, arch).unwrap().1 == "llama-server.exe"@,
        os != "windows"@ ==> release_asset(os, arch).unwrap().1 == "llama-server"@,
{
    reveal_strlit("windows");
    reveal_strlit("macos");
    reveal_strlit("linux");
    assert("windows"@.len() == 7);
    assert("macos"@.len() == 5);
    assert("linux"@.len() == 5);
    assert("windows"@ != "macos"@);
    assert("windows"@ != "linux"@);
}

// ─── Recovery scan ───────────────────────────────────────────────────────────

/// What the scan reports of one directory entry: a record exactly when its
/// name ends with `.part`, holding the file's own size on disk whatever the
/// manifest says, the manifest's total and last update for the download
/// (none and 0 when the manifest has no entry), and staleness as an age of
/// more than 14 days.
pub proof fn law_partial_info_describes_entry(e: DirEntryInfo, manifest: Seq<ResumeEntry>, now: u64)
    ensures
        partial_spec(e, manifest, now) is Some <==> ends_with(e.name@, part_suffix()),
        partial_spec(e, manifest, now) matches Some(p) ==> {
            &&& p.bytes_on_disk == e.len
            &&& p.filename == strip_part_suffixes(e.name@)
            &&& p.is_stale <==> (now >= p.last_updated_secs && now - p.last_updated_secs > 1209600)
            &&& (forall|i: int| #![trigger manifest[i]] 0 <= i < manifest.len() && manifest[i].filename@ == p.filename
                    && (forall|j: int| #![trigger manifest[j]] 0 <= j < i ==> manifest[j].filename@ != p.filename)
                ==> p.total_bytes == manifest[i].total_bytes && p.last_updated_secs == manifest[i].last_updated_secs)
            &&& (forall|i: int| #![trigger manifest[i]] 0 <= i < manifest.len() ==> manifest[i].filename@ != p.filename)
                ==> p.total_bytes is None && p.last_updated_secs == 0
        },
{
    if let Some(p) = partial_spec(e, manifest, now) {
        let f = p.filename;
        if has_entry(manifest, f) {
            lemma_has_entry_first_match(manifest, f);
            assert forall|i: int| #![trigger manifest[i]] 0 <= i < manifest.len() && manifest[i].filename@ == f
                && (forall|j: int| #![trigger manifest[j]] 0 <= j < i ==> manifest[j].filename@ != f)
                implies p.total_bytes == manifest[i].total_bytes && p.last_updated_secs == manifest[i].last_updated_secs by {
                assert(is_first_match(manifest, f, i));
                lemma_first_match_unique(manifest, f, i);
            }
        } else {
            assert forall|i: int| #![trigger manifest[i]] 0 <= i < manifest.len() && manifest[i].filename@ == f
                && (forall|j: int| #![trigger manifest[j]] 0 <= j < i ==> manifest[j].filename@ != f)
                implies p.total_bytes == manifest[i].total_bytes && p.last_updated_secs == manifest[i].last_updated_secs by {
                assert(has_entry(manifest, f));
            }
        }
        if forall|i: int| #![trigger manifest[i]] 0 <= i < manifest.len() ==> manifest[i].filename@ != f {
            if has_entry(manifest, f) {
                let i = choose|i: int| 0 <= i < manifest.len() && #[trigger] manifest[i].filename@ == f;
                assert(manifest[i].filename@ != f);
            }
        }
    }
}

/// The scan lists every `.part` file of the directory, with that file's
/// size on disk, and nothing else: each record comes from a `.part` entry
/// and carries its size.
pub proof fn law_scan_lists_part_files(entries: Seq<DirEntryInfo>, manifest: Seq<ResumeEntry>, now: u64)
    ensures
        forall|i: int| #![trigger entries[i]] 0 <= i < entries.len() && ends_with(entries[i].name@, part_suffix())
            ==> exists|k: int| #![trigger scan_spec(entries, manifest, now)[k]]
                0 <= k < scan_spec(entries, manifest, now).len()
                && scan_spec(entries, manifest, now)[k].filename == strip_part_suffixes(entries[i].name@)
                && scan_spec(entries, manifest, now)[k].bytes_on_disk == entries[i].len,
        forall|k: int| #![trigger scan_spec(entries, manifest, now)[k]] 0 <= k < scan_spec(entries, manifest, now).len()
            ==> exists|i: int| #![trigger entries[i]] 0 <= i < entries.len() && ends_with(entries[i].name@, part_suffix())
                && scan_spec(entries, manifest, now)[k].filename == strip_part_suffixes(entries[i].name@)
                && scan_spec(entries, manifest, now)[k].bytes_on_disk == entries[i].len,
    decreases entries.len(),
{
    if entries.len() > 0 {
        let prev = entries.drop_last();
        law_scan_lists_part_files(prev, manifest, now);
        let last = entries.last();
        law_partial_info_describes_entry(last, manifest, now);
        let sp = scan_spec(prev, manifest, now);
        let sc = scan_spec(entries, manifest, now);
        let tail = match partial_spec(last, manifest, now) {
            Some(p) => seq![p],
            None => Seq::<PartialView>::empty(),
        };
        assert(sc == sp + tail);
        assert forall|i: int| #![trigger entries[i]] 0 <= i < entries.len() && ends_with(entries[i].name@, part_suffix())
            implies exists|k: int| #![trigger sc[k]] 0 <= k < sc.len()
                && sc[k].filename == strip_part_suffixes(entries[i].name@)
                && sc[k].bytes_on_disk == entries[i].len by {
            if i == entries.len() - 1 {
                let k = sp.len() as int;
                assert(sc[k] == tail[0]);
            } else {
                assert(prev[i] == entries[i]);
                let k = choose|k: int| #![trigger sp[k]] 0 <= k < sp.len()
                    && sp[k].filename == strip_part_suffixes(prev[i].name@)
                    && sp[k].bytes_on_disk == prev[i].len;
                assert(sc[k] == sp[k]);
            }
        }
        assert forall|k: int| #![trigger sc[k]] 0 <= k < sc.len()
            implies exists|i: int| #![trigger entries[i]] 0 <= i < entries.len() && ends_with(entries[i].name@, part_suffix())
                && sc[k].filename == strip_part_suffixes(entries[i].name@)
                && sc[k].bytes_on_disk == entries[i].len by {
            if k < sp.len() {
                assert(sc[k] == sp[k]);
                let i = choose|i: int| #![trigger prev[i]] 0 <= i < prev.len() && ends_with(prev[i].name@, part_suffix())
                    && sp[k].filename == strip_part_suffixes(prev[i].name@)
                    && sp[k].bytes_on_disk == prev[i].len;
                assert(prev[i] == entries[i]);
            } else {
                assert(sc[k] == tail[0]);
                let i = entries.len() - 1;
                assert(entries[i] == last);
            }
        }
    }
}

// ─── Free space ──────────────────────────────────────────────────────────────

spec fn mounted_at(d: DiskInfo, p: Seq<ComponentView>) -> bool {
    components_view(d.mount_point@) == p
}

proof fn lemma_best_mount(disks: Seq<DiskInfo>, p: Seq<ComponentView>)
    ensures
        best_mount(disks, p) is Some <==> exists|i: int| 0 <= i < disks.len() && mounted_at(#[trigger] disks[i], p),
        best_mount(disks, p) matches Some(b) ==> exists|j: int| {
            &&& 0 <= j < disks.len()
            &&& mounted_at(#[trigger] disks[j], p)
            &&& b == (disks[j].mount_point_len, disks[j].available_space)
            &&& forall|i: int| 0 <= i < j && mounted_at(#[trigger] disks[i], p) ==> disks[i].mount_point_len < b.0
            &&& forall|i: int| j < i < disks.len() && mounted_at(#[trigger] disks[i], p) ==> disks[i].mount_point_len <= b.0
        },
    decreases disks.len(),
{
    if disks.len() > 0 {
        let prev = disks.drop_last();
        lemma_best_mount(prev, p);
        let n = disks.len() - 1;
        assert forall|i: int| 0 <= i < n implies #[trigger] prev[i] == disks[i] by {}
        if exists|i: int| 0 <= i < disks.len() && mounted_at(#[trigger] disks[i], p) {
            let i = choose|i: int| 0 <= i < disks.len() && mounted_at(#[trigger] disks[i], p);
            if i < n {
                assert(mounted_at(prev[i], p));
            }
        }
        if exists|i: int| 0 <= i < prev.len() && mounted_at(#[trigger] prev[i], p) {
            let i = choose|i: int| 0 <= i < prev.len() && mounted_at(#[trigger] prev[i], p);
            assert(mounted_at(disks[i], p));
        }
        match best_mount(prev, p) {
            Some(b) => {
                let j = choose|j: int| {
                    &&& 0 <= j < prev.len()
                    &&& mounted_at(#[trigger] prev[j], p)
                    &&& b == (prev[j].mount_point_len, prev[j].available_space)
                    &&& forall|i: int| 0 <= i < j && mounted_at(#[trigger] prev[i], p) ==> prev[i].mount_point_len < b.0
                    &&& forall|i: int| j < i < prev.len() && mounted_at(#[trigger] prev[i], p) ==> prev[i].mount_point_len <= b.0
                };
                if mounted_at(disks[n], p) && disks[n].mount_point_len > b.0 {
                    assert forall|i: int| 0 <= i < n && mounted_at(#[trigger] disks[i], p)
                        implies disks[i].mount_point_len < disks[n].mount_point_len by {
                        assert(mounted_at(prev[i], p));
                        if i != j {
                        }
                    }
                } else {
                    assert(mounted_at(disks[j], p));
                    assert forall|i: int| 0 <= i < j && mounted_at(#[trigger] disks[i], p)
                        implies disks[i].mount_point_len < b.0 by {
                        assert(mounted_at(prev[i], p));
                    }
                    assert forall|i: int| j < i < disks.len() && mounted_at(#[trigger] disks[i], p)
                        implies disks[i].mount_point_len <= b.0 by {
                        if i < n {
                            assert(mounted_at(prev[i], p));
                        }
                    }
                }
            },
            None => {
                if mounted_at(disks[n], p) {
                    assert forall|i: int| 0 <= i < n && mounted_at(#[trigger] disks[i], p)
                        implies disks[i].mount_point_len < disks[n].mount_point_len by {
                        assert(mounted_at(prev[i], p));
                    }
                }
            },
        }
    }
}

/// A directory that is itself a mount point gets the free space of the disk
/// mounted there, before any ancestor is looked at: among the disks
/// mounted exactly at the directory, the one with the longest mount-point
/// text (the first of those in list order).
pub proof fn law_free_space_of_own_mount(path: Seq<ComponentView>, disks: Seq<DiskInfo>)
    requires
        exists|i: int| 0 <= i < disks.len() && components_view(#[trigger] disks[i].mount_point@) == path,
    ensures
        exists|j: int| {
            &&& 0 <= j < disks.len()
            &&& components_view(#[trigger] disks[j].mount_point@) == path
            &&& free_bytes_spec(path, disks) == disks[j].available_space
            &&& forall|i: int| 0 <= i < disks.len() && components_view(#[trigger] disks[i].mount_point@) == path
                ==> disks[i].mount_point_len <= disks[j].mount_point_len
            &&& forall|i: int| 0 <= i < j && components_view(#[trigger] disks[i].mount_point@) == path
                ==> disks[i].mount_point_len < disks[j].mount_point_len
        },
{
    let i0 = choose|i: int| 0 <= i < disks.len() && components_view(#[trigger] disks[i].mount_point@) == path;
    assert(mounted_at(disks[i0], path));
    lemma_best_mount(disks, path);
    let b = best_mount(disks, path).unwrap();
    let j = choose|j: int| {
        &&& 0 <= j < disks.len()
        &&& mounted_at(#[trigger] disks[j], path)
        &&& b == (disks[j].mount_point_len, disks[j].available_space)
        &&& forall|i: int| 0 <= i < j && mounted_at(#[trigger] disks[i], path) ==> disks[i].mount_point_len < b.0
        &&& forall|i: int| j < i < disks.len() && mounted_at(#[trigger] disks[i], path) ==> disks[i].mount_point_len <= b.0
    };
    assert forall|i: int| 0 <= i < disks.len() && components_view(#[trigger] disks[i].mount_point@) == path
        implies disks[i].mount_point_len <= disks[j].mount_point_len by {
        assert(mounted_at(disks[i], path));
    }
    assert forall|i: int| 0 <= i < j && components_view(#[trigger] disks[i].mount_point@) == path
        implies disks[i].mount_point_len < disks[j].mount_point_len by {
        assert(mounted_at(disks[i], path));
    }
}

proof fn lemma_no_mount_on_walk(disks: Seq<DiskInfo>, p: Seq<ComponentView>)
    requires
        forall|k: int, i: int| 0 <= k <= p.len() && 0 <= i < disks.len()
            ==> components_view(#[trigger] disks[i].mount_point@) != #[trigger] p.take(k),
    ensures
        ancestor_free(disks, p) is None,
    decreases p.len(),
{
    lemma_best_mount(disks, p);
    if exists|i: int| 0 <= i < disks.len() && mounted_at(#[trigger] disks[i], p) {
        let i = choose|i: int| 0 <= i < disks.len() && mounted_at(#[trigger] disks[i], p);
        assert(p.take(p.len() as int) =~= p);
        assert(components_view(disks[i].mount_point@) != p.take(p.len() as int));
    }
    if let Some(q) = parent_components(p) {
        assert forall|k: int, i: int| 0 <= k <= q.len() && 0 <= i < disks.len()
            implies components_view(#[trigger] disks[i].mount_point@) != #[trigger] q.take(k) by {
            assert(q.take(k) =~= p.take(k));
        }
        lemma_no_mount_on_walk(disks, q);
    }
}

proof fn lemma_max_available(disks: Seq<DiskInfo>)
    ensures
        forall|i: int| 0 <= i < disks.len() ==> #[trigger] disks[i].available_space <= max_available(disks),
        disks.len() > 0 ==> exists|i: int| 0 <= i < disks.len() && #[trigger] disks[i].available_space == max_available(disks),
        disks.len() == 0 ==> max_available(disks) == 0,
    decreases disks.len(),
{
    if disks.len() > 0 {
        let prev = disks.drop_last();
        lemma_max_available(prev);
        assert forall|i: int| 0 <= i < disks.len() implies #[trigger] disks[i].available_space <= max_available(disks) by {
            if i < disks.len() - 1 {
                assert(prev[i] == disks[i]);
            }
        }
        let n = disks.len() - 1;
        if disks.last().available_space > max_available(prev) || prev.len() == 0 {
            assert(disks[n].available_space == max_available(disks));
        } else {
            let i = choose|i: int| 0 <= i < prev.len() && #[trigger] prev[i].available_space == max_available(prev);
            assert(prev[i] == disks[i]);
            assert(disks[i].available_space == max_available(disks));
        }
    }
}

/// When no disk is mounted at the directory or at any of its ancestors,
/// the free space is the largest among all disks (0 when there is none).
pub proof fn law_free_space_fallback(path: Seq<ComponentView>, disks: Seq<DiskInfo>)
    requires
        forall|k: int, i: int| 0 <= k <= path.len() && 0 <= i < disks.len()
            ==> components_view(#[trigger] disks[i].mount_point@) != #[trigger] path.take(k),
    ensures
        forall|i: int| 0 <= i < disks.len() ==> #[trigger] disks[i].available_space <= free_bytes_spec(path, disks),
        disks.len() > 0 ==> exists|i: int| 0 <= i < disks.len()
            && #[trigger] disks[i].available_space == free_bytes_spec(path, disks),
        disks.len() == 0 ==> free_bytes_spec(path, disks) == 0,
{
    lemma_no_mount_on_walk(disks, path);
    lemma_max_available(disks);
}

} // verus!
