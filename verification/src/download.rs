//! One model download, as a state machine. The machine decides; the caller
//! does the I/O. Each `step` takes what the caller observed and returns the
//! quick effects to perform (in order) and the next command to carry out.
//!
//! The download: create the model directory, send a HEAD request, check
//! the disk space (when the size is known), record the download in the
//! resume manifest, resume from the `.part` file when the server accepts
//! ranges, stream the body into the `.part` file while reporting progress
//! and saving the manifest every 5 MiB, then validate (SHA256 → ETag → size
//! → GGUF magic) and rename the `.part` file into place.
//!
//! The part file is `part_file_name(filename)` in the model directory, and
//! the finished file is `filename` there; the caller joins them to the
//! directory by the platform's path rules.
use vstd::prelude::*;
use crate::resume::{ResumeEntry, ResumeManifest, upsert_spec, remove_spec, entry_for, has_entry,
    lemma_upsert_has_entry};
use crate::disks::{DiskInfo, InsufficientSpace, check_disk_space, free_bytes_spec};
use crate::space::{required_bytes_spec, required_bytes_fits_spec};
use crate::text::{concat2, parse_u64, to_lowercase, lowercase_of, u64_from_str, u64_to_decimal, decimal,
    str_eq, all_ascii, ascii_lowercase};
use crate::paths::{PathComponent, components_view};

verus! {

/// How many bytes may be downloaded between two saves of the manifest.
pub const MANIFEST_UPDATE_INTERVAL: u64 = 5242880;

/// Partial files not updated within this window (14 days) are stale.
pub const PART_RETENTION_SECS: u64 = 1209600;

/// Filename of the resume manifest in the model directory.
pub const RESUME_MANIFEST: &'static str = "pending_resume.json";

/// Parameters for a single model download.
#[derive(Debug, Clone)]
pub struct DownloadRequest {
    /// Direct download URL.
    pub url: String,
    /// Destination filename (no directory component; placed inside `model_dir`).
    pub filename: String,
    /// Expected SHA256 hex digest. `None`: the SHA256 tier is skipped.
    pub expected_sha256: Option<String>,
    /// Expected ETag from a prior HEAD response. `None`: the ETag from the
    /// preflight HEAD request is used, if any.
    pub expected_etag: Option<String>,
    /// Directory where the model file will be saved.
    pub model_dir: String,
}

/// Result of the post-download validation hierarchy.
#[derive(Debug, Clone, PartialEq, Eq)]
pub enum ValidationOutcome {
    /// SHA256 matched. Highest confidence.
    Sha256Verified,
    /// Size and GGUF magic passed; no SHA256 was available.
    StructuralPass,
    /// The ETag differed from the expected one (a warning: the file is kept).
    ETagMismatch { expected: String, actual: String },
}

/// What the preflight HEAD request tells about the file.
pub struct PreflightResult {
    pub content_length: Option<u64>,
    pub etag: Option<String>,
    pub supports_range: bool,
}

/// The HEAD response's headers, as text (`None` when absent or not
/// visible ASCII).
pub struct HeadHeaders {
    pub content_length: Option<String>,
    pub etag: Option<String>,
    pub accept_ranges: Option<String>,
}

/// The GET response's status code and ETag header.
pub struct ResponseInfo {
    pub status: u16,
    pub etag: Option<String>,
}

/// Why a download failed.
#[derive(Debug)]
pub enum DownloadError {
    /// The model directory could not be created.
    CreateDir(String),
    /// The HEAD request failed.
    Head(String),
    /// Not enough free disk space.
    InsufficientSpace(InsufficientSpace),
    /// The manifest could not be saved before the transfer.
    SaveManifest(String),
    /// The GET request failed.
    Request(String),
    /// The GET response was neither 200 nor 206.
    UnexpectedStatus(u16),
    /// The part file could not be opened.
    OpenPart(String),
    /// The user cancelled the download.
    Cancelled,
    /// The network failed during the transfer.
    Network(String),
    /// Writing to the part file failed.
    Write(String),
    /// Flushing the part file failed.
    Flush(String),
    /// The part file's SHA256 could not be computed.
    Digest(String),
    /// The part file's SHA256 differs from the expected one.
    Sha256Mismatch { expected: String, actual: String },
    /// The part file's size could not be read.
    Stat(String),
    /// The part file's size differs from the announced length.
    SizeMismatch { expected_bytes: u64, actual_bytes: u64 },
    /// The part file's first bytes could not be read.
    Magic(String),
    /// The part file does not start with the GGUF magic bytes.
    NotGguf,
    /// The part file could not be renamed into place.
    Rename(String),
}

/// What the caller observed while carrying out the last command.
pub enum Observation {
    DirCreated(Result<(), String>),
    HeadDone(Result<HeadHeaders, String>),
    /// The mounted disks, with the components of the model directory's
    /// path as the platform reads it.
    DisksListed { model_dir: Vec<PathComponent>, disks: Vec<DiskInfo> },
    /// The manifest as loaded; `None` when it could not be read.
    ManifestLoaded(Option<ResumeManifest>),
    /// Size of the part file; `None` when it is absent or unreadable.
    PartMeasured(Option<u64>),
    ManifestSaved(Result<(), String>),
    ResponseReceived(Result<ResponseInfo, String>),
    PartOpened(Result<(), String>),
    /// Cancellation was requested before the next chunk was read.
    CancelRequested,
    /// A chunk of this many bytes was received and written.
    ChunkWritten(u64),
    EndOfStream,
    NetworkFailed(String),
    WriteFailed(String),
    Flushed(Result<(), String>),
    /// Lowercase hex SHA256 of the part file.
    DigestComputed(Result<String, String>),
    /// Size of the part file.
    SizeMeasured(Result<u64, String>),
    /// The part file's first four bytes.
    MagicRead(Result<Vec<u8>, String>),
    Renamed(Result<(), String>),
}

/// The next thing the caller must do, then report as an observation.
pub enum Command {
    /// Create the model directory and its parents.
    CreateModelDir,
    /// Send a HEAD request for the URL.
    SendHead,
    /// List the mounted disks with their free space, and take the model
    /// directory's path apart into components.
    ListDisks,
    /// Load the resume manifest from the model directory.
    LoadManifest,
    /// Measure the part file (only its size).
    MeasurePart,
    /// Save `manifest()` to the model directory.
    SaveManifest,
    /// Send the GET request, from byte `resume_from` when it is not zero
    /// (see `range_header`).
    SendGet { resume_from: u64 },
    /// Open the part file for writing: truncated, or for appending.
    OpenPart { truncate: bool },
    /// Unless cancellation was requested, read the next chunk of the body
    /// and append it to the part file.
    NextChunk,
    /// Flush the part file.
    FlushPart,
    /// Compute the SHA256 of the part file.
    ComputeDigest,
    /// Read the size of the part file.
    MeasureFile,
    /// Read the first four bytes of the part file.
    ReadMagic,
    /// Rename the part file to the final path.
    RenamePart,
    /// The download is over; `result()` tells how it ended.
    Finish,
}

/// Something the caller reports on the progress channel.
pub enum Notice {
    Progress { bytes_downloaded: u64, total_bytes: Option<u64> },
    Complete(ValidationOutcome),
    Cancelled,
    Failed(DownloadError),
}

/// A quick action whose failure does not change the course of the download.
pub enum Effect {
    /// Flush the part file, ignoring errors.
    FlushPartQuietly,
    /// Save `manifest()`, ignoring errors.
    SaveManifestQuietly,
    /// Delete the part file, ignoring errors.
    RemovePartQuietly,
    /// Send a notice on the progress channel.
    Notify(Notice),
}

/// The result of one step: effects to perform in order, then a command.
pub struct Step {
    pub effects: Vec<Effect>,
    pub command: Command,
}

/// Where the machine stands.
pub enum Phase {
    CreatingDir,
    Preflight,
    CheckingSpace,
    LoadingManifest,
    MeasuringPart,
    SavingManifest,
    Requesting,
    OpeningPart,
    Transferring,
    Flushing,
    Hashing,
    Sizing,
    CheckingMagic,
    Renaming,
    Finished,
}

/// One download in progress.
pub struct DownloadMachine {
    phase: Phase,
    request: DownloadRequest,
    preflight: PreflightResult,
    manifest: ResumeManifest,
    resume_from: u64,
    started_at: u64,
    actual_etag: Option<String>,
    bytes_downloaded: u64,
    bytes_since_manifest: u64,
    etag_mismatch: Option<ValidationOutcome>,
    outcome: Option<ValidationOutcome>,
    result: Option<Result<ValidationOutcome, DownloadError>>,
}

/// What a download machine stands for.
pub struct MachineModel {
    pub phase: Phase,
    pub request: DownloadRequest,
    pub preflight: PreflightResult,
    pub manifest: Seq<ResumeEntry>,
    pub resume_from: u64,
    pub started_at: u64,
    pub actual_etag: Option<String>,
    pub bytes_downloaded: u64,
    pub bytes_since_manifest: u64,
    pub etag_mismatch: Option<ValidationOutcome>,
    pub outcome: Option<ValidationOutcome>,
    pub result: Option<Result<ValidationOutcome, DownloadError>>,
}

/// What a step stands for.
pub struct StepModel {
    pub effects: Seq<Effect>,
    pub command: Command,
}

impl View for DownloadMachine {
    type V = MachineModel;

    closed spec fn view(&self) -> MachineModel {
        MachineModel {
            phase: self.phase,
            request: self.request,
            preflight: self.preflight,
            manifest: self.manifest@,
            resume_from: self.resume_from,
            started_at: self.started_at,
            actual_etag: self.actual_etag,
            bytes_downloaded: self.bytes_downloaded,
            bytes_since_manifest: self.bytes_since_manifest,
            etag_mismatch: self.etag_mismatch,
            outcome: self.outcome,
            result: self.result,
        }
    }
}

impl View for Step {
    type V = StepModel;

    open spec fn view(&self) -> StepModel {
        StepModel { effects: self.effects@, command: self.command }
    }
}

// ─── Model of one step ───────────────────────────────────────────────────────

/// The preflight facts that the HEAD headers give: the length when the
/// `Content-Length` text is a `u64` numeral, the ETag as is, and range
/// support when `Accept-Ranges` is present and not `none` in any case.
pub open spec fn preflight_spec(h: HeadHeaders) -> PreflightResult {
    PreflightResult {
        content_length: match h.content_length {
            Some(s) => u64_from_str(s@),
            None => None,
        },
        etag: h.etag,
        supports_range: match h.accept_ranges {
            Some(v) => lowercase_of(v@) != "none"@,
            None => false,
        },
    }
}

/// The manifest entry recording `request` at `bytes` downloaded.
pub open spec fn entry_spec(
    request: DownloadRequest,
    bytes_downloaded: u64,
    total_bytes: Option<u64>,
    started_at_secs: u64,
    last_updated_secs: u64,
) -> ResumeEntry {
    ResumeEntry {
        filename: request.filename,
        url: request.url,
        bytes_downloaded,
        total_bytes,
        started_at_secs,
        last_updated_secs,
        expected_sha256: request.expected_sha256,
        expected_etag: request.expected_etag,
    }
}

/// Whether four bytes are the GGUF magic `GGUF`.
pub open spec fn is_gguf_magic_spec(bytes: Seq<u8>) -> bool {
    bytes == seq![0x47u8, 0x47u8, 0x55u8, 0x46u8]
}

/// The command a machine in state `s` waits on.
pub open spec fn awaiting(s: MachineModel) -> Command {
    match s.phase {
        Phase::CreatingDir => Command::CreateModelDir,
        Phase::Preflight => Command::SendHead,
        Phase::CheckingSpace => Command::ListDisks,
        Phase::LoadingManifest => Command::LoadManifest,
        Phase::MeasuringPart => Command::MeasurePart,
        Phase::SavingManifest => Command::SaveManifest,
        Phase::Requesting => Command::SendGet { resume_from: s.resume_from },
        Phase::OpeningPart => Command::OpenPart { truncate: s.bytes_downloaded == 0 },
        Phase::Transferring => Command::NextChunk,
        Phase::Flushing => Command::FlushPart,
        Phase::Hashing => Command::ComputeDigest,
        Phase::Sizing => Command::MeasureFile,
        Phase::CheckingMagic => Command::ReadMagic,
        Phase::Renaming => Command::RenamePart,
        Phase::Finished => Command::Finish,
    }
}

/// Go to `phase` with no effect.
pub open spec fn goto(s: MachineModel, phase: Phase) -> (MachineModel, StepModel) {
    let t = MachineModel { phase, ..s };
    (t, StepModel { effects: Seq::empty(), command: awaiting(t) })
}

/// End with `result` after `effects`.
pub open spec fn finish(s: MachineModel, result: Result<ValidationOutcome, DownloadError>, effects: Seq<Effect>) -> (MachineModel, StepModel) {
    let t = MachineModel { phase: Phase::Finished, result: Some(result), ..s };
    (t, StepModel { effects, command: Command::Finish })
}

/// Record the resume point in the manifest and save it when the resume
/// offset is `resume_from` and the clock reads `now`.
pub open spec fn plan_spec(s: MachineModel, resume_from: u64, now: u64) -> (MachineModel, StepModel) {
    let started = match entry_for(s.manifest, s.request.filename@) {
        Some(e) => e.started_at_secs,
        None => now,
    };
    let entry = entry_spec(s.request, resume_from, s.preflight.content_length, started, now);
    goto(MachineModel {
        manifest: upsert_spec(s.manifest, entry),
        resume_from,
        started_at: started,
        ..s
    }, Phase::SavingManifest)
}

/// The manifest with the current resume point, stamped `now`.
pub open spec fn persisted(s: MachineModel, now: u64) -> Seq<ResumeEntry> {
    upsert_spec(s.manifest, entry_spec(s.request, s.bytes_downloaded, s.preflight.content_length, s.started_at, now))
}

/// Validation failed with `e`: delete the part file, drop the manifest
/// entry, save the manifest, report the failure, end with `e`.
pub open spec fn reject_spec(s: MachineModel, e: DownloadError) -> (MachineModel, StepModel) {
    finish(
        MachineModel { manifest: remove_spec(s.manifest, s.request.filename@), ..s },
        Err(e),
        seq![Effect::RemovePartQuietly, Effect::SaveManifestQuietly, Effect::Notify(Notice::Failed(e))],
    )
}

/// The ETag warning, when an expected ETag (the request's, else the
/// preflight's) and the GET response's ETag both exist and differ.
pub open spec fn etag_mismatch_spec(s: MachineModel) -> Option<ValidationOutcome> {
    let expected = match s.request.expected_etag {
        Some(e) => Some(e),
        None => s.preflight.etag,
    };
    match (expected, s.actual_etag) {
        (Some(e), Some(a)) => if e@ != a@ {
            Some(ValidationOutcome::ETagMismatch { expected: e, actual: a })
        } else {
            None
        },
        _ => None,
    }
}

/// One step of the machine: the observation `obs` in state `s`, with the
/// clock reading `now` where the step stamps the manifest. An observation
/// that the phase does not wait for changes nothing.
pub open spec fn next(s: MachineModel, obs: Observation, now: u64) -> (MachineModel, StepModel) {
    let stay = (s, StepModel { effects: Seq::empty(), command: awaiting(s) });
    match s.phase {
        Phase::CreatingDir => match obs {
            Observation::DirCreated(Ok(())) => goto(s, Phase::Preflight),
            Observation::DirCreated(Err(m)) => finish(s, Err(DownloadError::CreateDir(m)), Seq::empty()),
            _ => stay,
        },
        Phase::Preflight => match obs {
            Observation::HeadDone(Ok(h)) => {
                let t = MachineModel { preflight: preflight_spec(h), ..s };
                if preflight_spec(h).content_length is Some {
                    goto(t, Phase::CheckingSpace)
                } else {
                    goto(t, Phase::LoadingManifest)
                }
            },
            Observation::HeadDone(Err(m)) => finish(s, Err(DownloadError::Head(m)), Seq::empty()),
            _ => stay,
        },
        Phase::CheckingSpace => match obs {
            Observation::DisksListed { model_dir, disks } => {
                let cl = s.preflight.content_length.unwrap();
                let free = free_bytes_spec(components_view(model_dir@), disks@);
                let required = required_bytes_spec(cl as nat);
                if free < required {
                    finish(s, Err(DownloadError::InsufficientSpace(InsufficientSpace {
                        required: required as u64,
                        available: free,
                    })), Seq::empty())
                } else {
                    goto(s, Phase::LoadingManifest)
                }
            },
            _ => stay,
        },
        Phase::LoadingManifest => match obs {
            Observation::ManifestLoaded(m) => {
                let t = MachineModel {
                    manifest: match m {
                        Some(man) => man@,
                        None => Seq::empty(),
                    },
                    ..s
                };
                if s.preflight.supports_range {
                    goto(t, Phase::MeasuringPart)
                } else {
                    plan_spec(t, 0, now)
                }
            },
            _ => stay,
        },
        Phase::MeasuringPart => match obs {
            Observation::PartMeasured(len) => plan_spec(s, match len {
                Some(n) => n,
                None => 0,
            }, now),
            _ => stay,
        },
        Phase::SavingManifest => match obs {
            Observation::ManifestSaved(Ok(())) => goto(s, Phase::Requesting),
            Observation::ManifestSaved(Err(m)) => finish(s, Err(DownloadError::SaveManifest(m)), Seq::empty()),
            _ => stay,
        },
        Phase::Requesting => match obs {
            Observation::ResponseReceived(Ok(info)) => {
                if info.status == 200 || info.status == 206 {
                    let start: u64 = if info.status == 200 { 0 } else { s.resume_from };
                    goto(MachineModel {
                        actual_etag: info.etag,
                        bytes_downloaded: start,
                        bytes_since_manifest: 0,
                        ..s
                    }, Phase::OpeningPart)
                } else {
                    finish(s, Err(DownloadError::UnexpectedStatus(info.status)), Seq::empty())
                }
            },
            Observation::ResponseReceived(Err(m)) => finish(s, Err(DownloadError::Request(m)), Seq::empty()),
            _ => stay,
        },
        Phase::OpeningPart => match obs {
            Observation::PartOpened(Ok(())) => goto(s, Phase::Transferring),
            Observation::PartOpened(Err(m)) => finish(s, Err(DownloadError::OpenPart(m)), Seq::empty()),
            _ => stay,
        },
        Phase::Transferring => match obs {
            Observation::CancelRequested => finish(
                MachineModel { manifest: persisted(s, now), ..s },
                Err(DownloadError::Cancelled),
                seq![Effect::FlushPartQuietly, Effect::SaveManifestQuietly, Effect::Notify(Notice::Cancelled)],
            ),
            Observation::NetworkFailed(m) => finish(
                MachineModel { manifest: persisted(s, now), ..s },
                Err(DownloadError::Network(m)),
                seq![
                    Effect::FlushPartQuietly,
                    Effect::SaveManifestQuietly,
                    Effect::Notify(Notice::Failed(DownloadError::Network(m))),
                ],
            ),
            Observation::WriteFailed(m) => finish(s, Err(DownloadError::Write(m)), Seq::empty()),
            Observation::ChunkWritten(len) => {
                let bytes = (s.bytes_downloaded + len) as u64;
                let since = (s.bytes_since_manifest + len) as u64;
                let progress = Effect::Notify(Notice::Progress {
                    bytes_downloaded: bytes,
                    total_bytes: s.preflight.content_length,
                });
                let t = MachineModel { bytes_downloaded: bytes, bytes_since_manifest: since, ..s };
                if since >= MANIFEST_UPDATE_INTERVAL {
                    let u = MachineModel { bytes_since_manifest: 0, manifest: persisted(t, now), ..t };
                    (u, StepModel { effects: seq![progress, Effect::SaveManifestQuietly], command: Command::NextChunk })
                } else {
                    (t, StepModel { effects: seq![progress], command: Command::NextChunk })
                }
            },
            Observation::EndOfStream => goto(s, Phase::Flushing),
            _ => stay,
        },
        Phase::Flushing => match obs {
            Observation::Flushed(Ok(())) => {
                if s.request.expected_sha256 is Some {
                    goto(s, Phase::Hashing)
                } else {
                    let t = MachineModel { etag_mismatch: etag_mismatch_spec(s), ..s };
                    if s.preflight.content_length is Some {
                        goto(t, Phase::Sizing)
                    } else {
                        goto(t, Phase::CheckingMagic)
                    }
                }
            },
            Observation::Flushed(Err(m)) => finish(s, Err(DownloadError::Flush(m)), Seq::empty()),
            _ => stay,
        },
        Phase::Hashing => match obs {
            Observation::DigestComputed(Ok(actual)) => {
                let expected = s.request.expected_sha256.unwrap();
                if lowercase_of(actual@) != lowercase_of(expected@) {
                    reject_spec(s, DownloadError::Sha256Mismatch { expected, actual })
                } else {
                    goto(MachineModel { outcome: Some(ValidationOutcome::Sha256Verified), ..s }, Phase::Renaming)
                }
            },
            Observation::DigestComputed(Err(m)) => reject_spec(s, DownloadError::Digest(m)),
            _ => stay,
        },
        Phase::Sizing => match obs {
            Observation::SizeMeasured(Ok(n)) => {
                let expected = s.preflight.content_length.unwrap();
                if n != expected {
                    reject_spec(s, DownloadError::SizeMismatch { expected_bytes: expected, actual_bytes: n })
                } else {
                    goto(s, Phase::CheckingMagic)
                }
            },
            Observation::SizeMeasured(Err(m)) => reject_spec(s, DownloadError::Stat(m)),
            _ => stay,
        },
        Phase::CheckingMagic => match obs {
            Observation::MagicRead(Ok(bytes)) => {
                if is_gguf_magic_spec(bytes@) {
                    let outcome = match s.etag_mismatch {
                        Some(w) => w,
                        None => ValidationOutcome::StructuralPass,
                    };
                    goto(MachineModel { outcome: Some(outcome), ..s }, Phase::Renaming)
                } else {
                    reject_spec(s, DownloadError::NotGguf)
                }
            },
            Observation::MagicRead(Err(m)) => reject_spec(s, DownloadError::Magic(m)),
            _ => stay,
        },
        Phase::Renaming => match obs {
            Observation::Renamed(Ok(())) => {
                let outcome = s.outcome.unwrap();
                finish(
                    MachineModel { manifest: remove_spec(s.manifest, s.request.filename@), ..s },
                    Ok(outcome),
                    seq![Effect::SaveManifestQuietly, Effect::Notify(Notice::Complete(outcome))],
                )
            },
            Observation::Renamed(Err(m)) => finish(s, Err(DownloadError::Rename(m)), Seq::empty()),
            _ => stay,
        },
        Phase::Finished => stay,
    }
}

/// What the digest check decides for ASCII digests: a computed digest is
/// accepted exactly when it equals the expected one once ASCII capitals
/// are lowered (`t` is the state after the step from `s`).
pub open spec fn ascii_digest_check(s: MachineModel, obs: Observation, t: MachineModel) -> bool {
    s.phase == Phase::Hashing ==> match obs {
        Observation::DigestComputed(Ok(actual)) => {
            let expected = s.request.expected_sha256.unwrap();
            (all_ascii(actual@) && all_ascii(expected@)) ==> (t.phase == Phase::Renaming
                <==> ascii_lowercase(actual@) == ascii_lowercase(expected@))
        },
        _ => true,
    }
}

/// What a step may assume of its observation: a written chunk does not
/// overflow the byte counter, and the announced length leaves the space
/// requirement computable.
pub open spec fn step_allowed(s: MachineModel, obs: Observation) -> bool {
    &&& (s.phase == Phase::Transferring && obs is ChunkWritten) ==> s.bytes_downloaded + obs->ChunkWritten_0 <= u64::MAX
    &&& (s.phase == Phase::CheckingSpace) ==> (s.preflight.content_length matches Some(cl) && required_bytes_fits_spec(cl as nat))
}

/// The phases between recording the download in the manifest and its end.
pub open spec fn in_flight(p: Phase) -> bool {
    match p {
        Phase::SavingManifest | Phase::Requesting | Phase::OpeningPart | Phase::Transferring
        | Phase::Flushing | Phase::Hashing | Phase::Sizing | Phase::CheckingMagic | Phase::Renaming => true,
        _ => false,
    }
}

/// The machine's invariant: the counters are consistent, and the state
/// holds what its phase needs.
pub open spec fn machine_inv(s: MachineModel) -> bool {
    &&& s.bytes_since_manifest <= s.bytes_downloaded
    &&& s.phase == Phase::CheckingSpace ==> s.preflight.content_length is Some
    &&& s.phase == Phase::Hashing ==> s.request.expected_sha256 is Some
    &&& s.phase == Phase::Sizing ==> s.preflight.content_length is Some
    &&& s.phase == Phase::Renaming ==> s.outcome is Some
    &&& s.phase == Phase::Finished <==> s.result is Some
    &&& in_flight(s.phase) ==> has_entry(s.manifest, s.request.filename@)
}

// ─── Helpers ─────────────────────────────────────────────────────────────────

fn clone_opt_string(o: &Option<String>) -> (r: Option<String>)
    ensures
        r == *o,
{
    match o {
        Some(v) => Some(v.clone()),
        None => None,
    }
}

impl ValidationOutcome {
    /// A copy of this outcome.
    pub fn duplicate(&self) -> (r: ValidationOutcome)
        ensures
            r == *self,
    {
        match self {
            ValidationOutcome::Sha256Verified => ValidationOutcome::Sha256Verified,
            ValidationOutcome::StructuralPass => ValidationOutcome::StructuralPass,
            ValidationOutcome::ETagMismatch { expected, actual } => ValidationOutcome::ETagMismatch {
                expected: expected.clone(),
                actual: actual.clone(),
            },
        }
    }
}

impl DownloadError {
    /// A copy of this error.
    pub fn duplicate(&self) -> (r: DownloadError)
        ensures
            r == *self,
    {
        match self {
            DownloadError::CreateDir(m) => DownloadError::CreateDir(m.clone()),
            DownloadError::Head(m) => DownloadError::Head(m.clone()),
            DownloadError::InsufficientSpace(e) => DownloadError::InsufficientSpace(InsufficientSpace {
                required: e.required,
                available: e.available,
            }),
            DownloadError::SaveManifest(m) => DownloadError::SaveManifest(m.clone()),
            DownloadError::Request(m) => DownloadError::Request(m.clone()),
            DownloadError::UnexpectedStatus(c) => DownloadError::UnexpectedStatus(*c),
            DownloadError::OpenPart(m) => DownloadError::OpenPart(m.clone()),
            DownloadError::Cancelled => DownloadError::Cancelled,
            DownloadError::Network(m) => DownloadError::Network(m.clone()),
            DownloadError::Write(m) => DownloadError::Write(m.clone()),
            DownloadError::Flush(m) => DownloadError::Flush(m.clone()),
            DownloadError::Digest(m) => DownloadError::Digest(m.clone()),
            DownloadError::Sha256Mismatch { expected, actual } => DownloadError::Sha256Mismatch {
                expected: expected.clone(),
                actual: actual.clone(),
            },
            DownloadError::Stat(m) => DownloadError::Stat(m.clone()),
            DownloadError::SizeMismatch { expected_bytes, actual_bytes } => DownloadError::SizeMismatch {
                expected_bytes: *expected_bytes,
                actual_bytes: *actual_bytes,
            },
            DownloadError::Magic(m) => DownloadError::Magic(m.clone()),
            DownloadError::NotGguf => DownloadError::NotGguf,
            DownloadError::Rename(m) => DownloadError::Rename(m.clone()),
        }
    }
}

/// The preflight facts that the HEAD response's headers give.
pub fn preflight_from_headers(h: HeadHeaders) -> (r: PreflightResult)
    ensures
        r == preflight_spec(h),
{
    let content_length = match &h.content_length {
        Some(text) => parse_u64(text.as_str()),
        None => None,
    };
    let supports_range = match &h.accept_ranges {
        Some(v) => {
            let lower = to_lowercase(v.as_str());
            !str_eq(lower.as_str(), "none")
        },
        None => false,
    };
    PreflightResult { content_length, etag: h.etag, supports_range }
}

/// Return `true` if `bytes` are the GGUF magic bytes `GGUF`.
pub fn check_gguf_magic(bytes: &[u8]) -> (r: bool)
    ensures
        r == is_gguf_magic_spec(bytes@),
{
    let r = bytes.len() == 4 && bytes[0] == 0x47 && bytes[1] == 0x47 && bytes[2] == 0x55 && bytes[3] == 0x46;
    proof {
        if r {
            assert(bytes@ =~= seq![0x47u8, 0x47u8, 0x55u8, 0x46u8]);
        }
    }
    r
}

/// The name of the part file that a download of `filename` writes:
/// `<filename>.part`.
pub fn part_file_name(filename: &str) -> (r: String)
    ensures
        r@ == filename@ + ".part"@,
{
    concat2(filename, ".part")
}

/// The `Range` header value for resuming at byte `resume_from`:
/// `bytes=<resume_from>-`, or none when starting from the beginning.
pub fn range_header(resume_from: u64) -> (r: Option<String>)
    ensures
        resume_from == 0 ==> r is None,
        resume_from > 0 ==> (r matches Some(h) && h@ == "bytes="@ + decimal(resume_from as nat) + "-"@),
{
    if resume_from == 0 {
        return None;
    }
    let digits = u64_to_decimal(resume_from);
    let head = concat2("bytes=", digits.as_str());
    let h = concat2(head.as_str(), "-");
    Some(h)
}

/// The current Unix time in seconds (0 if the clock is before the epoch).
#[verifier::external_body]
pub(crate) fn unix_now_secs() -> u64 {
    std::time::SystemTime::now().duration_since(std::time::UNIX_EPOCH).unwrap_or_default().as_secs()
}

/// Record `request` at `bytes_downloaded` in `manifest`, stamped `now`.
pub fn persist_manifest_entry_at(
    manifest: &mut ResumeManifest,
    request: &DownloadRequest,
    bytes_downloaded: u64,
    total_bytes: Option<u64>,
    started_at_secs: u64,
    now: u64,
)
    ensures
        final(manifest)@ == upsert_spec(old(manifest)@,
            entry_spec(*request, bytes_downloaded, total_bytes, started_at_secs, now)),
{
    let entry = ResumeEntry {
        filename: request.filename.clone(),
        url: request.url.clone(),
        bytes_downloaded,
        total_bytes,
        started_at_secs,
        last_updated_secs: now,
        expected_sha256: clone_opt_string(&request.expected_sha256),
        expected_etag: clone_opt_string(&request.expected_etag),
    };
    proof {
        assert(entry == entry_spec(*request, bytes_downloaded, total_bytes, started_at_secs, now));
    }
    manifest.upsert(entry);
}

/// Record `request` at `bytes_downloaded` in `manifest`, stamped with the
/// current time.
pub fn persist_manifest_entry(
    manifest: &mut ResumeManifest,
    request: &DownloadRequest,
    bytes_downloaded: u64,
    total_bytes: Option<u64>,
    started_at_secs: u64,
)
    ensures
        exists|now: u64| final(manifest)@ == upsert_spec(old(manifest)@,
            #[trigger] entry_spec(*request, bytes_downloaded, total_bytes, started_at_secs, now)),
{
    let now = unix_now_secs();
    persist_manifest_entry_at(manifest, request, bytes_downloaded, total_bytes, started_at_secs, now);
}

// ─── The machine ─────────────────────────────────────────────────────────────

impl DownloadMachine {
    /// A machine for `request`, about to create the model directory.
    pub fn new(request: DownloadRequest) -> (m: DownloadMachine)
        ensures
            machine_inv(m@),
            m@.phase == Phase::CreatingDir,
            m@.request == request,
            m@.preflight == (PreflightResult { content_length: None, etag: None, supports_range: false }),
            m@.manifest == Seq::<ResumeEntry>::empty(),
            m@.resume_from == 0,
            m@.started_at == 0,
            m@.actual_etag is None,
            m@.bytes_downloaded == 0,
            m@.bytes_since_manifest == 0,
            m@.etag_mismatch is None,
            m@.outcome is None,
            m@.result is None,
    {
        DownloadMachine {
            phase: Phase::CreatingDir,
            request,
            preflight: PreflightResult { content_length: None, etag: None, supports_range: false },
            manifest: ResumeManifest::new(),
            resume_from: 0,
            started_at: 0,
            actual_etag: None,
            bytes_downloaded: 0,
            bytes_since_manifest: 0,
            etag_mismatch: None,
            outcome: None,
            result: None,
        }
    }

    /// The download's parameters.
    pub fn request(&self) -> (r: &DownloadRequest)
        ensures
            *r == self@.request,
    {
        &self.request
    }

    /// The resume manifest as the machine holds it (what a save writes).
    pub fn manifest(&self) -> (r: &ResumeManifest)
        ensures
            r@ == self@.manifest,
    {
        &self.manifest
    }

    /// Bytes in the part file so far, as the machine counts them.
    pub fn bytes_downloaded(&self) -> (r: u64)
        ensures
            r == self@.bytes_downloaded,
    {
        self.bytes_downloaded
    }

    /// What the preflight HEAD request told.
    pub fn preflight(&self) -> (r: &PreflightResult)
        ensures
            *r == self@.preflight,
    {
        &self.preflight
    }

    /// How the download ended, once it has.
    pub fn result(&self) -> (r: &Option<Result<ValidationOutcome, DownloadError>>)
        ensures
            *r == self@.result,
    {
        &self.result
    }

    /// The command the machine waits on.
    pub fn pending_command(&self) -> (c: Command)
        ensures
            c == awaiting(self@),
    {
        match self.phase {
            Phase::CreatingDir => Command::CreateModelDir,
            Phase::Preflight => Command::SendHead,
            Phase::CheckingSpace => Command::ListDisks,
            Phase::LoadingManifest => Command::LoadManifest,
            Phase::MeasuringPart => Command::MeasurePart,
            Phase::SavingManifest => Command::SaveManifest,
            Phase::Requesting => Command::SendGet { resume_from: self.resume_from },
            Phase::OpeningPart => Command::OpenPart { truncate: self.bytes_downloaded == 0 },
            Phase::Transferring => Command::NextChunk,
            Phase::Flushing => Command::FlushPart,
            Phase::Hashing => Command::ComputeDigest,
            Phase::Sizing => Command::MeasureFile,
            Phase::CheckingMagic => Command::ReadMagic,
            Phase::Renaming => Command::RenamePart,
            Phase::Finished => Command::Finish,
        }
    }

    fn stay(&self) -> (r: Step)
        ensures
            r@ == (StepModel { effects: Seq::empty(), command: awaiting(self@) }),
    {
        Step { effects: Vec::new(), command: self.pending_command() }
    }

    fn goto_phase(&mut self, phase: Phase) -> (r: Step)
        ensures
            (final(self)@, r@) == goto(old(self)@, phase),
    {
        self.phase = phase;
        let r = Step { effects: Vec::new(), command: self.pending_command() };
        proof {
            assert(r@.effects =~= Seq::<Effect>::empty());
        }
        r
    }

    fn finish_with(&mut self, result: Result<ValidationOutcome, DownloadError>, effects: Vec<Effect>) -> (r: Step)
        ensures
            (final(self)@, r@) == finish(old(self)@, result, effects@),
    {
        self.phase = Phase::Finished;
        self.result = Some(result);
        Step { effects, command: Command::Finish }
    }

    fn reject(&mut self, e: DownloadError) -> (r: Step)
        ensures
            (final(self)@, r@) == reject_spec(old(self)@, e),
    {
        self.manifest.remove(self.request.filename.as_str());
        let mut effects: Vec<Effect> = Vec::new();
        effects.push(Effect::RemovePartQuietly);
        effects.push(Effect::SaveManifestQuietly);
        effects.push(Effect::Notify(Notice::Failed(e.duplicate())));
        proof {
            assert(effects@ =~= seq![Effect::RemovePartQuietly, Effect::SaveManifestQuietly,
                Effect::Notify(Notice::Failed(e))]);
        }
        self.finish_with(Err(e), effects)
    }

    fn plan(&mut self, resume_from: u64, now: u64) -> (r: Step)
        ensures
            (final(self)@, r@) == plan_spec(old(self)@, resume_from, now),
            has_entry(final(self)@.manifest, old(self)@.request.filename@),
    {
        let started = match self.manifest.find(self.request.filename.as_str()) {
            Some(e) => e.started_at_secs,
            None => now,
        };
        let entry = ResumeEntry {
            filename: self.request.filename.clone(),
            url: self.request.url.clone(),
            bytes_downloaded: resume_from,
            total_bytes: self.preflight.content_length,
            started_at_secs: started,
            last_updated_secs: now,
            expected_sha256: clone_opt_string(&self.request.expected_sha256),
            expected_etag: clone_opt_string(&self.request.expected_etag),
        };
        proof {
            assert(entry == entry_spec(old(self)@.request, resume_from, old(self)@.preflight.content_length, started, now));
            lemma_upsert_has_entry(self.manifest@, entry);
        }
        self.manifest.upsert(entry);
        self.resume_from = resume_from;
        self.started_at = started;
        let r = self.goto_phase(Phase::SavingManifest);
        proof {
            assert((final(self)@, r@) == plan_spec(old(self)@, resume_from, now));
        }
        r
    }

    fn etag_mismatch(&self) -> (r: Option<ValidationOutcome>)
        ensures
            r == etag_mismatch_spec(self@),
    {
        let expected: Option<String> = match &self.request.expected_etag {
            Some(e) => Some(e.clone()),
            None => clone_opt_string(&self.preflight.etag),
        };
        match expected {
            Some(e) => match &self.actual_etag {
                Some(a) => {
                    if str_eq(e.as_str(), a.as_str()) {
                        None
                    } else {
                        Some(ValidationOutcome::ETagMismatch { expected: e, actual: a.clone() })
                    }
                },
                None => None,
            },
            None => None,
        }
    }

    /// Advance the machine with what the caller observed, reading the clock
    /// for the manifest's timestamps. Returns the effects to perform, in
    /// order, and the next command.
    pub fn step(&mut self, obs: Observation) -> (r: Step)
        requires
            machine_inv(old(self)@),
            step_allowed(old(self)@, obs),
        ensures
            machine_inv(final(self)@),
            exists|now: u64| (final(self)@, r@) == #[trigger] next(old(self)@, obs, now),
            ascii_digest_check(old(self)@, obs, final(self)@),
    {
        let now = unix_now_secs();
        self.step_at(obs, now)
    }

    /// Advance the machine with what the caller observed, the clock reading
    /// `now` (Unix seconds). Returns the effects to perform, in order, and
    /// the next command.
    pub fn step_at(&mut self, obs: Observation, now: u64) -> (r: Step)
        requires
            machine_inv(old(self)@),
            step_allowed(old(self)@, obs),
        ensures
            machine_inv(final(self)@),
            (final(self)@, r@) == next(old(self)@, obs, now),
            ascii_digest_check(old(self)@, obs, final(self)@),
    {
        match self.phase {
            Phase::CreatingDir => self.on_creating_dir(obs, now),
            Phase::Preflight => self.on_preflight(obs, now),
            Phase::CheckingSpace => self.on_checking_space(obs, now),
            Phase::LoadingManifest => self.on_loading_manifest(obs, now),
            Phase::MeasuringPart => self.on_measuring_part(obs, now),
            Phase::SavingManifest => self.on_saving_manifest(obs, now),
            Phase::Requesting => self.on_requesting(obs, now),
            Phase::OpeningPart => self.on_opening_part(obs, now),
            Phase::Transferring => self.on_transferring(obs, now),
            Phase::Flushing => self.on_flushing(obs, now),
            Phase::Hashing => self.on_hashing(obs, now),
            Phase::Sizing => self.on_sizing(obs, now),
            Phase::CheckingMagic => self.on_checking_magic(obs, now),
            Phase::Renaming => self.on_renaming(obs, now),
            Phase::Finished => {
                let r = self.stay();
                proof {
                    assert((self@, r@) == next(self@, obs, now));
                }
                r
            },
        }
    }

    fn on_creating_dir(&mut self, obs: Observation, now: u64) -> (r: Step)
        requires
            old(self)@.phase == Phase::CreatingDir,
            machine_inv(old(self)@),
        ensures
            machine_inv(final(self)@),
            (final(self)@, r@) == next(old(self)@, obs, now),
    {
        let ghost s = self@;
        let r = match obs {
            Observation::DirCreated(Ok(())) => self.goto_phase(Phase::Preflight),
            Observation::DirCreated(Err(m)) => self.finish_with(Err(DownloadError::CreateDir(m)), Vec::new()),
            _ => self.stay(),
        };
        proof {
            assert((self@, r@) == next(s, obs, now));
        }
        r
    }

    fn on_preflight(&mut self, obs: Observation, now: u64) -> (r: Step)
        requires
            old(self)@.phase == Phase::Preflight,
            machine_inv(old(self)@),
        ensures
            machine_inv(final(self)@),
            (final(self)@, r@) == next(old(self)@, obs, now),
    {
        let ghost s = self@;
        let ghost o = obs;
        let r = match obs {
            Observation::HeadDone(Ok(h)) => {
                let p = preflight_from_headers(h);
                let known = p.content_length.is_some();
                self.preflight = p;
                if known {
                    self.goto_phase(Phase::CheckingSpace)
                } else {
                    self.goto_phase(Phase::LoadingManifest)
                }
            },
            Observation::HeadDone(Err(m)) => self.finish_with(Err(DownloadError::Head(m)), Vec::new()),
            _ => self.stay(),
        };
        proof {
            assert((self@, r@) == next(s, o, now));
        }
        r
    }

    fn on_checking_space(&mut self, obs: Observation, now: u64) -> (r: Step)
        requires
            old(self)@.phase == Phase::CheckingSpace,
            machine_inv(old(self)@),
            step_allowed(old(self)@, obs),
        ensures
            machine_inv(final(self)@),
            (final(self)@, r@) == next(old(self)@, obs, now),
    {
        let ghost s = self@;
        let ghost o = obs;
        let r = match obs {
            Observation::DisksListed { model_dir, disks } => {
                let cl = self.preflight.content_length.unwrap();
                match check_disk_space(&model_dir, cl, &disks) {
                    Err(e) => self.finish_with(Err(DownloadError::InsufficientSpace(e)), Vec::new()),
                    Ok(()) => self.goto_phase(Phase::LoadingManifest),
                }
            },
            _ => self.stay(),
        };
        proof {
            assert((self@, r@) == next(s, o, now));
        }
        r
    }

    fn on_loading_manifest(&mut self, obs: Observation, now: u64) -> (r: Step)
        requires
            old(self)@.phase == Phase::LoadingManifest,
            machine_inv(old(self)@),
        ensures
            machine_inv(final(self)@),
            (final(self)@, r@) == next(old(self)@, obs, now),
    {
        let ghost s = self@;
        let ghost o = obs;
        match obs {
            Observation::ManifestLoaded(m) => {
                self.manifest = match m {
                    Some(man) => man,
                    None => ResumeManifest::new(),
                };
                if self.preflight.supports_range {
                    let r = self.goto_phase(Phase::MeasuringPart);
                    proof {
                        assert((self@, r@) == next(s, o, now));
                    }
                    r
                } else {
                    let ghost t = self@;
                    let r = self.plan(0, now);
                    proof {
                        assert((self@, r@) == next(s, o, now));
                    }
                    r
                }
            },
            _ => {
                let r = self.stay();
                proof {
                    assert((self@, r@) == next(s, o, now));
                }
                r
            },
        }
    }

    fn on_measuring_part(&mut self, obs: Observation, now: u64) -> (r: Step)
        requires
            old(self)@.phase == Phase::MeasuringPart,
            machine_inv(old(self)@),
        ensures
            machine_inv(final(self)@),
            (final(self)@, r@) == next(old(self)@, obs, now),
    {
        let ghost s = self@;
        let ghost o = obs;
        match obs {
            Observation::PartMeasured(len) => {
                let from = match len {
                    Some(n) => n,
                    None => 0,
                };
                let r = self.plan(from, now);
                proof {
                    assert((self@, r@) == next(s, o, now));
                }
                r
            },
            _ => {
                let r = self.stay();
                proof {
                    assert((self@, r@) == next(s, o, now));
                }
                r
            },
        }
    }

    fn on_saving_manifest(&mut self, obs: Observation, now: u64) -> (r: Step)
        requires
            old(self)@.phase == Phase::SavingManifest,
            machine_inv(old(self)@),
        ensures
            machine_inv(final(self)@),
            (final(self)@, r@) == next(old(self)@, obs, now),
    {
        let ghost s = self@;
        let ghost o = obs;
        let r = match obs {
            Observation::ManifestSaved(Ok(())) => self.goto_phase(Phase::Requesting),
            Observation::ManifestSaved(Err(m)) => self.finish_with(Err(DownloadError::SaveManifest(m)), Vec::new()),
            _ => self.stay(),
        };
        proof {
            assert((self@, r@) == next(s, o, now));
        }
        r
    }

    fn on_requesting(&mut self, obs: Observation, now: u64) -> (r: Step)
        requires
            old(self)@.phase == Phase::Requesting,
            machine_inv(old(self)@),
        ensures
            machine_inv(final(self)@),
            (final(self)@, r@) == next(old(self)@, obs, now),
    {
        let ghost s = self@;
        let ghost o = obs;
        let r = match obs {
            Observation::ResponseReceived(Ok(info)) => {
                if info.status == 200 || info.status == 206 {
                    let start: u64 = if info.status == 200 { 0 } else { self.resume_from };
                    self.actual_etag = info.etag;
                    self.bytes_downloaded = start;
                    self.bytes_since_manifest = 0;
                    self.goto_phase(Phase::OpeningPart)
                } else {
                    self.finish_with(Err(DownloadError::UnexpectedStatus(info.status)), Vec::new())
                }
            },
            Observation::ResponseReceived(Err(m)) => self.finish_with(Err(DownloadError::Request(m)), Vec::new()),
            _ => self.stay(),
        };
        proof {
            assert((self@, r@) == next(s, o, now));
        }
        r
    }

    fn on_opening_part(&mut self, obs: Observation, now: u64) -> (r: Step)
        requires
            old(self)@.phase == Phase::OpeningPart,
            machine_inv(old(self)@),
        ensures
            machine_inv(final(self)@),
            (final(self)@, r@) == next(old(self)@, obs, now),
    {
        let ghost s = self@;
        let ghost o = obs;
        let r = match obs {
            Observation::PartOpened(Ok(())) => self.goto_phase(Phase::Transferring),
            Observation::PartOpened(Err(m)) => self.finish_with(Err(DownloadError::OpenPart(m)), Vec::new()),
            _ => self.stay(),
        };
        proof {
            assert((self@, r@) == next(s, o, now));
        }
        r
    }

    fn on_transferring(&mut self, obs: Observation, now: u64) -> (r: Step)
        requires
            old(self)@.phase == Phase::Transferring,
            machine_inv(old(self)@),
            step_allowed(old(self)@, obs),
        ensures
            machine_inv(final(self)@),
            (final(self)@, r@) == next(old(self)@, obs, now),
    {
        let ghost s = self@;
        let ghost o = obs;
        match obs {
            Observation::CancelRequested => {
                persist_manifest_entry_at(&mut self.manifest, &self.request, self.bytes_downloaded,
                    self.preflight.content_length, self.started_at, now);
                let mut effects: Vec<Effect> = Vec::new();
                effects.push(Effect::FlushPartQuietly);
                effects.push(Effect::SaveManifestQuietly);
                effects.push(Effect::Notify(Notice::Cancelled));
                let r = self.finish_with(Err(DownloadError::Cancelled), effects);
                proof {
                    assert(effects@ =~= seq![Effect::FlushPartQuietly, Effect::SaveManifestQuietly, Effect::Notify(Notice::Cancelled)]);
                    assert((self@, r@) == next(s, o, now));
                }
                r
            },
            Observation::NetworkFailed(m) => {
                persist_manifest_entry_at(&mut self.manifest, &self.request, self.bytes_downloaded,
                    self.preflight.content_length, self.started_at, now);
                let mut effects: Vec<Effect> = Vec::new();
                effects.push(Effect::FlushPartQuietly);
                effects.push(Effect::SaveManifestQuietly);
                effects.push(Effect::Notify(Notice::Failed(DownloadError::Network(m.clone()))));
                let r = self.finish_with(Err(DownloadError::Network(m)), effects);
                proof {
                    assert(effects@ =~= seq![Effect::FlushPartQuietly, Effect::SaveManifestQuietly,
                        Effect::Notify(Notice::Failed(DownloadError::Network(m)))]);
                    assert((self@, r@) == next(s, o, now));
                }
                r
            },
            Observation::WriteFailed(m) => {
                let r = self.finish_with(Err(DownloadError::Write(m)), Vec::new());
                proof {
                    assert((self@, r@) == next(s, o, now));
                }
                r
            },
            Observation::ChunkWritten(len) => {
                let bytes = self.bytes_downloaded + len;
                let since = self.bytes_since_manifest + len;
                self.bytes_downloaded = bytes;
                self.bytes_since_manifest = since;
                let mut effects: Vec<Effect> = Vec::new();
                effects.push(Effect::Notify(Notice::Progress {
                    bytes_downloaded: bytes,
                    total_bytes: self.preflight.content_length,
                }));
                if since >= MANIFEST_UPDATE_INTERVAL {
                    let ghost t = self@;
                    self.bytes_since_manifest = 0;
                    persist_manifest_entry_at(&mut self.manifest, &self.request, bytes,
                        self.preflight.content_length, self.started_at, now);
                    proof {
                        assert(self.manifest@ == upsert_spec(t.manifest,
                            entry_spec(t.request, bytes, t.preflight.content_length, t.started_at, now)));
                        assert(self.manifest@ == persisted(t, now));
                        lemma_upsert_has_entry(t.manifest,
                            entry_spec(t.request, bytes, t.preflight.content_length, t.started_at, now));
                    }
                    effects.push(Effect::SaveManifestQuietly);
                    let r = Step { effects, command: Command::NextChunk };
                    proof {
                        assert(r@.effects =~= seq![Effect::Notify(Notice::Progress {
                            bytes_downloaded: bytes,
                            total_bytes: s.preflight.content_length,
                        }), Effect::SaveManifestQuietly]);
                        assert((self@, r@) == next(s, o, now));
                    }
                    r
                } else {
                    let r = Step { effects, command: Command::NextChunk };
                    proof {
                        assert(r@.effects =~= seq![Effect::Notify(Notice::Progress {
                            bytes_downloaded: bytes,
                            total_bytes: s.preflight.content_length,
                        })]);
                        assert((self@, r@) == next(s, o, now));
                    }
                    r
                }
            },
            Observation::EndOfStream => {
                let r = self.goto_phase(Phase::Flushing);
                proof {
                    assert((self@, r@) == next(s, o, now));
                }
                r
            },
            _ => {
                let r = self.stay();
                proof {
                    assert((self@, r@) == next(s, o, now));
                }
                r
            },
        }
    }

    fn on_flushing(&mut self, obs: Observation, now: u64) -> (r: Step)
        requires
            old(self)@.phase == Phase::Flushing,
            machine_inv(old(self)@),
        ensures
            machine_inv(final(self)@),
            (final(self)@, r@) == next(old(self)@, obs, now),
    {
        let ghost s = self@;
        let ghost o = obs;
        let r = match obs {
            Observation::Flushed(Ok(())) => {
                if self.request.expected_sha256.is_some() {
                    self.goto_phase(Phase::Hashing)
                } else {
                    self.etag_mismatch = self.etag_mismatch();
                    if self.preflight.content_length.is_some() {
                        self.goto_phase(Phase::Sizing)
                    } else {
                        self.goto_phase(Phase::CheckingMagic)
                    }
                }
            },
            Observation::Flushed(Err(m)) => self.finish_with(Err(DownloadError::Flush(m)), Vec::new()),
            _ => self.stay(),
        };
        proof {
            assert((self@, r@) == next(s, o, now));
        }
        r
    }

    fn on_hashing(&mut self, obs: Observation, now: u64) -> (r: Step)
        requires
            old(self)@.phase == Phase::Hashing,
            machine_inv(old(self)@),
        ensures
            machine_inv(final(self)@),
            (final(self)@, r@) == next(old(self)@, obs, now),
            ascii_digest_check(old(self)@, obs, final(self)@),
    {
        let ghost s = self@;
        let ghost o = obs;
        let r = match obs {
            Observation::DigestComputed(Ok(actual)) => {
                let expected = clone_opt_string(&self.request.expected_sha256).unwrap();
                let a = to_lowercase(actual.as_str());
                let e = to_lowercase(expected.as_str());
                if !str_eq(a.as_str(), e.as_str()) {
                    self.reject(DownloadError::Sha256Mismatch { expected, actual })
                } else {
                    self.outcome = Some(ValidationOutcome::Sha256Verified);
                    self.goto_phase(Phase::Renaming)
                }
            },
            Observation::DigestComputed(Err(m)) => self.reject(DownloadError::Digest(m)),
            _ => self.stay(),
        };
        proof {
            assert((self@, r@) == next(s, o, now));
        }
        r
    }

    fn on_sizing(&mut self, obs: Observation, now: u64) -> (r: Step)
        requires
            old(self)@.phase == Phase::Sizing,
            machine_inv(old(self)@),
        ensures
            machine_inv(final(self)@),
            (final(self)@, r@) == next(old(self)@, obs, now),
    {
        let ghost s = self@;
        let ghost o = obs;
        let r = match obs {
            Observation::SizeMeasured(Ok(n)) => {
                let expected = self.preflight.content_length.unwrap();
                if n != expected {
                    self.reject(DownloadError::SizeMismatch { expected_bytes: expected, actual_bytes: n })
                } else {
                    self.goto_phase(Phase::CheckingMagic)
                }
            },
            Observation::SizeMeasured(Err(m)) => self.reject(DownloadError::Stat(m)),
            _ => self.stay(),
        };
        proof {
            assert((self@, r@) == next(s, o, now));
        }
        r
    }

    fn on_checking_magic(&mut self, obs: Observation, now: u64) -> (r: Step)
        requires
            old(self)@.phase == Phase::CheckingMagic,
            machine_inv(old(self)@),
        ensures
            machine_inv(final(self)@),
            (final(self)@, r@) == next(old(self)@, obs, now),
    {
        let ghost s = self@;
        let ghost o = obs;
        let r = match obs {
            Observation::MagicRead(Ok(bytes)) => {
                if check_gguf_magic(bytes.as_slice()) {
                    let outcome = match &self.etag_mismatch {
                        Some(w) => w.duplicate(),
                        None => ValidationOutcome::StructuralPass,
                    };
                    self.outcome = Some(outcome);
                    self.goto_phase(Phase::Renaming)
                } else {
                    self.reject(DownloadError::NotGguf)
                }
            },
            Observation::MagicRead(Err(m)) => self.reject(DownloadError::Magic(m)),
            _ => self.stay(),
        };
        proof {
            assert((self@, r@) == next(s, o, now));
        }
        r
    }

    fn on_renaming(&mut self, obs: Observation, now: u64) -> (r: Step)
        requires
            old(self)@.phase == Phase::Renaming,
            machine_inv(old(self)@),
        ensures
            machine_inv(final(self)@),
            (final(self)@, r@) == next(old(self)@, obs, now),
    {
        let ghost s = self@;
        let ghost o = obs;
        let r = match obs {
            Observation::Renamed(Ok(())) => {
                let outcome = match &self.outcome {
                    Some(w) => w.duplicate(),
                    None => ValidationOutcome::StructuralPass,
                };
                self.manifest.remove(self.request.filename.as_str());
                let mut effects: Vec<Effect> = Vec::new();
                effects.push(Effect::SaveManifestQuietly);
                effects.push(Effect::Notify(Notice::Complete(outcome.duplicate())));
                proof {
                    assert(effects@ =~= seq![Effect::SaveManifestQuietly, Effect::Notify(Notice::Complete(outcome))]);
                }
                self.finish_with(Ok(outcome), effects)
            },
            Observation::Renamed(Err(m)) => self.finish_with(Err(DownloadError::Rename(m)), Vec::new()),
            _ => self.stay(),
        };
        proof {
            assert((self@, r@) == next(s, o, now));
        }
        r
    }
}

} // verus!
