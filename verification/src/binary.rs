//! The llama-server binary: which release asset fits the platform, where the
//! binary and its version lock live, what state the installation is in, and
//! the checks made while installing it. Never auto-updates: a version that
//! differs from the pin is reported, not replaced.
use vstd::prelude::*;
use crate::text::{append_str, copy_str, str_eq, str_contains, str_starts_with, trim, trim_spec,
    contains_piece, starts_with, chars_of};

verus! {

/// Pinned llama.cpp release build number.
pub const SUPPORTED_LLAMA_VERSION: &'static str = "b5234";

/// Name of the version lock file inside the binary directory.
pub const VERSION_LOCK: &'static str = "version.lock";

/// Describes the release asset for a platform.
#[derive(Debug, Clone)]
pub struct PlatformRelease {
    /// Full HTTPS download URL.
    pub url: String,
    /// Expected SHA256 hex digest, if the release publishes one.
    pub sha256: Option<String>,
    /// Filename of the `llama-server[.exe]` entry inside the zip archive.
    pub binary_entry: String,
}

/// Current status of the managed binary.
#[derive(Debug, Clone, PartialEq, Eq)]
pub enum BinaryStatus {
    /// Binary is absent or has no version lock.
    NotInstalled,
    /// Binary is present and matches the pinned version.
    Installed { version: String },
    /// Binary is present but its version differs from the pin.
    OutOfDate { installed: String, pinned: String },
}

/// No release asset is published for this OS and architecture.
#[derive(Debug)]
pub struct UnsupportedPlatform {
    pub os: String,
    pub arch: String,
}

/// The downloaded archive's SHA256 differs from the published one.
#[derive(Debug)]
pub struct DigestMismatch {
    pub expected: String,
    pub actual: String,
}

/// Manages the `llama-server` binary inside `bin_dir`.
pub struct BinaryManager {
    pub bin_dir: String,
}

// ─── Model ───────────────────────────────────────────────────────────────────

/// The release-asset suffix and binary entry for a supported (OS, arch).
pub open spec fn release_asset(os: Seq<char>, arch: Seq<char>) -> Option<(Seq<char>, Seq<char>)> {
    if os == "windows"@ && arch == "x86_64"@ {
        Some(("-bin-win-avx2-x64.zip"@, "llama-server.exe"@))
    } else if os == "macos"@ && arch == "aarch64"@ {
        Some(("-bin-macos-arm64.zip"@, "llama-server"@))
    } else if os == "macos"@ && arch == "x86_64"@ {
        Some(("-bin-macos-x64.zip"@, "llama-server"@))
    } else if os == "linux"@ && arch == "x86_64"@ {
        Some(("-bin-ubuntu-x64.zip"@, "llama-server"@))
    } else {
        None
    }
}

/// The download URL of the asset with the given suffix for version `v`.
pub open spec fn release_url(v: Seq<char>, suffix: Seq<char>) -> Seq<char> {
    "https://github.com/ggerganov/llama.cpp/releases/download/"@ + v + "/llama-"@ + v + suffix
}

/// The binary's file name on `os`.
pub open spec fn binary_filename_spec(os: Seq<char>) -> Seq<char> {
    if os == "windows"@ { "llama-server.exe"@ } else { "llama-server"@ }
}

/// The status for an installation whose binary exists or not and whose
/// version lock holds `lock` (already trimmed), if it exists.
pub open spec fn status_spec(binary_exists: bool, lock: Option<Seq<char>>) -> BinaryStatusView {
    if !binary_exists {
        BinaryStatusView::NotInstalled
    } else {
        match lock {
            None => BinaryStatusView::NotInstalled,
            Some(v) => if v == SUPPORTED_LLAMA_VERSION@ {
                BinaryStatusView::Installed(v)
            } else {
                BinaryStatusView::OutOfDate(v, SUPPORTED_LLAMA_VERSION@)
            },
        }
    }
}

/// What a `BinaryStatus` stands for.
pub enum BinaryStatusView {
    NotInstalled,
    Installed(Seq<char>),
    OutOfDate(Seq<char>, Seq<char>),
}

impl View for BinaryStatus {
    type V = BinaryStatusView;

    open spec fn view(&self) -> BinaryStatusView {
        match self {
            BinaryStatus::NotInstalled => BinaryStatusView::NotInstalled,
            BinaryStatus::Installed { version } => BinaryStatusView::Installed(version@),
            BinaryStatus::OutOfDate { installed, pinned } => BinaryStatusView::OutOfDate(installed@, pinned@),
        }
    }
}

/// The text after the last `/` of `s` (all of `s` when it has none).
pub open spec fn after_last(s: Seq<char>, is_sep: spec_fn(char) -> bool) -> Seq<char>
    decreases s.len(),
{
    if s.len() == 0 {
        s
    } else if is_sep(s.last()) {
        Seq::empty()
    } else {
        after_last(s.drop_last(), is_sep).push(s.last())
    }
}

/// `c` is `/`.
pub open spec fn is_slash(c: char) -> bool {
    c == '/'
}

/// `c` is `/` or `\`.
pub open spec fn is_path_sep(c: char) -> bool {
    c == '/' || c == '\\'
}

/// An archive entry name that could escape the destination: it holds `..`
/// or starts with `/` or `\`.
pub open spec fn is_traversal_name(name: Seq<char>) -> bool {
    contains_piece(name, ".."@) || starts_with(name, "/"@) || starts_with(name, "\\"@)
}

/// Whether the archive entry `name` is the binary `entry`: not a traversal
/// name, and its last path segment equals `entry`.
pub open spec fn entry_matches_spec(name: Seq<char>, entry: Seq<char>) -> bool {
    !is_traversal_name(name) && after_last(name, |c: char| is_path_sep(c)) == entry
}

// ─── Functions ───────────────────────────────────────────────────────────────

/// Return the release descriptor for `os` and `arch` (as
/// `std::env::consts::OS` and `ARCH` name them). Supported combinations:
/// Windows x86_64, macOS aarch64, macOS x86_64, Linux x86_64.
pub fn platform_release(os: &str, arch: &str) -> (r: Result<PlatformRelease, UnsupportedPlatform>)
    ensures
        match release_asset(os@, arch@) {
            Some(asset) => r matches Ok(rel) && rel.url@ == release_url(SUPPORTED_LLAMA_VERSION@, asset.0)
                && rel.sha256 is None && rel.binary_entry@ == asset.1,
            None => r matches Err(e) && e.os@ == os@ && e.arch@ == arch@,
        },
{
    let windows = str_eq(os, "windows");
    let macos = str_eq(os, "macos");
    let linux = str_eq(os, "linux");
    let x86_64 = str_eq(arch, "x86_64");
    let aarch64 = str_eq(arch, "aarch64");
    let (suffix, entry): (&str, &str) = if windows && x86_64 {
        ("-bin-win-avx2-x64.zip", "llama-server.exe")
    } else if macos && aarch64 {
        ("-bin-macos-arm64.zip", "llama-server")
    } else if macos && x86_64 {
        ("-bin-macos-x64.zip", "llama-server")
    } else if linux && x86_64 {
        ("-bin-ubuntu-x64.zip", "llama-server")
    } else {
        return Err(UnsupportedPlatform { os: copy_str(os), arch: copy_str(arch) });
    };
    let v = SUPPORTED_LLAMA_VERSION;
    let mut url = String::new();
    append_str(&mut url, "https://github.com/ggerganov/llama.cpp/releases/download/");
    append_str(&mut url, v);
    append_str(&mut url, "/llama-");
    append_str(&mut url, v);
    append_str(&mut url, suffix);
    proof {
        assert(url@ =~= release_url(SUPPORTED_LLAMA_VERSION@, suffix@));
    }
    Ok(PlatformRelease { url, sha256: None, binary_entry: copy_str(entry) })
}

/// The binary's file name on `os`: `llama-server.exe` on Windows,
/// `llama-server` elsewhere.
pub fn binary_filename(os: &str) -> (r: &'static str)
    ensures
        r@ == binary_filename_spec(os@),
{
    if str_eq(os, "windows") { "llama-server.exe" } else { "llama-server" }
}

/// The archive's file name: the URL's text after its last `/`.
pub fn archive_name(url: &str) -> (r: String)
    ensures
        r@ == after_last(url@, |c: char| is_slash(c)),
{
    last_segment(url, false)
}

/// The text of `s` after its last separator (`/`, and `\` too when
/// `backslash` is set).
fn last_segment(s: &str, backslash: bool) -> (r: String)
    ensures
        backslash ==> r@ == after_last(s@, |c: char| is_path_sep(c)),
        !backslash ==> r@ == after_last(s@, |c: char| is_slash(c)),
{
    let v = chars_of(s);
    let ghost sep = if backslash { |c: char| is_path_sep(c) } else { |c: char| is_slash(c) };
    let mut out: Vec<char> = Vec::new();
    let mut i: usize = 0;
    while i < v.len()
        invariant
            v@ == s@,
            i <= v.len(),
            sep == (if backslash { |c: char| is_path_sep(c) } else { |c: char| is_slash(c) }),
            out@ == after_last(v@.take(i as int), sep),
        decreases v.len() - i,
    {
        let c = v[i];
        proof {
            assert(v@.take(i + 1).drop_last() == v@.take(i as int));
            assert(v@.take(i + 1).last() == c);
        }
        if c == '/' || (backslash && c == '\\') {
            out = Vec::new();
            proof {
                assert(out@ =~= Seq::<char>::empty());
            }
        } else {
            out.push(c);
        }
        i += 1;
    }
    proof {
        assert(v@.take(v.len() as int) == v@);
    }
    crate::text::string_from_chars(&out)
}

/// Whether the archive entry `name` is the binary `entry`: entries whose
/// name holds `..` or starts with `/` or `\` are skipped; the rest match by
/// their last path segment.
pub fn archive_entry_matches(name: &str, entry: &str) -> (r: bool)
    ensures
        r == entry_matches_spec(name@, entry@),
{
    if str_contains(name, "..") || str_starts_with(name, "/") || str_starts_with(name, "\\") {
        return false;
    }
    let base = last_segment(name, true);
    str_eq(base.as_str(), entry)
}

/// The index of the archive entry to extract as the binary `entry`: the
/// first of `names` (the archive's entry names, in order) that
/// `archive_entry_matches` accepts, or `None` when none does.
pub fn first_matching_entry(names: &Vec<String>, entry: &str) -> (r: Option<usize>)
    ensures
        match r {
            Some(i) => {
                &&& i < names@.len()
                &&& entry_matches_spec(names@[i as int]@, entry@)
                &&& forall|j: int| 0 <= j < i ==> !entry_matches_spec(#[trigger] names@[j]@, entry@)
            },
            None => forall|j: int| 0 <= j < names@.len() ==> !entry_matches_spec(#[trigger] names@[j]@, entry@),
        },
{
    let mut i: usize = 0;
    while i < names.len()
        invariant
            i <= names.len(),
            forall|j: int| 0 <= j < i ==> !entry_matches_spec(#[trigger] names@[j]@, entry@),
        decreases names.len() - i,
    {
        if archive_entry_matches(names[i].as_str(), entry) {
            return Some(i);
        }
        i += 1;
    }
    None
}

/// The permission bits that make a file executable: `mode | 0o755`.
pub fn executable_mode(mode: u32) -> (r: u32)
    ensures
        r == mode | 0o755u32,
{
    mode | 0o755
}

impl BinaryManager {
    /// A manager for the binary directory `bin_dir`.
    pub fn new(bin_dir: String) -> (m: BinaryManager)
        ensures
            m.bin_dir@ == bin_dir@,
    {
        BinaryManager { bin_dir }
    }

    /// The installed version as the lock file's contents give it: the
    /// contents without surrounding white space.
    pub fn parse_version_lock(contents: &str) -> (r: String)
        ensures
            r@ == trim_spec(contents@),
    {
        trim(contents)
    }

    /// The status of an installation whose binary exists or not
    /// (`binary_exists`) and whose lock file holds `version_lock` (the
    /// parsed version, `None` when there is no lock file).
    pub fn status(binary_exists: bool, version_lock: Option<String>) -> (r: BinaryStatus)
        ensures
            r@ == status_spec(binary_exists, match version_lock {
                Some(v) => Some(v@),
                None => None,
            }),
    {
        if !binary_exists {
            return BinaryStatus::NotInstalled;
        }
        match version_lock {
            None => BinaryStatus::NotInstalled,
            Some(v) => {
                if str_eq(v.as_str(), SUPPORTED_LLAMA_VERSION) {
                    BinaryStatus::Installed { version: v }
                } else {
                    BinaryStatus::OutOfDate { installed: v, pinned: copy_str(SUPPORTED_LLAMA_VERSION) }
                }
            },
        }
    }
}

// ─── Installation ────────────────────────────────────────────────────────────

/// Why an installation failed.
#[derive(Debug)]
pub enum InstallError {
    /// The archive could not be downloaded.
    Download(String),
    /// The archive's SHA256 could not be computed.
    Digest(String),
    /// The archive's SHA256 differs from the published one.
    DigestMismatch(DigestMismatch),
    /// The binary could not be extracted.
    Extract(String),
    /// The binary could not be made executable.
    MakeExecutable(String),
    /// The version lock could not be written.
    WriteLock(String),
}

/// What the caller observed while carrying out the last install command.
pub enum InstallObservation {
    ArchiveDownloaded(Result<(), String>),
    /// Lowercase hex SHA256 of the archive.
    DigestComputed(Result<String, String>),
    BinaryExtracted(Result<(), String>),
    MadeExecutable(Result<(), String>),
    VersionLockWritten(Result<(), String>),
}

/// The next thing the caller must do for the installation.
pub enum InstallCommand {
    /// Download `release().url` to `archive_name()` in the binary directory.
    DownloadArchive,
    /// Compute the SHA256 of the archive.
    ComputeDigest,
    /// Extract the entry `release().binary_entry` to `binary_name()` in the
    /// binary directory.
    ExtractBinary,
    /// Set the binary's permissions with `executable_mode` (Unix only).
    MakeExecutable,
    /// Delete the archive, ignoring errors, then write `version_to_lock()`
    /// to the version lock.
    RemoveArchiveThenWriteLock,
    /// Delete the archive, ignoring errors, then stop: `result()` tells.
    RemoveArchiveThenFinish,
    /// Stop: `result()` tells how the installation ended.
    Finish,
}

/// Where an installation stands.
pub enum InstallPhase {
    Downloading,
    Verifying,
    Extracting,
    MarkingExecutable,
    WritingLock,
    Finished,
}

/// An installation of the pinned release in progress.
pub struct InstallPlan {
    phase: InstallPhase,
    release: PlatformRelease,
    archive_name: String,
    binary_name: &'static str,
    unix: bool,
    result: Option<Result<(), InstallError>>,
}

/// What an installation stands for.
pub struct InstallModel {
    pub phase: InstallPhase,
    pub release: PlatformRelease,
    pub archive_name: Seq<char>,
    pub binary_name: Seq<char>,
    pub unix: bool,
    pub result: Option<Result<(), InstallError>>,
}

impl View for InstallPlan {
    type V = InstallModel;

    closed spec fn view(&self) -> InstallModel {
        InstallModel {
            phase: self.phase,
            release: self.release,
            archive_name: self.archive_name@,
            binary_name: self.binary_name@,
            unix: self.unix,
            result: self.result,
        }
    }
}

/// The command an installation in state `s` waits on.
pub open spec fn install_awaiting(s: InstallModel) -> InstallCommand {
    match s.phase {
        InstallPhase::Downloading => InstallCommand::DownloadArchive,
        InstallPhase::Verifying => InstallCommand::ComputeDigest,
        InstallPhase::Extracting => InstallCommand::ExtractBinary,
        InstallPhase::MarkingExecutable => InstallCommand::MakeExecutable,
        InstallPhase::WritingLock => InstallCommand::RemoveArchiveThenWriteLock,
        InstallPhase::Finished => match s.result {
            Some(Err(InstallError::DigestMismatch(_))) => InstallCommand::RemoveArchiveThenFinish,
            _ => InstallCommand::Finish,
        },
    }
}

/// The installation's state after the binary is in place: made executable
/// on Unix, then the archive removed and the lock written.
pub open spec fn after_extract(s: InstallModel) -> InstallPhase {
    if s.unix { InstallPhase::MarkingExecutable } else { InstallPhase::WritingLock }
}

/// One step of an installation. An observation that the phase does not
/// wait for changes nothing.
pub open spec fn install_next(s: InstallModel, obs: InstallObservation) -> (InstallModel, InstallCommand) {
    let fail = |e: InstallError| {
        let t = InstallModel { phase: InstallPhase::Finished, result: Some(Err(e)), ..s };
        (t, install_awaiting(t))
    };
    let go = |p: InstallPhase| {
        let t = InstallModel { phase: p, ..s };
        (t, install_awaiting(t))
    };
    match (s.phase, obs) {
        (InstallPhase::Downloading, InstallObservation::ArchiveDownloaded(Ok(()))) => if s.release.sha256 is Some {
            go(InstallPhase::Verifying)
        } else {
            go(InstallPhase::Extracting)
        },
        (InstallPhase::Downloading, InstallObservation::ArchiveDownloaded(Err(m))) => fail(InstallError::Download(m)),
        (InstallPhase::Verifying, InstallObservation::DigestComputed(Ok(actual))) => {
            let expected = s.release.sha256.unwrap();
            if actual@ == expected@ {
                go(InstallPhase::Extracting)
            } else {
                fail(InstallError::DigestMismatch(DigestMismatch { expected, actual }))
            }
        },
        (InstallPhase::Verifying, InstallObservation::DigestComputed(Err(m))) => fail(InstallError::Digest(m)),
        (InstallPhase::Extracting, InstallObservation::BinaryExtracted(Ok(()))) => go(after_extract(s)),
        (InstallPhase::Extracting, InstallObservation::BinaryExtracted(Err(m))) => fail(InstallError::Extract(m)),
        (InstallPhase::MarkingExecutable, InstallObservation::MadeExecutable(Ok(()))) => go(InstallPhase::WritingLock),
        (InstallPhase::MarkingExecutable, InstallObservation::MadeExecutable(Err(m))) => fail(InstallError::MakeExecutable(m)),
        (InstallPhase::WritingLock, InstallObservation::VersionLockWritten(Ok(()))) => {
            let t = InstallModel { phase: InstallPhase::Finished, result: Some(Ok(())), ..s };
            (t, InstallCommand::Finish)
        },
        (InstallPhase::WritingLock, InstallObservation::VersionLockWritten(Err(m))) => fail(InstallError::WriteLock(m)),
        _ => (s, install_awaiting(s)),
    }
}

/// The installation's invariant: the digest is checked only when one is
/// published, and a finished installation has its result.
pub open spec fn install_inv(s: InstallModel) -> bool {
    &&& s.phase == InstallPhase::Verifying ==> s.release.sha256 is Some
    &&& s.phase == InstallPhase::Finished <==> s.result is Some
}

impl InstallPlan {
    /// Plan the installation of the pinned release for `os` and `arch`;
    /// `unix` tells whether the binary must be made executable. The archive
    /// is stored in the binary directory under the name that ends its URL,
    /// the binary under `binary_filename(os)`.
    pub fn new(os: &str, arch: &str, unix: bool) -> (r: Result<InstallPlan, UnsupportedPlatform>)
        ensures
            match release_asset(os@, arch@) {
                Some(asset) => r matches Ok(p) && {
                    &&& install_inv(p@)
                    &&& p@.phase == InstallPhase::Downloading
                    &&& p@.release.url@ == release_url(SUPPORTED_LLAMA_VERSION@, asset.0)
                    &&& p@.release.sha256 is None
                    &&& p@.release.binary_entry@ == asset.1
                    &&& p@.archive_name == after_last(p@.release.url@, |c: char| is_slash(c))
                    &&& p@.binary_name == binary_filename_spec(os@)
                    &&& p@.unix == unix
                    &&& p@.result is None
                },
                None => r matches Err(e) && e.os@ == os@ && e.arch@ == arch@,
            },
    {
        let release = match platform_release(os, arch) {
            Ok(rel) => rel,
            Err(e) => return Err(e),
        };
        let archive_name = archive_name(release.url.as_str());
        let binary_name = binary_filename(os);
        Ok(InstallPlan { phase: InstallPhase::Downloading, release, archive_name, binary_name, unix, result: None })
    }

    /// The release being installed.
    pub fn release(&self) -> (r: &PlatformRelease)
        ensures
            *r == self@.release,
    {
        &self.release
    }

    /// The archive's file name in the binary directory.
    pub fn archive_name(&self) -> (r: &str)
        ensures
            r@ == self@.archive_name,
    {
        self.archive_name.as_str()
    }

    /// The text written to the version lock once the binary is in place:
    /// the pinned release.
    pub fn version_to_lock(&self) -> (r: &'static str)
        ensures
            r@ == SUPPORTED_LLAMA_VERSION@,
    {
        SUPPORTED_LLAMA_VERSION
    }

    /// The binary's file name in the binary directory.
    pub fn binary_name(&self) -> (r: &str)
        ensures
            r@ == self@.binary_name,
    {
        self.binary_name
    }

    /// How the installation ended, once it has.
    pub fn result(&self) -> (r: &Option<Result<(), InstallError>>)
        ensures
            *r == self@.result,
    {
        &self.result
    }

    /// The command the installation waits on.
    pub fn pending_command(&self) -> (c: InstallCommand)
        ensures
            c == install_awaiting(self@),
    {
        match self.phase {
            InstallPhase::Downloading => InstallCommand::DownloadArchive,
            InstallPhase::Verifying => InstallCommand::ComputeDigest,
            InstallPhase::Extracting => InstallCommand::ExtractBinary,
            InstallPhase::MarkingExecutable => InstallCommand::MakeExecutable,
            InstallPhase::WritingLock => InstallCommand::RemoveArchiveThenWriteLock,
            InstallPhase::Finished => match &self.result {
                Some(Err(InstallError::DigestMismatch(_))) => InstallCommand::RemoveArchiveThenFinish,
                _ => InstallCommand::Finish,
            },
        }
    }

    fn go(&mut self, phase: InstallPhase) -> (c: InstallCommand)
        ensures
            final(self)@ == (InstallModel { phase, ..old(self)@ }),
            c == install_awaiting(final(self)@),
    {
        self.phase = phase;
        self.pending_command()
    }

    fn fail(&mut self, e: InstallError) -> (c: InstallCommand)
        ensures
            final(self)@ == (InstallModel { phase: InstallPhase::Finished, result: Some(Err(e)), ..old(self)@ }),
            c == install_awaiting(final(self)@),
    {
        self.phase = InstallPhase::Finished;
        self.result = Some(Err(e));
        self.pending_command()
    }

    /// Advance the installation with what the caller observed; returns the
    /// next command.
    pub fn step(&mut self, obs: InstallObservation) -> (c: InstallCommand)
        requires
            install_inv(old(self)@),
        ensures
            install_inv(final(self)@),
            (final(self)@, c) == install_next(old(self)@, obs),
    {
        let ghost s = self@;
        let ghost o = obs;
        let c = match self.phase {
            InstallPhase::Downloading => match obs {
                InstallObservation::ArchiveDownloaded(Ok(())) => {
                    if self.release.sha256.is_some() {
                        self.go(InstallPhase::Verifying)
                    } else {
                        self.go(InstallPhase::Extracting)
                    }
                },
                InstallObservation::ArchiveDownloaded(Err(m)) => self.fail(InstallError::Download(m)),
                _ => self.pending_command(),
            },
            InstallPhase::Verifying => match obs {
                InstallObservation::DigestComputed(Ok(actual)) => {
                    let expected = match &self.release.sha256 {
                        Some(e) => e.clone(),
                        None => String::new(),
                    };
                    if str_eq(actual.as_str(), expected.as_str()) {
                        self.go(InstallPhase::Extracting)
                    } else {
                        self.fail(InstallError::DigestMismatch(DigestMismatch { expected, actual }))
                    }
                },
                InstallObservation::DigestComputed(Err(m)) => self.fail(InstallError::Digest(m)),
                _ => self.pending_command(),
            },
            InstallPhase::Extracting => match obs {
                InstallObservation::BinaryExtracted(Ok(())) => {
                    if self.unix {
                        self.go(InstallPhase::MarkingExecutable)
                    } else {
                        self.go(InstallPhase::WritingLock)
                    }
                },
                InstallObservation::BinaryExtracted(Err(m)) => self.fail(InstallError::Extract(m)),
                _ => self.pending_command(),
            },
            InstallPhase::MarkingExecutable => match obs {
                InstallObservation::MadeExecutable(Ok(())) => self.go(InstallPhase::WritingLock),
                InstallObservation::MadeExecutable(Err(m)) => self.fail(InstallError::MakeExecutable(m)),
                _ => self.pending_command(),
            },
            InstallPhase::WritingLock => match obs {
                InstallObservation::VersionLockWritten(Ok(())) => {
                    self.phase = InstallPhase::Finished;
                    self.result = Some(Ok(()));
                    InstallCommand::Finish
                },
                InstallObservation::VersionLockWritten(Err(m)) => self.fail(InstallError::WriteLock(m)),
                _ => self.pending_command(),
            },
            InstallPhase::Finished => self.pending_command(),
        };
        proof {
            assert((self@, c) == install_next(s, o));
        }
        c
    }
}

} // verus!
