use llm_toolkit::digest::Sha256Hasher;
use std::path::{Component, Path};

use llm_toolkit::disks::{check_disk_space, DiskInfo};
use llm_toolkit::paths::PathComponent;
use llm_toolkit::download::{
    check_gguf_magic, part_file_name, persist_manifest_entry, persist_manifest_entry_at, preflight_from_headers, range_header, Command, DownloadError,
    DownloadMachine, DownloadRequest, Effect, HeadHeaders, Notice, Observation, ResponseInfo, Step,
    ValidationOutcome,
};
use llm_toolkit::recovery::{partial_download_info, scan_partial_entries, strip_part, DirEntryInfo};
use llm_toolkit::resume::{ResumeEntry, ResumeManifest};
use llm_toolkit::space::{required_bytes, required_bytes_fits};

/// The components of a Unix path, as `Path::components` gives them here.
fn comps(path: &str) -> Vec<PathComponent> {
    Path::new(path)
        .components()
        .map(|c| match c {
            Component::RootDir => PathComponent::RootDir,
            Component::CurDir => PathComponent::CurDir,
            Component::ParentDir => PathComponent::ParentDir,
            Component::Normal(s) => PathComponent::Normal(s.as_encoded_bytes().to_vec()),
            Component::Prefix(_) => unreachable!("Unix paths have no prefix"),
        })
        .collect()
}

/// One disk mounted at `/` with `free` bytes available.
fn root_disk(free: u64) -> Vec<DiskInfo> {
    vec![DiskInfo { mount_point: comps("/"), mount_point_len: 1, available_space: free }]
}

fn sample_entry(filename: &str) -> ResumeEntry {
    ResumeEntry {
        filename: filename.to_string(),
        url: format!("https://example.com/{filename}"),
        bytes_downloaded: 1000,
        total_bytes: Some(5000),
        started_at_secs: 1_000_000,
        last_updated_secs: 1_000_100,
        expected_sha256: None,
        expected_etag: None,
    }
}

/// required_bytes must equal content_length * 1.10 + 500 MB.
#[test]
fn required_bytes_formula() {
    let one_gib: u64 = 1_073_741_824;
    let result = required_bytes(one_gib);
    let expected = (one_gib as f64 * 1.10) as u64 + 500 * 1024 * 1024;
    assert_eq!(result, expected);
}

#[test]
fn required_bytes_matches_binary64_everywhere_tried() {
    let samples: [u64; 16] = [
        0,
        1,
        9,
        10,
        123_456_789,
        4_368_040_000,
        (1 << 53) - 1,
        1 << 53,
        (1 << 53) + 1,
        (1 << 53) + 3,
        12_345_678_901_234_567,
        16_000_000_000_000_000_000,
        16_769_767_339_735_956_000,
        16_769_767_339_735_955_000,
        987_654_321_987,
        u64::MAX / 3,
    ];
    for &x in samples.iter() {
        let overhead = (x as f64 * 1.10) as u64;
        let fits = overhead.checked_add(500 * 1024 * 1024).is_some();
        assert_eq!(required_bytes_fits(x), fits, "fits for {x}");
        if fits {
            assert_eq!(required_bytes(x), overhead + 500 * 1024 * 1024, "value for {x}");
        }
    }
    assert!(!required_bytes_fits(u64::MAX));
}

#[test]
fn check_disk_space_zero_content_does_not_panic() {
    let dir = comps("/tmp");
    let disks = root_disk(10);
    let _ = check_disk_space(&dir, 0, &disks);
}

#[test]
fn check_disk_space_compares_required_with_free() {
    let dir = comps("/home/u/models");
    let plenty = root_disk(2_000_000_000);
    assert!(check_disk_space(&dir, 1_073_741_824, &plenty).is_ok());
    let tight = root_disk(1_705_404_005);
    match check_disk_space(&dir, 1_073_741_824, &tight) {
        Err(e) => {
            assert_eq!(e.required, 1_705_404_006);
            assert_eq!(e.available, 1_705_404_005);
        }
        Ok(()) => panic!("one byte short must be refused"),
    }
    let exact = root_disk(1_705_404_006);
    assert!(check_disk_space(&dir, 1_073_741_824, &exact).is_ok());
}

#[test]
fn manifest_upsert_insert_and_update() {
    let mut m = ResumeManifest::new();
    m.upsert(sample_entry("a.gguf"));
    assert_eq!(m.entries.len(), 1);

    let mut updated = sample_entry("a.gguf");
    updated.bytes_downloaded = 9999;
    m.upsert(updated);
    assert_eq!(m.entries.len(), 1, "upsert must not duplicate");
    assert_eq!(m.entries[0].bytes_downloaded, 9999);
}

#[test]
fn manifest_remove_correct_entry() {
    let mut m = ResumeManifest::new();
    m.upsert(sample_entry("a.gguf"));
    m.upsert(sample_entry("b.gguf"));
    m.remove("a.gguf");
    assert_eq!(m.entries.len(), 1);
    assert_eq!(m.entries[0].filename, "b.gguf");
}

#[test]
fn manifest_find_and_remove_every_duplicate() {
    let mut m = ResumeManifest::new();
    m.entries.push(sample_entry("a.gguf"));
    m.entries.push(sample_entry("b.gguf"));
    let mut dup = sample_entry("a.gguf");
    dup.bytes_downloaded = 7;
    m.entries.push(dup);
    assert_eq!(m.find("a.gguf").map(|e| e.bytes_downloaded), Some(1000));
    let mut replacement = sample_entry("a.gguf");
    replacement.bytes_downloaded = 42;
    m.upsert(replacement);
    assert_eq!(m.entries[0].bytes_downloaded, 42);
    assert_eq!(m.entries[2].bytes_downloaded, 7);
    m.remove("a.gguf");
    assert_eq!(m.entries.len(), 1);
    assert!(m.find("a.gguf").is_none());
}

#[test]
fn persist_records_resume_point() {
    let mut m = ResumeManifest::new();
    let req = request(Some("ab".to_string()), None);
    persist_manifest_entry(&mut m, &req, 123, Some(456), 77);
    let e = m.find("model.gguf").expect("entry");
    assert_eq!(e.bytes_downloaded, 123);
    assert_eq!(e.total_bytes, Some(456));
    assert_eq!(e.started_at_secs, 77);
    assert_eq!(e.url, "https://example.com/model.gguf");
    assert_eq!(e.expected_sha256.as_deref(), Some("ab"));
    assert!(e.last_updated_secs > 1_600_000_000);
}

#[test]
fn persist_at_stamps_the_given_time() {
    let mut m = ResumeManifest::new();
    let req = request(None, Some("\"e1\"".to_string()));
    persist_manifest_entry_at(&mut m, &req, 10, None, 5, 1_700_000_123);
    persist_manifest_entry_at(&mut m, &req, 20, None, 5, 1_700_000_456);
    assert_eq!(m.entries.len(), 1);
    assert_eq!(m.entries[0].bytes_downloaded, 20);
    assert_eq!(m.entries[0].last_updated_secs, 1_700_000_456);
    assert_eq!(m.entries[0].expected_etag.as_deref(), Some("\"e1\""));
}

#[test]
fn remove_twice_and_upsert_then_remove() {
    let mut m = ResumeManifest::new();
    m.upsert(sample_entry("a.gguf"));
    m.upsert(sample_entry("b.gguf"));
    m.remove("a.gguf");
    m.remove("a.gguf");
    assert_eq!(m.entries.len(), 1);
    assert_eq!(m.entries[0].filename, "b.gguf");
    m.upsert(sample_entry("c.gguf"));
    m.remove("c.gguf");
    assert_eq!(m.entries.len(), 1);
    assert_eq!(m.entries[0].filename, "b.gguf");
    m.remove("missing.gguf");
    assert_eq!(m.entries.len(), 1);
}

#[test]
fn part_file_names() {
    assert_eq!(part_file_name("model.gguf"), "model.gguf.part");
    assert_eq!(part_file_name(""), ".part");
}

#[test]
fn gguf_magic_valid() {
    assert!(check_gguf_magic(b"GGUF"), "valid GGUF magic must return true");
}

#[test]
fn gguf_magic_invalid() {
    assert!(!check_gguf_magic(b"NOTG"), "invalid magic must return false");
    assert!(!check_gguf_magic(b"GGU"));
}

fn sha256_hex(data: &[u8]) -> String {
    let mut h = Sha256Hasher::new();
    h.update(data);
    h.finalize_hex()
}

#[test]
fn sha256_deterministic_and_unique() {
    let h_a1 = sha256_hex(b"content-A");
    let h_a2 = sha256_hex(b"content-A");
    let h_b = sha256_hex(b"content-B");
    assert_eq!(h_a1, h_a2, "same content → same hash");
    assert_ne!(h_a1, h_b, "different content → different hash");
    assert_eq!(h_a1.len(), 64, "SHA256 hex must be 64 characters");
}

#[test]
fn sha256_known_value_and_streaming() {
    assert_eq!(sha256_hex(b""), "e3b0c44298fc1c149afbf4c8996fb92427ae41e4649b934ca495991b7852b855");
    let mut h = Sha256Hasher::new();
    h.update(b"ab");
    h.update(b"c");
    assert_eq!(h.finalize_hex(), "ba7816bf8f01cfea414140de5dae2223b00361a396177a9cb410ff61f20015ad");
}

#[test]
fn scan_finds_part_files() {
    let mut m = ResumeManifest::new();
    let mut e = sample_entry("model.gguf");
    e.bytes_downloaded = 12;
    e.total_bytes = Some(1000);
    m.upsert(e);
    let entries = vec![
        DirEntryInfo { name: "model.gguf.part".to_string(), len: 12 },
        DirEntryInfo { name: "other.gguf".to_string(), len: 8 },
        DirEntryInfo { name: "pending_resume.json".to_string(), len: 100 },
    ];
    let partials = scan_partial_entries(&entries, &m, 1_000_200);
    assert_eq!(partials.len(), 1);
    assert_eq!(partials[0].filename, "model.gguf");
    assert_eq!(partials[0].bytes_on_disk, 12);
    assert_eq!(partials[0].total_bytes, Some(1000));
    assert!(!partials[0].is_stale);
}

#[test]
fn partial_staleness_after_fourteen_days() {
    let mut m = ResumeManifest::new();
    m.upsert(sample_entry("model.gguf"));
    let entry = DirEntryInfo { name: "model.gguf.part".to_string(), len: 5 };
    let at = |now: u64| partial_download_info(&entry, &m, now).expect("part file").is_stale;
    assert!(!at(1_000_100 + 1_209_600));
    assert!(at(1_000_100 + 1_209_601));
    assert!(!at(0));
    let unknown = DirEntryInfo { name: "x.gguf.part".to_string(), len: 5 };
    let info = partial_download_info(&unknown, &m, 1_209_601).expect("part file");
    assert_eq!(info.last_updated_secs, 0);
    assert_eq!(info.total_bytes, None);
    assert!(info.is_stale);
}

#[test]
fn strip_part_removes_every_trailing_suffix() {
    assert_eq!(strip_part("a.gguf.part"), "a.gguf");
    assert_eq!(strip_part("a.part.part"), "a");
    assert_eq!(strip_part(".part"), "");
    assert_eq!(strip_part("a.gguf"), "a.gguf");
}

#[test]
fn range_header_values() {
    assert_eq!(range_header(0), None);
    assert_eq!(range_header(1).as_deref(), Some("bytes=1-"));
    assert_eq!(range_header(5_242_880).as_deref(), Some("bytes=5242880-"));
}

#[test]
fn preflight_headers_are_parsed() {
    let p = preflight_from_headers(HeadHeaders {
        content_length: Some("4096".to_string()),
        etag: Some("\"abc\"".to_string()),
        accept_ranges: Some("Bytes".to_string()),
    });
    assert_eq!(p.content_length, Some(4096));
    assert_eq!(p.etag.as_deref(), Some("\"abc\""));
    assert!(p.supports_range);
    let q = preflight_from_headers(HeadHeaders {
        content_length: Some("12x".to_string()),
        etag: None,
        accept_ranges: Some("NONE".to_string()),
    });
    assert_eq!(q.content_length, None);
    assert!(!q.supports_range);
    let r = preflight_from_headers(HeadHeaders { content_length: Some("+7".to_string()), etag: None, accept_ranges: None });
    assert_eq!(r.content_length, Some(7));
    assert!(!r.supports_range);
}

#[test]
fn content_length_parses_as_std_parses_u64() {
    let samples = [
        "0", "+0", "18446744073709551615", "18446744073709551616", "99999999999999999999", "", "+", "-1",
        " 5", "5 ", "007", "1_000", "++1",
    ];
    for text in samples {
        let p = preflight_from_headers(HeadHeaders { content_length: Some(text.to_string()), etag: None, accept_ranges: None });
        assert_eq!(p.content_length, text.parse::<u64>().ok(), "content length {text:?}");
    }
    assert_eq!(range_header(u64::MAX).as_deref(), Some("bytes=18446744073709551615-"));
    assert_eq!(range_header(10).as_deref(), Some("bytes=10-"));
}

// ─── The download machine, driven by scripted observations ──────────────────

fn request(sha: Option<String>, etag: Option<String>) -> DownloadRequest {
    DownloadRequest {
        url: "https://example.com/model.gguf".to_string(),
        filename: "model.gguf".to_string(),
        expected_sha256: sha,
        expected_etag: etag,
        model_dir: "/models".to_string(),
    }
}

fn head(len: Option<&str>, etag: Option<&str>, ranges: Option<&str>) -> Observation {
    Observation::HeadDone(Ok(HeadHeaders {
        content_length: len.map(|s| s.to_string()),
        etag: etag.map(|s| s.to_string()),
        accept_ranges: ranges.map(|s| s.to_string()),
    }))
}

fn disks(free: u64) -> Observation {
    Observation::DisksListed { model_dir: comps("/models"), disks: root_disk(free) }
}

fn response(status: u16, etag: Option<&str>) -> Observation {
    Observation::ResponseReceived(Ok(ResponseInfo { status, etag: etag.map(|s| s.to_string()) }))
}

fn is_cmd(step: &Step, pred: impl Fn(&Command) -> bool) -> bool {
    pred(&step.command)
}

#[test]
fn machine_happy_path_with_sha256() {
    let mut m = DownloadMachine::new(request(Some("ABCDEF".to_string()), None));
    assert!(matches!(m.pending_command(), Command::CreateModelDir));
    let s = m.step(Observation::DirCreated(Ok(())));
    assert!(is_cmd(&s, |c| matches!(c, Command::SendHead)));
    let s = m.step(head(Some("6"), None, Some("bytes")));
    assert!(is_cmd(&s, |c| matches!(c, Command::ListDisks)));
    let s = m.step(disks(u64::MAX));
    assert!(is_cmd(&s, |c| matches!(c, Command::LoadManifest)));
    let s = m.step(Observation::ManifestLoaded(None));
    assert!(is_cmd(&s, |c| matches!(c, Command::MeasurePart)));
    let s = m.step(Observation::PartMeasured(Some(2)));
    assert!(is_cmd(&s, |c| matches!(c, Command::SaveManifest)));
    assert_eq!(m.manifest().entries.len(), 1);
    assert_eq!(m.manifest().entries[0].bytes_downloaded, 2);
    assert_eq!(m.manifest().entries[0].total_bytes, Some(6));
    let s = m.step(Observation::ManifestSaved(Ok(())));
    assert!(is_cmd(&s, |c| matches!(c, Command::SendGet { resume_from: 2 })));
    let s = m.step(response(206, None));
    assert!(is_cmd(&s, |c| matches!(c, Command::OpenPart { truncate: false })));
    let s = m.step(Observation::PartOpened(Ok(())));
    assert!(is_cmd(&s, |c| matches!(c, Command::NextChunk)));
    let s = m.step(Observation::ChunkWritten(4));
    assert!(matches!(
        s.effects.as_slice(),
        [Effect::Notify(Notice::Progress { bytes_downloaded: 6, total_bytes: Some(6) })]
    ));
    let s = m.step(Observation::EndOfStream);
    assert!(is_cmd(&s, |c| matches!(c, Command::FlushPart)));
    let s = m.step(Observation::Flushed(Ok(())));
    assert!(is_cmd(&s, |c| matches!(c, Command::ComputeDigest)));
    let s = m.step(Observation::DigestComputed(Ok("abcdef".to_string())));
    assert!(is_cmd(&s, |c| matches!(c, Command::RenamePart)));
    let s = m.step(Observation::Renamed(Ok(())));
    assert!(is_cmd(&s, |c| matches!(c, Command::Finish)));
    assert!(matches!(
        s.effects.as_slice(),
        [Effect::SaveManifestQuietly, Effect::Notify(Notice::Complete(ValidationOutcome::Sha256Verified))]
    ));
    assert!(m.manifest().entries.is_empty());
    assert!(matches!(m.result(), Some(Ok(ValidationOutcome::Sha256Verified))));
    // A finished machine ignores further observations.
    let s = m.step(Observation::EndOfStream);
    assert!(s.effects.is_empty());
    assert!(is_cmd(&s, |c| matches!(c, Command::Finish)));
}

fn run_to_transfer(m: &mut DownloadMachine, head_obs: Observation, status: u16, etag: Option<&str>) {
    m.step(Observation::DirCreated(Ok(())));
    let s = m.step(head_obs);
    if matches!(s.command, Command::ListDisks) {
        m.step(disks(u64::MAX));
    }
    let s = m.step(Observation::ManifestLoaded(None));
    if matches!(s.command, Command::MeasurePart) {
        m.step(Observation::PartMeasured(None));
    }
    m.step(Observation::ManifestSaved(Ok(())));
    m.step(response(status, etag));
    m.step(Observation::PartOpened(Ok(())));
}

#[test]
fn machine_structural_pass_and_etag_warning() {
    let mut m = DownloadMachine::new(request(None, None));
    run_to_transfer(&mut m, head(Some("4"), Some("\"v1\""), None), 200, Some("\"v2\""));
    m.step(Observation::ChunkWritten(4));
    m.step(Observation::EndOfStream);
    let s = m.step(Observation::Flushed(Ok(())));
    assert!(is_cmd(&s, |c| matches!(c, Command::MeasureFile)));
    let s = m.step(Observation::SizeMeasured(Ok(4)));
    assert!(is_cmd(&s, |c| matches!(c, Command::ReadMagic)));
    let s = m.step(Observation::MagicRead(Ok(b"GGUF".to_vec())));
    assert!(is_cmd(&s, |c| matches!(c, Command::RenamePart)));
    m.step(Observation::Renamed(Ok(())));
    match m.result() {
        Some(Ok(ValidationOutcome::ETagMismatch { expected, actual })) => {
            assert_eq!(expected, "\"v1\"");
            assert_eq!(actual, "\"v2\"");
        }
        _ => panic!("expected an ETag warning"),
    }
}

#[test]
fn machine_without_length_skips_size_and_space() {
    let mut m = DownloadMachine::new(request(None, Some("same".to_string())));
    m.step(Observation::DirCreated(Ok(())));
    let s = m.step(head(None, None, Some("none")));
    assert!(is_cmd(&s, |c| matches!(c, Command::LoadManifest)));
    let s = m.step(Observation::ManifestLoaded(None));
    assert!(is_cmd(&s, |c| matches!(c, Command::SaveManifest)));
    let s = m.step(Observation::ManifestSaved(Ok(())));
    assert!(is_cmd(&s, |c| matches!(c, Command::SendGet { resume_from: 0 })));
    let s = m.step(response(200, Some("same")));
    assert!(is_cmd(&s, |c| matches!(c, Command::OpenPart { truncate: true })));
    m.step(Observation::PartOpened(Ok(())));
    m.step(Observation::ChunkWritten(10));
    m.step(Observation::EndOfStream);
    let s = m.step(Observation::Flushed(Ok(())));
    assert!(is_cmd(&s, |c| matches!(c, Command::ReadMagic)));
    m.step(Observation::MagicRead(Ok(b"GGUF".to_vec())));
    m.step(Observation::Renamed(Ok(())));
    assert!(matches!(m.result(), Some(Ok(ValidationOutcome::StructuralPass))));
}

#[test]
fn machine_sha_mismatch_rejects_file() {
    let mut m = DownloadMachine::new(request(Some("00".to_string()), None));
    run_to_transfer(&mut m, head(Some("4"), None, None), 200, None);
    m.step(Observation::ChunkWritten(4));
    m.step(Observation::EndOfStream);
    m.step(Observation::Flushed(Ok(())));
    let s = m.step(Observation::DigestComputed(Ok("ff".to_string())));
    assert!(matches!(
        s.effects.as_slice(),
        [Effect::RemovePartQuietly, Effect::SaveManifestQuietly, Effect::Notify(Notice::Failed(DownloadError::Sha256Mismatch { .. }))]
    ));
    assert!(m.manifest().find("model.gguf").is_none());
    assert!(matches!(m.result(), Some(Err(DownloadError::Sha256Mismatch { .. }))));
}

#[test]
fn machine_size_and_magic_failures() {
    let mut m = DownloadMachine::new(request(None, None));
    run_to_transfer(&mut m, head(Some("4"), None, None), 200, None);
    m.step(Observation::EndOfStream);
    m.step(Observation::Flushed(Ok(())));
    m.step(Observation::SizeMeasured(Ok(3)));
    assert!(matches!(
        m.result(),
        Some(Err(DownloadError::SizeMismatch { expected_bytes: 4, actual_bytes: 3 }))
    ));

    let mut m = DownloadMachine::new(request(None, None));
    run_to_transfer(&mut m, head(Some("4"), None, None), 200, None);
    m.step(Observation::EndOfStream);
    m.step(Observation::Flushed(Ok(())));
    m.step(Observation::SizeMeasured(Ok(4)));
    let s = m.step(Observation::MagicRead(Ok(b"NOTG".to_vec())));
    assert!(matches!(s.effects[0], Effect::RemovePartQuietly));
    assert!(matches!(m.result(), Some(Err(DownloadError::NotGguf))));
}

#[test]
fn machine_cancel_keeps_resume_point() {
    let mut m = DownloadMachine::new(request(None, None));
    run_to_transfer(&mut m, head(Some("100"), None, None), 200, None);
    m.step(Observation::ChunkWritten(30));
    let s = m.step(Observation::CancelRequested);
    assert!(matches!(
        s.effects.as_slice(),
        [Effect::FlushPartQuietly, Effect::SaveManifestQuietly, Effect::Notify(Notice::Cancelled)]
    ));
    assert!(is_cmd(&s, |c| matches!(c, Command::Finish)));
    assert_eq!(m.manifest().find("model.gguf").map(|e| e.bytes_downloaded), Some(30));
    assert!(matches!(m.result(), Some(Err(DownloadError::Cancelled))));
}

#[test]
fn machine_network_failure_keeps_resume_point() {
    let mut m = DownloadMachine::new(request(None, None));
    run_to_transfer(&mut m, head(Some("100"), None, None), 200, None);
    m.step(Observation::ChunkWritten(50));
    let s = m.step(Observation::NetworkFailed("reset".to_string()));
    assert!(matches!(s.effects.as_slice(), [_, _, Effect::Notify(Notice::Failed(DownloadError::Network(_)))]));
    assert_eq!(m.manifest().find("model.gguf").map(|e| e.bytes_downloaded), Some(50));
}

#[test]
fn machine_saves_manifest_every_five_mib() {
    let mut m = DownloadMachine::new(request(None, None));
    run_to_transfer(&mut m, head(None, None, None), 200, None);
    let s = m.step(Observation::ChunkWritten(5_242_879));
    assert_eq!(s.effects.len(), 1);
    assert_eq!(m.manifest().find("model.gguf").map(|e| e.bytes_downloaded), Some(0));
    let s = m.step(Observation::ChunkWritten(1));
    assert!(matches!(s.effects.as_slice(), [Effect::Notify(Notice::Progress { bytes_downloaded: 5_242_880, .. }), Effect::SaveManifestQuietly]));
    assert_eq!(m.manifest().find("model.gguf").map(|e| e.bytes_downloaded), Some(5_242_880));
    let s = m.step(Observation::ChunkWritten(100));
    assert_eq!(s.effects.len(), 1);
}

#[test]
fn machine_refuses_unexpected_status_and_low_space() {
    let mut m = DownloadMachine::new(request(None, None));
    m.step(Observation::DirCreated(Ok(())));
    m.step(head(None, None, None));
    m.step(Observation::ManifestLoaded(None));
    m.step(Observation::ManifestSaved(Ok(())));
    m.step(response(404, None));
    assert!(matches!(m.result(), Some(Err(DownloadError::UnexpectedStatus(404)))));

    let mut m = DownloadMachine::new(request(None, None));
    m.step(Observation::DirCreated(Ok(())));
    m.step(head(Some("1073741824"), None, None));
    let s = m.step(disks(1_000));
    assert!(s.effects.is_empty());
    match m.result() {
        Some(Err(DownloadError::InsufficientSpace(e))) => {
            assert_eq!(e.required, 1_705_404_006);
            assert_eq!(e.available, 1_000);
        }
        _ => panic!("expected InsufficientSpace"),
    }
    assert!(m.manifest().entries.is_empty());
}

#[test]
fn machine_resume_keeps_first_start_time() {
    let mut m = DownloadMachine::new(request(None, None));
    m.step(Observation::DirCreated(Ok(())));
    m.step(head(None, None, Some("bytes")));
    let mut loaded = ResumeManifest::new();
    loaded.upsert(sample_entry("model.gguf"));
    loaded.upsert(sample_entry("other.gguf"));
    m.step(Observation::ManifestLoaded(Some(loaded)));
    m.step(Observation::PartMeasured(Some(1000)));
    let e = m.manifest().find("model.gguf").expect("entry");
    assert_eq!(e.started_at_secs, 1_000_000);
    assert_eq!(e.bytes_downloaded, 1000);
    assert_eq!(m.manifest().entries.len(), 2);
    let s = m.step(Observation::ManifestSaved(Ok(())));
    assert!(is_cmd(&s, |c| matches!(c, Command::SendGet { resume_from: 1000 })));
    // The server ignored the range: start over.
    let s = m.step(response(200, None));
    assert!(is_cmd(&s, |c| matches!(c, Command::OpenPart { truncate: true })));
}

#[test]
fn machine_step_at_stamps_the_given_clock() {
    let mut m = DownloadMachine::new(request(None, None));
    m.step_at(Observation::DirCreated(Ok(())), 1);
    m.step_at(head(None, None, None), 2);
    let s = m.step_at(Observation::ManifestLoaded(None), 1_700_000_000);
    assert!(is_cmd(&s, |c| matches!(c, Command::SaveManifest)));
    let e = m.manifest().find("model.gguf").expect("entry");
    assert_eq!(e.started_at_secs, 1_700_000_000);
    assert_eq!(e.last_updated_secs, 1_700_000_000);
    m.step_at(Observation::ManifestSaved(Ok(())), 1_700_000_001);
    m.step_at(response(200, None), 1_700_000_002);
    m.step_at(Observation::PartOpened(Ok(())), 1_700_000_003);
    m.step_at(Observation::ChunkWritten(100), 1_700_000_004);
    let s = m.step_at(Observation::CancelRequested, 1_700_000_050);
    assert!(is_cmd(&s, |c| matches!(c, Command::Finish)));
    let e = m.manifest().find("model.gguf").expect("entry");
    assert_eq!(e.started_at_secs, 1_700_000_000);
    assert_eq!(e.last_updated_secs, 1_700_000_050);
    assert_eq!(e.bytes_downloaded, 100);
}

#[test]
fn machine_ignores_unexpected_observations() {
    let mut m = DownloadMachine::new(request(None, None));
    let s = m.step(Observation::EndOfStream);
    assert!(s.effects.is_empty());
    assert!(is_cmd(&s, |c| matches!(c, Command::CreateModelDir)));
}
