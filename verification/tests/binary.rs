use llm_toolkit::binary::{
    archive_entry_matches, archive_name, binary_filename, executable_mode, first_matching_entry, platform_release,
    BinaryManager,
    BinaryStatus, InstallCommand, InstallError, InstallObservation, InstallPlan, SUPPORTED_LLAMA_VERSION,
};

#[test]
fn platform_release_current_os_supported() {
    assert!(platform_release("linux", "x86_64").is_ok(), "platform_release must succeed on CI target");
}

#[test]
fn platform_release_url_is_valid() {
    for (os, arch) in [("windows", "x86_64"), ("macos", "aarch64"), ("macos", "x86_64"), ("linux", "x86_64")] {
        let rel = match platform_release(os, arch) {
            Ok(r) => r,
            Err(_) => panic!("platform_release failed"),
        };
        assert!(rel.url.starts_with("https://"), "URL must use HTTPS, got: {}", rel.url);
        assert!(
            rel.url.contains(SUPPORTED_LLAMA_VERSION),
            "URL must contain the pinned version '{}', got: {}",
            SUPPORTED_LLAMA_VERSION,
            rel.url
        );
        assert!(rel.url.ends_with(".zip"), "URL must point to a zip archive, got: {}", rel.url);
        assert!(rel.sha256.is_none());
    }
}

#[test]
fn platform_release_binary_entry_matches_os() {
    let rel = match platform_release("windows", "x86_64") {
        Ok(r) => r,
        Err(_) => panic!("platform_release failed"),
    };
    assert_eq!(rel.binary_entry, "llama-server.exe");
    let rel = match platform_release("linux", "x86_64") {
        Ok(r) => r,
        Err(_) => panic!("platform_release failed"),
    };
    assert_eq!(rel.binary_entry, "llama-server");
}

#[test]
fn platform_release_exact_urls() {
    let url = |os: &str, arch: &str| match platform_release(os, arch) {
        Ok(r) => r.url,
        Err(_) => panic!("platform_release failed"),
    };
    assert_eq!(
        url("linux", "x86_64"),
        "https://github.com/ggerganov/llama.cpp/releases/download/b5234/llama-b5234-bin-ubuntu-x64.zip"
    );
    assert_eq!(
        url("windows", "x86_64"),
        "https://github.com/ggerganov/llama.cpp/releases/download/b5234/llama-b5234-bin-win-avx2-x64.zip"
    );
    assert_eq!(
        url("macos", "aarch64"),
        "https://github.com/ggerganov/llama.cpp/releases/download/b5234/llama-b5234-bin-macos-arm64.zip"
    );
    assert_eq!(
        url("macos", "x86_64"),
        "https://github.com/ggerganov/llama.cpp/releases/download/b5234/llama-b5234-bin-macos-x64.zip"
    );
}

#[test]
fn platform_release_unsupported_platform_is_error() {
    match platform_release("linux", "aarch64") {
        Err(e) => {
            assert_eq!(e.os, "linux");
            assert_eq!(e.arch, "aarch64");
        }
        Ok(_) => panic!("linux/aarch64 must be unsupported"),
    }
    assert!(platform_release("windows", "aarch64").is_err());
    assert!(platform_release("freebsd", "x86_64").is_err());
}

#[test]
fn status_not_installed_no_binary() {
    assert_eq!(BinaryManager::status(false, None), BinaryStatus::NotInstalled);
    assert_eq!(
        BinaryManager::status(false, Some(SUPPORTED_LLAMA_VERSION.to_string())),
        BinaryStatus::NotInstalled
    );
}

#[test]
fn status_not_installed_no_lock() {
    assert_eq!(BinaryManager::status(true, None), BinaryStatus::NotInstalled);
}

#[test]
fn status_installed_when_lock_matches_pin() {
    let s = BinaryManager::status(true, Some(SUPPORTED_LLAMA_VERSION.to_string()));
    assert_eq!(
        s,
        BinaryStatus::Installed {
            version: SUPPORTED_LLAMA_VERSION.to_string()
        }
    );
}

#[test]
fn status_out_of_date_when_lock_differs() {
    let s = BinaryManager::status(true, Some("b0001".to_string()));
    assert_eq!(
        s,
        BinaryStatus::OutOfDate {
            installed: "b0001".to_string(),
            pinned: SUPPORTED_LLAMA_VERSION.to_string(),
        }
    );
}

#[test]
fn version_lock_contents_are_trimmed() {
    assert_eq!(BinaryManager::parse_version_lock("  b1234\n"), "b1234");
    assert_eq!(BinaryManager::parse_version_lock("b9999"), "b9999");
    assert_eq!(BinaryManager::parse_version_lock("\u{3000}\tb1\u{a0}"), "b1");
    assert_eq!(BinaryManager::parse_version_lock(" \n "), "");
}

#[test]
fn binary_file_names() {
    assert_eq!(binary_filename("linux"), "llama-server");
    assert_eq!(binary_filename("windows"), "llama-server.exe");
    assert_eq!(binary_filename("macos"), "llama-server");
    let m = BinaryManager::new("/home/u/.llm-toolkit/bin".to_string());
    assert_eq!(m.bin_dir, "/home/u/.llm-toolkit/bin");
}

#[test]
fn first_matching_entry_picks_the_first_safe_match() {
    let names: Vec<String> = vec![
        "../llama-server".to_string(),
        "build/bin/llama-server-extra".to_string(),
        "build/bin/llama-server".to_string(),
        "other/llama-server".to_string(),
    ];
    assert_eq!(first_matching_entry(&names, "llama-server"), Some(2));
    assert_eq!(first_matching_entry(&names, "llama-server.exe"), None);
    assert_eq!(first_matching_entry(&Vec::new(), "llama-server"), None);
}

#[test]
fn archive_name_is_last_url_segment() {
    assert_eq!(
        archive_name("https://github.com/ggerganov/llama.cpp/releases/download/b5234/llama-b5234-bin-ubuntu-x64.zip"),
        "llama-b5234-bin-ubuntu-x64.zip"
    );
    assert_eq!(archive_name("no-slash.zip"), "no-slash.zip");
    assert_eq!(archive_name("https://host/dir/"), "");
}

#[test]
fn archive_entries_match_by_basename_and_skip_traversal() {
    assert!(archive_entry_matches("build/bin/llama-server", "llama-server"));
    assert!(archive_entry_matches("llama-server", "llama-server"));
    assert!(archive_entry_matches("build\\bin\\llama-server.exe", "llama-server.exe"));
    assert!(!archive_entry_matches("../llama-server", "llama-server"));
    assert!(!archive_entry_matches("/usr/bin/llama-server", "llama-server"));
    assert!(!archive_entry_matches("\\bin\\llama-server", "llama-server"));
    assert!(!archive_entry_matches("build/bin/llama-server-extra", "llama-server"));
    assert!(!archive_entry_matches("a..b/llama-server", "llama-server"));
}

#[test]
fn executable_mode_sets_755() {
    assert_eq!(executable_mode(0o644), 0o755);
    assert_eq!(executable_mode(0o100600), 0o100755);
    assert_eq!(executable_mode(0o4000), 0o4755);
}

fn plan(unix: bool) -> InstallPlan {
    match InstallPlan::new("linux", "x86_64", unix) {
        Ok(p) => p,
        Err(_) => panic!("linux/x86_64 is supported"),
    }
}

#[test]
fn install_plan_file_names() {
    let p = plan(true);
    assert_eq!(p.archive_name(), "llama-b5234-bin-ubuntu-x64.zip");
    assert_eq!(p.binary_name(), "llama-server");
    assert_eq!(p.release().binary_entry, "llama-server");
    assert!(matches!(p.pending_command(), InstallCommand::DownloadArchive));
    assert!(InstallPlan::new("linux", "riscv64", true).is_err());
}

#[test]
fn install_plan_unix_sequence() {
    let mut p = plan(true);
    assert_eq!(p.version_to_lock(), SUPPORTED_LLAMA_VERSION);
    let c = p.step(InstallObservation::ArchiveDownloaded(Ok(())));
    assert!(matches!(c, InstallCommand::ExtractBinary));
    let c = p.step(InstallObservation::BinaryExtracted(Ok(())));
    assert!(matches!(c, InstallCommand::MakeExecutable));
    let c = p.step(InstallObservation::MadeExecutable(Ok(())));
    assert!(matches!(c, InstallCommand::RemoveArchiveThenWriteLock));
    let c = p.step(InstallObservation::VersionLockWritten(Ok(())));
    assert!(matches!(c, InstallCommand::Finish));
    assert!(matches!(p.result(), Some(Ok(()))));
}

#[test]
fn install_plan_non_unix_and_failures() {
    let mut p = plan(false);
    p.step(InstallObservation::ArchiveDownloaded(Ok(())));
    let c = p.step(InstallObservation::BinaryExtracted(Ok(())));
    assert!(matches!(c, InstallCommand::RemoveArchiveThenWriteLock));

    let mut p = plan(true);
    let c = p.step(InstallObservation::ArchiveDownloaded(Err("offline".to_string())));
    assert!(matches!(c, InstallCommand::Finish));
    assert!(matches!(p.result(), Some(Err(InstallError::Download(_)))));

    let mut p = plan(true);
    p.step(InstallObservation::ArchiveDownloaded(Ok(())));
    let c = p.step(InstallObservation::BinaryExtracted(Err("'llama-server' not found".to_string())));
    assert!(matches!(c, InstallCommand::Finish));
    assert!(matches!(p.result(), Some(Err(InstallError::Extract(_)))));

    // Observations the plan does not wait for change nothing.
    let mut p = plan(true);
    let c = p.step(InstallObservation::VersionLockWritten(Ok(())));
    assert!(matches!(c, InstallCommand::DownloadArchive));
}
