use std::path::{Component, Path, Prefix};

use llm_toolkit::disks::{disk_free_bytes_for_path, free_bytes_for_path, DiskInfo};
use llm_toolkit::hardware::{cpu_brand, greet, or_unknown};
use llm_toolkit::paths::{component_eq, PathComponent, PathPrefix};

/// The components of `path` as this platform's `Path::components` gives them.
fn comps(path: &str) -> Vec<PathComponent> {
    Path::new(path)
        .components()
        .map(|c| match c {
            Component::Prefix(p) => PathComponent::Prefix(match p.kind() {
                Prefix::Verbatim(a) => PathPrefix::Verbatim(a.as_encoded_bytes().to_vec()),
                Prefix::VerbatimUNC(a, b) => {
                    PathPrefix::VerbatimUNC(a.as_encoded_bytes().to_vec(), b.as_encoded_bytes().to_vec())
                }
                Prefix::VerbatimDisk(d) => PathPrefix::VerbatimDisk(d),
                Prefix::DeviceNS(a) => PathPrefix::DeviceNS(a.as_encoded_bytes().to_vec()),
                Prefix::UNC(a, b) => PathPrefix::UNC(a.as_encoded_bytes().to_vec(), b.as_encoded_bytes().to_vec()),
                Prefix::Disk(d) => PathPrefix::Disk(d),
            }),
            Component::RootDir => PathComponent::RootDir,
            Component::CurDir => PathComponent::CurDir,
            Component::ParentDir => PathComponent::ParentDir,
            Component::Normal(s) => PathComponent::Normal(s.as_encoded_bytes().to_vec()),
        })
        .collect()
}

fn disk(mount: &str, free: u64) -> DiskInfo {
    DiskInfo { mount_point: comps(mount), mount_point_len: mount.len(), available_space: free }
}

/// `C:\` followed by the given directories, as Windows reads such a path.
fn windows_path(drive: u8, dirs: &[&str]) -> Vec<PathComponent> {
    let mut v = vec![PathComponent::Prefix(PathPrefix::Disk(drive)), PathComponent::RootDir];
    for d in dirs {
        v.push(PathComponent::Normal(d.as_bytes().to_vec()));
    }
    v
}

fn windows_disk(drive: u8, free: u64) -> DiskInfo {
    DiskInfo { mount_point: windows_path(drive, &[]), mount_point_len: 3, available_space: free }
}

#[test]
fn components_compare_as_std_compares_them() {
    let a = comps("/a//b/./c/");
    let b = comps("/a/b/c");
    assert_eq!(a.len(), b.len());
    assert!(a.iter().zip(b.iter()).all(|(x, y)| component_eq(x, y)));
    assert!(!component_eq(&PathComponent::RootDir, &PathComponent::CurDir));
    assert!(component_eq(&PathComponent::Prefix(PathPrefix::Disk(b'C')), &PathComponent::Prefix(PathPrefix::Disk(b'C'))));
    assert!(!component_eq(&PathComponent::Prefix(PathPrefix::Disk(b'C')), &PathComponent::Prefix(PathPrefix::Disk(b'D'))));
    assert!(!component_eq(
        &PathComponent::Prefix(PathPrefix::UNC(b"srv".to_vec(), b"share".to_vec())),
        &PathComponent::Prefix(PathPrefix::UNC(b"srv".to_vec(), b"other".to_vec())),
    ));
}

#[test]
fn free_space_from_nearest_mount() {
    let disks = vec![disk("/", 10), disk("/home", 20), disk("/home/u/data", 30)];
    assert_eq!(free_bytes_for_path(&comps("/home/u/models"), &disks), 20);
    assert_eq!(free_bytes_for_path(&comps("/home/u/data/models/"), &disks), 30);
    assert_eq!(free_bytes_for_path(&comps("/var/tmp"), &disks), 10);
    assert_eq!(free_bytes_for_path(&comps("relative/dir"), &disks), 30);
    assert_eq!(free_bytes_for_path(&comps("/x"), &Vec::new()), 0);
}

#[test]
fn free_space_on_windows_drives() {
    let disks = vec![windows_disk(b'D', 500), windows_disk(b'C', 100)];
    let models = windows_path(b'C', &["Users", "me", "models"]);
    assert_eq!(free_bytes_for_path(&models, &disks), 100);
    let on_d = windows_path(b'D', &["llm"]);
    assert_eq!(free_bytes_for_path(&on_d, &disks), 500);
    // A drive that no disk is mounted at: the largest free space.
    let on_e = windows_path(b'E', &["x"]);
    assert_eq!(free_bytes_for_path(&on_e, &disks), 500);
    // A share mounted as a whole.
    let with_share = vec![
        windows_disk(b'C', 100),
        DiskInfo { mount_point: share_path(&[]), mount_point_len: 15, available_space: 7 },
    ];
    assert_eq!(free_bytes_for_path(&share_path(&["big"]), &with_share), 7);
}

/// `\\srv\models\` followed by the given directories, as Windows reads it.
fn share_path(dirs: &[&str]) -> Vec<PathComponent> {
    let mut v = vec![
        PathComponent::Prefix(PathPrefix::UNC(b"srv".to_vec(), b"models".to_vec())),
        PathComponent::RootDir,
    ];
    for d in dirs {
        v.push(PathComponent::Normal(d.as_bytes().to_vec()));
    }
    v
}

#[test]
fn disk_fallback_on_unknown_path() {
    let disks = vec![disk("/mnt/a", 5), disk("/mnt/b", 7)];
    let result = disk_free_bytes_for_path(&disks, &comps("/nonexistent/path/that/does/not/match"));
    assert!(matches!(result, Ok(7)), "collect must not error on non-existent path");
    assert!(disk_free_bytes_for_path(&Vec::new(), &comps("/")).is_err());
}

#[test]
fn duplicate_mounts_prefer_longer_text() {
    let disks = vec![disk("/data", 1), disk("/data/", 2), disk("/data", 3)];
    assert_eq!(free_bytes_for_path(&comps("/data/models"), &disks), 2);
}

#[test]
fn cpu_brand_fallbacks() {
    assert_eq!(cpu_brand(Some("  Intel(R) Core(TM) i7  ")), "Intel(R) Core(TM) i7");
    assert_eq!(cpu_brand(Some("   ")), "Unknown CPU");
    assert_eq!(cpu_brand(None), "Unknown CPU");
    assert_eq!(or_unknown(None), "Unknown");
    assert_eq!(or_unknown(Some("Linux".to_string())), "Linux");
}

#[test]
fn greet_greets() {
    assert_eq!(greet("Ada"), "Hello, Ada! You've been greeted from Rust!");
}
