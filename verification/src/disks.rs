//! Free space for a directory: the disk whose mount point is the nearest
//! ancestor of the directory, and the preflight disk-space check. Paths are
//! given by their components (see `paths`).
use vstd::prelude::*;
use crate::paths::{PathComponent, ComponentView, component_eq, components_view, parent_components};
use crate::space::{required_bytes, required_bytes_spec, required_bytes_fits_spec};

verus! {

/// One mounted disk, as the system reports it.
pub struct DiskInfo {
    /// The components of the mount point.
    pub mount_point: Vec<PathComponent>,
    /// Length in bytes of the mount point's text (`OsStr::len`).
    pub mount_point_len: usize,
    /// Bytes available to the user on this disk.
    pub available_space: u64,
}

/// A download that does not fit in the free space of its directory's disk.
#[derive(Debug)]
pub struct InsufficientSpace {
    pub required: u64,
    pub available: u64,
}

/// The system reported no disk at all.
pub struct NoDisks;

/// Among `disks`, those mounted exactly at the path with components `p`:
/// the first one with the longest mount-point text, as (length, free bytes).
pub open spec fn best_mount(disks: Seq<DiskInfo>, p: Seq<ComponentView>) -> Option<(usize, u64)>
    decreases disks.len(),
{
    if disks.len() == 0 {
        None
    } else {
        let prev = best_mount(disks.drop_last(), p);
        let d = disks.last();
        if components_view(d.mount_point@) == p && (match prev {
            None => true,
            Some(b) => d.mount_point_len > b.0,
        }) {
            Some((d.mount_point_len, d.available_space))
        } else {
            prev
        }
    }
}

/// Free bytes of the disk mounted at the nearest ancestor of `p` (itself
/// included), walking up through `Path::parent`.
pub open spec fn ancestor_free(disks: Seq<DiskInfo>, p: Seq<ComponentView>) -> Option<u64>
    decreases p.len(),
{
    match best_mount(disks, p) {
        Some(b) => Some(b.1),
        None => match parent_components(p) {
            Some(q) => ancestor_free(disks, q),
            None => None,
        },
    }
}

/// The largest free space among `disks` (0 when there is none).
pub open spec fn max_available(disks: Seq<DiskInfo>) -> u64
    decreases disks.len(),
{
    if disks.len() == 0 {
        0
    } else {
        let m = max_available(disks.drop_last());
        if disks.last().available_space > m {
            disks.last().available_space
        } else {
            m
        }
    }
}

/// Free bytes for the directory with components `path`: those of the disk
/// mounted at its nearest ancestor, or else the largest free space of any
/// disk.
pub open spec fn free_bytes_spec(path: Seq<ComponentView>, disks: Seq<DiskInfo>) -> u64 {
    match ancestor_free(disks, path) {
        Some(f) => f,
        None => max_available(disks),
    }
}

/// `components_view(mount) == components_view(comps).take(k)`.
fn is_prefix_path(comps: &Vec<PathComponent>, k: usize, mount: &Vec<PathComponent>) -> (r: bool)
    requires
        k <= comps.len(),
    ensures
        r == (components_view(mount@) == components_view(comps@).take(k as int)),
{
    if mount.len() != k {
        proof {
            assert(components_view(mount@).len() != components_view(comps@).take(k as int).len());
        }
        return false;
    }
    let mut i: usize = 0;
    while i < k
        invariant
            k <= comps.len(),
            mount.len() == k,
            i <= k,
            forall|j: int| 0 <= j < i ==> mount@[j]@ == comps@[j]@,
        decreases k - i,
    {
        let same = component_eq(&mount[i], &comps[i]);
        if !same {
            proof {
                assert(components_view(mount@)[i as int] != components_view(comps@).take(k as int)[i as int]);
            }
            return false;
        }
        i += 1;
    }
    proof {
        assert(components_view(mount@) =~= components_view(comps@).take(k as int));
    }
    true
}

/// The best disk mounted exactly at `comps[..k]`.
fn best_mount_at(disks: &Vec<DiskInfo>, comps: &Vec<PathComponent>, k: usize) -> (r: Option<(usize, u64)>)
    requires
        k <= comps.len(),
    ensures
        r == best_mount(disks@, components_view(comps@).take(k as int)),
{
    let ghost p = components_view(comps@).take(k as int);
    let mut best: Option<(usize, u64)> = None;
    let mut i: usize = 0;
    while i < disks.len()
        invariant
            k <= comps.len(),
            p == components_view(comps@).take(k as int),
            i <= disks.len(),
            best == best_mount(disks@.take(i as int), p),
        decreases disks.len() - i,
    {
        proof {
            assert(disks@.take(i + 1).drop_last() == disks@.take(i as int));
            assert(disks@.take(i + 1).last() == disks@[i as int]);
        }
        let d = &disks[i];
        let matches = is_prefix_path(comps, k, &d.mount_point);
        let better = match best {
            None => true,
            Some(b) => d.mount_point_len > b.0,
        };
        if matches && better {
            best = Some((d.mount_point_len, d.available_space));
        }
        i += 1;
    }
    proof {
        assert(disks@.take(disks.len() as int) == disks@);
    }
    best
}

fn max_available_exec(disks: &Vec<DiskInfo>) -> (r: u64)
    ensures
        r == max_available(disks@),
{
    let mut m: u64 = 0;
    let mut i: usize = 0;
    while i < disks.len()
        invariant
            i <= disks.len(),
            m == max_available(disks@.take(i as int)),
        decreases disks.len() - i,
    {
        proof {
            assert(disks@.take(i + 1).drop_last() == disks@.take(i as int));
            assert(disks@.take(i + 1).last() == disks@[i as int]);
        }
        if disks[i].available_space > m {
            m = disks[i].available_space;
        }
        i += 1;
    }
    proof {
        assert(disks@.take(disks.len() as int) == disks@);
    }
    m
}

/// Whether `c` ends the walk upward (`Path::parent` gives none after it).
fn is_top(c: &PathComponent) -> (r: bool)
    ensures
        r == (c@ is RootDir || c@ is Prefix),
{
    match c {
        PathComponent::RootDir => true,
        PathComponent::Prefix(_) => true,
        _ => false,
    }
}

/// Free bytes on the disk that best matches the directory with components
/// `path`: walk `path` upward until an ancestor is a known mount point; if
/// none is, the largest free space across all disks (0 when there are no
/// disks).
pub fn free_bytes_for_path(path: &Vec<PathComponent>, disks: &Vec<DiskInfo>) -> (r: u64)
    ensures
        r == free_bytes_spec(components_view(path@), disks@),
{
    let ghost cv = components_view(path@);
    let mut k: usize = path.len();
    proof {
        assert(cv.take(k as int) =~= cv);
    }
    loop
        invariant
            k <= path.len(),
            cv == components_view(path@),
            ancestor_free(disks@, cv) == ancestor_free(disks@, cv.take(k as int)),
        decreases k,
    {
        match best_mount_at(disks, path, k) {
            Some(b) => {
                return b.1;
            },
            None => {},
        }
        if k == 0 || is_top(&path[k - 1]) {
            proof {
                assert(parent_components(cv.take(k as int)) is None);
            }
            return max_available_exec(disks);
        }
        proof {
            assert(cv.take(k as int).drop_last() =~= cv.take(k - 1));
        }
        k = k - 1;
    }
}

/// Free bytes for the directory with components `path` as the hardware
/// report gives them: an error when the system reports no disk, otherwise
/// as `free_bytes_for_path`.
pub fn disk_free_bytes_for_path(disks: &Vec<DiskInfo>, path: &Vec<PathComponent>) -> (r: Result<u64, NoDisks>)
    ensures
        disks@.len() == 0 ==> r is Err,
        disks@.len() > 0 ==> r == Ok::<u64, NoDisks>(free_bytes_spec(components_view(path@), disks@)),
{
    if disks.len() == 0 {
        return Err(NoDisks);
    }
    Ok(free_bytes_for_path(path, disks))
}

/// Verify that the model directory, with components `model_dir`, has
/// enough free space for a `content_length`-byte file:
/// required = `content_length × 1.10 + 500 MiB`.
pub fn check_disk_space(model_dir: &Vec<PathComponent>, content_length: u64, disks: &Vec<DiskInfo>) -> (r: Result<(), InsufficientSpace>)
    requires
        required_bytes_fits_spec(content_length as nat),
    ensures
        match r {
            Ok(()) => free_bytes_spec(components_view(model_dir@), disks@) >= required_bytes_spec(content_length as nat),
            Err(e) => {
                &&& free_bytes_spec(components_view(model_dir@), disks@) < required_bytes_spec(content_length as nat)
                &&& e.required as nat == required_bytes_spec(content_length as nat)
                &&& e.available == free_bytes_spec(components_view(model_dir@), disks@)
            },
        },
{
    let required = required_bytes(content_length);
    let free = free_bytes_for_path(model_dir, disks);
    if free < required {
        return Err(InsufficientSpace { required, available: free });
    }
    Ok(())
}

} // verus!
