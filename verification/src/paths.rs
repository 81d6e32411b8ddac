//! Paths, taken component by component.
//!
//! How the text of a path splits into components is the platform's rule
//! (on Windows `\` separates too, and a path may begin with a drive, UNC or
//! verbatim prefix), so a path reaches the library as the components that
//! `Path::components` gives on the platform at hand, each one's text as its
//! encoded bytes. Comparing paths and walking up to a parent are decided
//! here, on those components, the way `std::path` decides them.
use vstd::prelude::*;

verus! {

/// A path prefix (`std::path::Prefix`, Windows only), with its text parts as
/// encoded bytes. Two prefix components are the same when their parsed
/// prefixes are equal as values, which is how `PrefixComponent` compares.
pub enum PathPrefix {
    /// `\\?\prefix`
    Verbatim(Vec<u8>),
    /// `\\?\UNC\server\share`
    VerbatimUNC(Vec<u8>, Vec<u8>),
    /// `\\?\C:`
    VerbatimDisk(u8),
    /// `\\.\device`
    DeviceNS(Vec<u8>),
    /// `\\server\share`
    UNC(Vec<u8>, Vec<u8>),
    /// `C:`
    Disk(u8),
}

/// What a prefix stands for.
pub enum PrefixView {
    Verbatim(Seq<u8>),
    VerbatimUNC(Seq<u8>, Seq<u8>),
    VerbatimDisk(u8),
    DeviceNS(Seq<u8>),
    UNC(Seq<u8>, Seq<u8>),
    Disk(u8),
}

impl View for PathPrefix {
    type V = PrefixView;

    open spec fn view(&self) -> PrefixView {
        match self {
            PathPrefix::Verbatim(a) => PrefixView::Verbatim(a@),
            PathPrefix::VerbatimUNC(a, b) => PrefixView::VerbatimUNC(a@, b@),
            PathPrefix::VerbatimDisk(d) => PrefixView::VerbatimDisk(*d),
            PathPrefix::DeviceNS(a) => PrefixView::DeviceNS(a@),
            PathPrefix::UNC(a, b) => PrefixView::UNC(a@, b@),
            PathPrefix::Disk(d) => PrefixView::Disk(*d),
        }
    }
}

/// One component of a path (`std::path::Component`).
pub enum PathComponent {
    Prefix(PathPrefix),
    RootDir,
    CurDir,
    ParentDir,
    Normal(Vec<u8>),
}

/// What a component stands for.
pub enum ComponentView {
    Prefix(PrefixView),
    RootDir,
    CurDir,
    ParentDir,
    Normal(Seq<u8>),
}

impl View for PathComponent {
    type V = ComponentView;

    open spec fn view(&self) -> ComponentView {
        match self {
            PathComponent::Prefix(p) => ComponentView::Prefix(p@),
            PathComponent::RootDir => ComponentView::RootDir,
            PathComponent::CurDir => ComponentView::CurDir,
            PathComponent::ParentDir => ComponentView::ParentDir,
            PathComponent::Normal(s) => ComponentView::Normal(s@),
        }
    }
}

/// The views of a sequence of components.
pub open spec fn components_view(v: Seq<PathComponent>) -> Seq<ComponentView> {
    v.map_values(|c: PathComponent| c@)
}

/// The parent of a path given by its components (`Path::parent`): the
/// components without the last, unless there is none or the last is a
/// root or a prefix.
pub open spec fn parent_components(c: Seq<ComponentView>) -> Option<Seq<ComponentView>> {
    if c.len() == 0 || c.last() is RootDir || c.last() is Prefix {
        None
    } else {
        Some(c.drop_last())
    }
}

/// Whether two byte strings are equal.
pub fn bytes_eq(a: &Vec<u8>, b: &Vec<u8>) -> (r: bool)
    ensures
        r == (a@ == b@),
{
    if a.len() != b.len() {
        return false;
    }
    let mut i: usize = 0;
    while i < a.len()
        invariant
            a.len() == b.len(),
            i <= a.len(),
            forall|j: int| 0 <= j < i ==> a@[j] == b@[j],
        decreases a.len() - i,
    {
        if a[i] != b[i] {
            return false;
        }
        i += 1;
    }
    proof {
        assert(a@ =~= b@);
    }
    true
}

/// Whether two prefixes are the same.
pub fn prefix_eq(x: &PathPrefix, y: &PathPrefix) -> (r: bool)
    ensures
        r == (x@ == y@),
{
    match (x, y) {
        (PathPrefix::Verbatim(a), PathPrefix::Verbatim(b)) => bytes_eq(a, b),
        (PathPrefix::VerbatimUNC(a, c), PathPrefix::VerbatimUNC(b, d)) => bytes_eq(a, b) && bytes_eq(c, d),
        (PathPrefix::VerbatimDisk(a), PathPrefix::VerbatimDisk(b)) => *a == *b,
        (PathPrefix::DeviceNS(a), PathPrefix::DeviceNS(b)) => bytes_eq(a, b),
        (PathPrefix::UNC(a, c), PathPrefix::UNC(b, d)) => bytes_eq(a, b) && bytes_eq(c, d),
        (PathPrefix::Disk(a), PathPrefix::Disk(b)) => *a == *b,
        _ => false,
    }
}

/// Whether two components are the same (`Component`'s `==`).
pub fn component_eq(x: &PathComponent, y: &PathComponent) -> (r: bool)
    ensures
        r == (x@ == y@),
{
    match (x, y) {
        (PathComponent::Prefix(p), PathComponent::Prefix(q)) => prefix_eq(p, q),
        (PathComponent::RootDir, PathComponent::RootDir) => true,
        (PathComponent::CurDir, PathComponent::CurDir) => true,
        (PathComponent::ParentDir, PathComponent::ParentDir) => true,
        (PathComponent::Normal(p), PathComponent::Normal(q)) => bytes_eq(p, q),
        _ => false,
    }
}

} // verus!
