pub mod text;
pub mod resume;
pub mod space;
pub mod paths;
pub mod disks;
pub mod registry;
pub mod binary;
pub mod hardware;
pub mod digest;
pub mod download;
pub mod recovery;
pub mod catalog;
pub mod laws;
