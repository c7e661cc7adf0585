use vstd::prelude::*;

verus! {

/// A group of archives obtained together.
#[derive(Debug)]
pub struct Bundle {
    pub uid: u64,
    pub name: String,
    pub archives: Vec<Archive>,
}

/// One archive of a bundle.
#[derive(Debug)]
pub struct Archive {
    pub file_uid: u64,
    pub file_name: String,
    pub archive_path: Option<String>,
    pub status: ArchiveStatus,
}

/// Where an archive of a bundle stands.
#[derive(Debug)]
pub enum ArchiveStatus {
    Unknown,
    Downloading,
    Downloaded,
    Installed,
    Failed(String),
}

} // verus!
