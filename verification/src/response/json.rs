//! The JSON shapes of the parts of Subsonic responses that differ from the
//! XML ones.
use vstd::prelude::*;

verus! {

/// The scanStatus object.
pub struct ScanStatusJson {
    pub scanning: bool,
    pub count: u64,
}

/// The (empty) bookmarks object.
pub struct BookmarksJson {}

/// The musicFolders object.
pub struct MusicFoldersJson {
    pub folders: Vec<crate::models::MusicFolderResponse>,
}

/// The error object of a failed response.
pub struct ErrorDetail {
    pub code: u32,
    pub message: String,
}

/// The license object.
pub struct License {
    pub valid: bool,
}

} // verus!
