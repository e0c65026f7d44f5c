//! What the update check reports, and the progress of an update download.

use vstd::prelude::*;

verus! {

/// Information about an available update.
#[derive(Debug, Clone, PartialEq, Eq)]
pub struct UpdateInfo {
    /// The version number of the update.
    pub version: String,
    /// The release date.
    pub date: Option<String>,
    /// Release notes.
    pub body: Option<String>,
    /// Whether an update is available.
    pub available: bool,
}

impl UpdateInfo {
    /// The report when no update is available (or the updater is disabled).
    pub fn unavailable() -> (r: Self)
        ensures
            r.version@.len() == 0,
            r.date is None,
            r.body is None,
            !r.available,
    {
        UpdateInfo { version: String::new(), date: None, body: None, available: false }
    }
}

/// Progress of an update download.
#[derive(Debug, Clone, PartialEq, Eq)]
pub struct DownloadProgress {
    /// Bytes downloaded so far.
    pub downloaded: u64,
    /// Total bytes to download, once the server announced it.
    pub total: Option<u64>,
    /// Progress in percent, 0 to 100.
    pub percentage: u8,
}

/// Percent of `total` that `downloaded` bytes are, rounded down and capped at
/// 100; 0 while the total is unknown, and 100 for an announced size of 0.
pub open spec fn percent_of(downloaded: int, total: Option<u64>) -> int {
    match total {
        None => 0,
        Some(t) => if t == 0 || downloaded * 100 / (t as int) >= 100 {
            100
        } else {
            downloaded * 100 / (t as int)
        },
    }
}

impl DownloadProgress {
    /// Nothing downloaded, size unknown.
    pub fn new() -> (r: Self)
        ensures
            r.downloaded == 0,
            r.total is None,
            r.percentage == 0,
    {
        DownloadProgress { downloaded: 0, total: None, percentage: 0 }
    }

    /// The progress after a chunk of `chunk_length` bytes arrived;
    /// `content_length` is the download's size when the server announced it,
    /// and the last announced size is kept otherwise. The byte count
    /// saturates at `u64::MAX`.
    pub fn record_chunk(&self, chunk_length: usize, content_length: Option<u64>) -> (r: Self)
        ensures
            r.downloaded == (if self.downloaded + chunk_length <= u64::MAX {
                self.downloaded + chunk_length
            } else {
                u64::MAX as int
            }),
            r.total == (match content_length {
                Some(t) => Some(t),
                None => self.total,
            }),
            r.percentage == percent_of(r.downloaded as int, r.total),
    {
        let downloaded = self.downloaded.saturating_add(chunk_length as u64);
        let total = match content_length {
            Some(t) => Some(t),
            None => self.total,
        };
        let percentage: u8 = match total {
            None => 0,
            Some(t) => if t == 0 {
                100
            } else {
                let p: u128 = (downloaded as u128) * 100 / (t as u128);
                if p >= 100 {
                    100
                } else {
                    p as u8
                }
            },
        };
        DownloadProgress { downloaded, total, percentage }
    }
}

} // verus!
