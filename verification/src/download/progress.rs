//! What a download reports while it runs.
use crate::providers::{capture_group, regex_group};
use vstd::prelude::*;

verus! {

/// Finds the percentage of a downloader line.
pub const PERCENT_PATTERN: &'static str = "(\\d+(?:\\.\\d+)?)%";

/// Finds the speed of a downloader line.
pub const SPEED_PATTERN: &'static str = "(\\d+(?:\\.\\d+)?(?:MB|KB|GB|B)ps)";

/// Finds the downloaded and total sizes of a downloader line.
pub const SIZE_PATTERN: &'static str = "(\\d+(?:\\.\\d+)?(?:MB|GB|KB|B))/(\\d+(?:\\.\\d+)?(?:MB|GB|KB|B))";

/// Where a download stands.
#[derive(Debug, Clone)]
pub enum DownloadStatus {
    Queued,
    Downloading,
    Muxing,
    Completed,
    Failed(String),
}

/// A download as the user sees it; `id` is the request's UUID as a number
/// and `percent` the decimal text of the share done.
#[derive(Debug, Clone)]
pub struct DownloadProgress {
    pub id: u128,
    pub title: String,
    pub status: DownloadStatus,
    pub percent: String,
    pub speed: String,
    pub downloaded: String,
    pub total: String,
}

/// A text found by a pattern's group, or the text kept before.
pub open spec fn found_or(found: Option<Seq<char>>, before: Seq<char>) -> Seq<char> {
    match found {
        Some(f) => f,
        None => before,
    }
}

impl DownloadProgress {
    /// A download that has not started: nothing done, nothing measured.
    pub fn new(id: u128, title: String) -> (r: DownloadProgress)
        ensures
            r.id == id,
            r.title == title,
            r.status is Queued,
            r.percent@ == "0"@,
            r.speed@.len() == 0,
            r.downloaded@.len() == 0,
            r.total@.len() == 0,
    {
        DownloadProgress {
            id,
            title,
            status: DownloadStatus::Queued,
            percent: "0".to_string(),
            speed: String::new(),
            downloaded: String::new(),
            total: String::new(),
        }
    }

    /// Takes what a line of the downloader's output reports: the
    /// percentage, the speed, and the downloaded and total sizes, each when
    /// the line shows it.
    pub fn parse_n_m3u8dl_line(&mut self, line: &str)
        ensures
            final(self).id == old(self).id,
            final(self).title == old(self).title,
            final(self).status == old(self).status,
            final(self).percent@ == found_or(regex_group(PERCENT_PATTERN@, line@, 1), old(self).percent@),
            final(self).speed@ == found_or(regex_group(SPEED_PATTERN@, line@, 1), old(self).speed@),
            (final(self).downloaded@, final(self).total@) == match (
                regex_group(SIZE_PATTERN@, line@, 1),
                regex_group(SIZE_PATTERN@, line@, 2),
            ) {
                (Some(d), Some(t)) => (d, t),
                _ => (old(self).downloaded@, old(self).total@),
            },
    {
        if let Some(p) = capture_group(PERCENT_PATTERN, line, 1) {
            self.percent = p;
        }
        if let Some(s) = capture_group(SPEED_PATTERN, line, 1) {
            self.speed = s;
        }
        let d = capture_group(SIZE_PATTERN, line, 1);
        let t = capture_group(SIZE_PATTERN, line, 2);
        match (d, t) {
            (Some(d), Some(t)) => {
                self.downloaded = d;
                self.total = t;
            },
            _ => {},
        }
    }
}

} // verus!
