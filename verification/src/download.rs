//! Downloads through the external HLS downloader: the progress it reports
//! and the command that starts it.
pub mod engine;
pub mod progress;

pub use engine::{DownloadEngine, DownloadRequest};
pub use progress::{DownloadProgress, DownloadStatus};
