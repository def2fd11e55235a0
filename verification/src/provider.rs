//! The single-source catalogue model, whose entries carry a TMDB id and
//! whose seasons list their episodes.
pub mod models;
pub mod streaming_community;
pub mod traits;
pub mod vixcloud;
