//! StreamVault: media catalogue search, download naming, watch-progress
//! bookkeeping and synchronisation logic for a streaming client.
use vstd::prelude::*;

pub mod app;
pub mod config;
pub mod download;
pub mod gui;
pub mod json;
pub mod order;
pub mod playback;
pub mod provider;
pub mod providers;
pub mod search;
pub mod sync;
pub mod text;
pub mod util;

verus! {

} // verus!
