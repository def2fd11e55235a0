//! How the web interface colours title posters.
use crate::gui::{palette_color, poster_palette, rgb_string, rgb_text};
use crate::providers::{hash_bytes, provider_hash};
use vstd::prelude::*;
use vstd::string::StringSliceAdditionalSpecFns;

verus! {

/// The poster background of a title without a picture, picked by the
/// provider hash of its name.
pub fn poster_color(name: &str) -> (r: String)
    ensures
        r@ == rgb_text(poster_palette()[(hash_bytes(name.spec_bytes()) % 16) as int]),
{
    let h = provider_hash(name);
    rgb_string(palette_color((h % 16) as usize))
}

} // verus!
