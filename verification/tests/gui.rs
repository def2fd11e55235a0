use streamvault::gui::{helpers, name_hash, palette_color, poster_color, provider_label, rgb_string};

#[test]
fn name_hash_follows_the_polynomial() {
    assert_eq!(name_hash(""), 0);
    assert_eq!(name_hash("ab"), 97 * 37 + 98);
    let long = "é".repeat(30);
    let mut h: u32 = 0;
    for b in long.bytes() {
        h = h.wrapping_mul(37).wrapping_add(b as u32);
    }
    assert_eq!(name_hash(&long), h as usize);
}

#[test]
fn posters_take_a_palette_colour() {
    assert_eq!(palette_color(0), (0x8B, 0x1A, 0x1A));
    assert_eq!(rgb_string((1, 22, 255)), "rgb(1,22,255)");
    assert_eq!(poster_color(""), "rgb(139,26,26)");
    assert_eq!(poster_color("ab"), "rgb(64,10,80)");
    assert_eq!(helpers::poster_color("ab"), "rgb(13,59,102)");
    assert_eq!(helpers::poster_color("a"), "rgb(13,59,102)");
}

#[test]
fn provider_labels() {
    assert_eq!(provider_label(0), "StreamingCommunity");
    assert_eq!(provider_label(1), "RaiPlay");
    assert_eq!(provider_label(2), "Nove");
    assert_eq!(provider_label(3), "AnimeUnity");
    assert_eq!(provider_label(9), "Unknown");
}
