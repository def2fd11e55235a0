use streamvault::providers::animeunity::{parse_slug, percent_decode};
use streamvault::providers::raiplay::{raiplay_abs_url, raiplay_hash};
use streamvault::providers::{provider_hash, Episode, MediaEntry, MediaType, ProviderError};

fn movie() -> MediaEntry {
    MediaEntry {
        id: 1,
        name: "Inception".into(),
        slug: "inception".into(),
        media_type: MediaType::Movie,
        year: Some("2010".into()),
        image_url: None,
        description: None,
        alternative_names: Vec::new(),
        score: None,
        provider: 0,
        language: String::new(),
    }
}

fn series() -> MediaEntry {
    MediaEntry {
        id: 2,
        name: "Lost".into(),
        slug: "lost".into(),
        media_type: MediaType::Series,
        year: None,
        image_url: None,
        description: None,
        alternative_names: Vec::new(),
        score: None,
        provider: 0,
        language: String::new(),
    }
}

fn check_provider_error_display() {
    assert_eq!(
        ProviderError::Network("timeout".into()).to_string(),
        "Network error: timeout"
    );
    assert_eq!(
        ProviderError::Parse("bad json".into()).to_string(),
        "Parse error: bad json"
    );
    assert_eq!(
        ProviderError::StreamExtraction("no token".into()).to_string(),
        "Stream extraction error: no token"
    );
}

#[test]
fn providers_is_movie_true() {
    assert!(movie().is_movie());
}

#[test]
fn providers_is_movie_false() {
    assert!(!series().is_movie());
}

#[test]
fn providers_display_title_with_year() {
    assert_eq!(movie().display_title(), "Inception (2010)");
}

#[test]
fn providers_display_title_without_year() {
    assert_eq!(series().display_title(), "Lost");
}

#[test]
fn providers_year_display_with() {
    assert_eq!(movie().year_display(), "2010");
}

#[test]
fn providers_year_display_without() {
    assert_eq!(series().year_display(), "");
}

#[test]
fn providers_provider_error_display() {
    check_provider_error_display();
}

#[test]
fn mod_is_movie_true() {
    assert!(movie().is_movie());
}

#[test]
fn mod_is_movie_false() {
    assert!(!series().is_movie());
}

#[test]
fn mod_display_title_with_year() {
    assert_eq!(movie().display_title(), "Inception (2010)");
}

#[test]
fn mod_display_title_without_year() {
    assert_eq!(series().display_title(), "Lost");
}

#[test]
fn mod_year_display_with() {
    assert_eq!(movie().year_display(), "2010");
}

#[test]
fn mod_year_display_without() {
    assert_eq!(series().year_display(), "");
}

#[test]
fn mod_provider_error_display() {
    check_provider_error_display();
}

#[test]
fn episode_title_pads_numbers() {
    let ep = Episode {
        id: 1,
        number: 3,
        name: "Pilot".into(),
        duration: None,
        image_url: None,
    };
    assert_eq!(series().episode_title(1, &ep), "Lost S01E03 - Pilot");
    let unnamed = Episode { name: String::new(), number: 12, ..ep };
    assert_eq!(series().episode_title(10, &unnamed), "Lost S10E12");
}

#[test]
fn hashes_follow_the_polynomial() {
    assert_eq!(provider_hash(""), 0);
    assert_eq!(provider_hash("a"), 97);
    assert_eq!(provider_hash("ab"), 97 * 31 + 98);
    assert_eq!(raiplay_hash("ab"), provider_hash("ab"));
    let long = "x".repeat(40);
    let mut h: u64 = 0;
    for b in long.bytes() {
        h = h.wrapping_mul(31).wrapping_add(b as u64);
    }
    assert_eq!(provider_hash(&long), h);
}

#[test]
fn raiplay_urls_become_absolute() {
    assert_eq!(raiplay_abs_url("https://x.it/a"), "https://x.it/a");
    assert_eq!(raiplay_abs_url("/programmi/x.json"), "https://www.raiplay.it/programmi/x.json");
}

#[test]
fn percent_decode_handles_escapes() {
    assert_eq!(percent_decode("a%20b"), "a b");
    assert_eq!(percent_decode("%41%42c"), "ABc");
    assert_eq!(percent_decode("100%"), "100%");
    assert_eq!(percent_decode("%zz1"), "%zz1");
    assert_eq!(percent_decode("%C3%A9x"), "éx");
    assert_eq!(percent_decode("%+ax"), "\nx");
    assert_eq!(percent_decode("%41"), "A");
    assert_eq!(percent_decode("%4"), "%4");
    assert_eq!(percent_decode("a%20b%41"), "a bA");
    assert_eq!(percent_decode("%zz%4"), "%zz%4");
}

#[test]
fn slugs_give_id_and_episode_count() {
    assert_eq!(parse_slug("123:show:24"), (123, 24));
    assert_eq!(parse_slug("abc:x:7"), (0, 7));
    assert_eq!(parse_slug("5"), (5, 0));
}

#[test]
fn provider_hash_continues_over_joined_text() {
    assert_eq!(provider_hash(""), 0);
    assert_eq!(provider_hash("a"), 97);
    assert_eq!(provider_hash("ab"), 3105);
    let (s, t) = ("città", "-42");
    let joined = format!("{s}{t}");
    let continued = t.bytes().fold(provider_hash(s), |a, b| a.wrapping_mul(31).wrapping_add(b as u64));
    assert_eq!(provider_hash(&joined), continued);
}
