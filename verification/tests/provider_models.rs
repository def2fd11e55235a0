use streamvault::provider::models::{MediaEntry, MediaType};
use streamvault::provider::traits::ProviderError;

fn movie_entry() -> MediaEntry {
    MediaEntry {
        id: 1,
        name: "Inception".into(),
        slug: "inception".into(),
        media_type: MediaType::Movie,
        year: Some("2010".into()),
        image_url: None,
        tmdb_id: None,
    }
}

fn series_entry() -> MediaEntry {
    MediaEntry {
        id: 2,
        name: "Lost".into(),
        slug: "lost".into(),
        media_type: MediaType::Series,
        year: None,
        image_url: None,
        tmdb_id: None,
    }
}

#[test]
fn is_movie_returns_true_for_movies() {
    assert!(movie_entry().is_movie());
}

#[test]
fn is_movie_returns_false_for_series() {
    assert!(!series_entry().is_movie());
}

#[test]
fn models_display_title_with_year() {
    assert_eq!(movie_entry().display_title(), "Inception (2010)");
}

#[test]
fn models_display_title_without_year() {
    assert_eq!(series_entry().display_title(), "Lost");
}

#[test]
fn year_display_with_year() {
    assert_eq!(movie_entry().year_display(), "2010");
}

#[test]
fn year_display_without_year() {
    assert_eq!(series_entry().year_display(), "");
}

#[test]
fn legacy_provider_error_text() {
    assert_eq!(ProviderError::Parse("x".into()).to_string(), "Parse error: x");
}
