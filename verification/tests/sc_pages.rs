use streamvault::providers::sc_pages::{
    catalog_from_html, page_json, page_media_id, reply_sliders, search_reply_entries,
    season_reply_episodes, title_page, title_seasons,
};
use streamvault::json::reply_json;
use streamvault::providers::ProviderError;

const BASE: &str = "https://sc.example";

fn page(json: &str) -> String {
    format!(
        "<html><body><div id=\"app\" data-page=\"{}\"></div></body></html>",
        json.replace('"', "&quot;")
    )
}

const HOME: &str = r#"{"version":"v1","props":{"sliders":[{"titles":[{"id":1,"name":"A","slug":"a","type":"movie"},{"id":2,"name":"B","slug":"b","type":"tv"}]},{"titles":[{"id":1,"name":"A","slug":"a","type":"movie"},{"id":3,"name":"C","slug":"c","type":"tv"}]},{"other":true}],"titles":[{"id":7,"name":"T"}],"genres":[{"name":"Action"},{"id":4},{"name":"Drama"}]}}"#;

#[test]
fn home_page_catalogue_and_genres() {
    let (cat, genres) = catalog_from_html(&page(HOME), BASE, 10).unwrap();
    assert_eq!(genres, vec!["Action".to_string(), "Drama".to_string()]);
    let entries = cat.finish(10);
    let ids: Vec<u64> = entries.iter().map(|e| e.id).collect();
    assert_eq!(ids, vec![1, 2, 3]);
    assert_eq!(entries[1].name, "B");
    let (cat, _) = catalog_from_html(&page(HOME), BASE, 2).unwrap();
    assert_eq!(cat.len(), 2);
}

#[test]
fn home_page_falls_back_to_its_title_list() {
    let json = r#"{"props":{"sliders":[],"titles":[{"id":7,"name":"T"},{"id":8}]}}"#;
    let (cat, genres) = catalog_from_html(&page(json), BASE, 10).unwrap();
    assert!(genres.is_empty());
    let entries = cat.finish(10);
    assert_eq!(entries.len(), 1);
    assert_eq!(entries[0].id, 7);
}

#[test]
fn pages_without_json_fail() {
    match catalog_from_html("<html><body>nothing</body></html>", BASE, 10) {
        Err(ProviderError::Parse(m)) => assert_eq!(m, "No data-page JSON found"),
        _ => panic!("expected a parse error"),
    }
    match page_json(&page("{bad")) {
        Err(ProviderError::Parse(m)) => assert!(m.starts_with("Invalid JSON: ")),
        _ => panic!("expected a parse error"),
    }
}

#[test]
fn title_page_version_seasons_and_id() {
    let json = r#"{"version":"v9","props":{"title":{"id":77,"seasons":[{"id":5,"number":2,"name":"S2"},{"id":4,"number":1},{"name":"no id"}]}}}"#;
    let (p, version) = title_page(&page(json)).unwrap();
    assert_eq!(version, "v9");
    assert_eq!(page_media_id(&p, 3), 77);
    let seasons = title_seasons(&p);
    assert_eq!(seasons.len(), 2);
    assert_eq!((seasons[0].id, seasons[0].number), (4, 1));
    assert_eq!(seasons[1].name.as_deref(), Some("S2"));
    let (bare, version) = title_page(&page(r#"{"props":{}}"#)).unwrap();
    assert_eq!(version, "");
    assert_eq!(page_media_id(&bare, 3), 3);
}

#[test]
fn replies_are_read_as_json() {
    match reply_json("[1") {
        Err(ProviderError::Network(m)) => assert_eq!(m, "error decoding response body"),
        _ => panic!("expected a decoding error"),
    }
    let sliders = reply_sliders(&reply_json(r#"[{"titles":[{"id":9,"name":"Z"}]},{"x":1}]"#).unwrap());
    assert_eq!(sliders.len(), 2);
    assert_eq!(sliders[0].len(), 1);
    assert_eq!(sliders[0][0].id, Some(9));
    assert!(sliders[1].is_empty());
    let found = search_reply_entries(
        &reply_json(r#"{"props":{"titles":[{"id":5,"name":"N","slug":"n","type":"tv"},{"name":"no id"}]}}"#).unwrap(),
        BASE,
        "en",
    );
    assert_eq!(found.len(), 1);
    assert_eq!(found[0].language, "en");
    let eps = season_reply_episodes(
        &reply_json(r#"{"props":{"loadedSeason":{"episodes":[{"id":11,"number":2,"name":"Two","duration":40},{"id":10,"number":1,"name":"One"}]}}}"#).unwrap(),
        BASE,
    );
    assert_eq!(eps.len(), 2);
    assert_eq!(eps[0].number, 1);
    assert_eq!(eps[1].duration, Some(40));
}
