use streamvault::providers::animeunity::{
    anime_catalog, anime_entries, anime_episodes, anime_search_results, anime_seasons,
    auth_from_cookies, cookies_would_split, direct_video_exec, embed_target, episode_windows,
    extract_stream, parse_record, percent_decode_would_split, search_form_body, stream_from_scripts,
    stream_of_embed, AnimeEpisodeRecord, AnimeRecord,
};
use streamvault::providers::{MediaType, ProviderError};

fn s(x: &str) -> Option<String> {
    Some(x.to_string())
}

fn record(id: u64, eng: &str) -> AnimeRecord {
    AnimeRecord {
        id: Some(id),
        slug: s("naruto"),
        title_eng: s(eng),
        title: s("Naruto"),
        title_it: s(""),
        kind: s("TV"),
        episodes_count: Some(220),
        date: s("2002-10-03"),
        imageurl: s("https://img.example/n.jpg"),
        plot: s(""),
        score: s("8.0"),
    }
}

fn episode(id: u64, number: Option<u32>, title: Option<&str>) -> AnimeEpisodeRecord {
    AnimeEpisodeRecord { id: Some(id), number, title: title.map(String::from), title_it: None, imageurl: None }
}

const DIRECT: &str = "window.downloadUrl = 'https://cdn.example/v.mp4'";

#[test]
fn record_becomes_entry() {
    let e = parse_record(&record(12, "Naruto EN")).unwrap();
    assert_eq!(e.id, 12);
    assert_eq!(e.name, "Naruto EN");
    assert_eq!(e.alternative_names, vec!["Naruto".to_string()]);
    assert_eq!(e.slug, "12:naruto:220");
    assert_eq!(e.media_type, MediaType::Series);
    assert_eq!(e.year.as_deref(), Some("2002"));
    assert_eq!(e.description, None);
    assert_eq!(e.score.as_deref(), Some("8.0"));
    assert_eq!(e.language, "ja");
    let mut film = record(3, "");
    film.kind = s("Movie");
    let f = parse_record(&film).unwrap();
    assert_eq!(f.name, "Naruto");
    assert!(f.alternative_names.is_empty());
    assert_eq!(f.media_type, MediaType::Movie);
    let mut nameless = record(4, "");
    nameless.title = None;
    assert!(parse_record(&nameless).is_none());
}

#[test]
fn search_keeps_first_of_each_title() {
    let live = vec![record(1, "A"), record(2, "B")];
    let archive = vec![record(2, "B again"), record(3, "C")];
    assert_eq!(anime_entries(&archive).len(), 2);
    let all = anime_search_results(&live, &archive);
    let names: Vec<&str> = all.iter().map(|e| e.name.as_str()).collect();
    assert_eq!(names, vec!["A", "B", "C"]);
}

#[test]
fn catalog_stops_at_limit() {
    let recs = vec![record(1, "A"), record(2, "B"), record(3, "C")];
    assert_eq!(anime_catalog(&recs, 2).len(), 2);
    assert_eq!(anime_catalog(&recs, 5).len(), 3);
    assert_eq!(anime_catalog(&recs, 0).len(), 1);
    assert!(anime_catalog(&vec![], 0).is_empty());
}

#[test]
fn live_search_body_is_form_encoded() {
    assert_eq!(search_form_body("one piece"), "title=one+piece");
    assert_eq!(search_form_body("a&b=c/é"), "title=a%26b%3Dc%2F%C3%A9");
    assert_eq!(search_form_body("x-y_z.*"), "title=x-y_z.*");
}

#[test]
fn single_season() {
    let s = anime_seasons();
    assert_eq!(s.len(), 1);
    assert_eq!((s[0].id, s[0].number), (1, 1));
    assert_eq!(s[0].name.as_deref(), Some("Season 1"));
}

#[test]
fn windows_cover_all_episodes() {
    assert_eq!(episode_windows(0), vec![]);
    assert_eq!(episode_windows(120), vec![(1, 120)]);
    assert_eq!(episode_windows(250), vec![(1, 120), (121, 240), (241, 250)]);
}

#[test]
fn episodes_sorted_and_named() {
    let recs = vec![
        episode(30, Some(3), Some("Three")),
        episode(10, None, None),
        episode(20, Some(2), Some("")),
        AnimeEpisodeRecord { id: None, number: Some(1), title: None, title_it: None, imageurl: None },
    ];
    let eps = anime_episodes(&recs);
    let got: Vec<(u64, u32, String)> = eps.iter().map(|e| (e.id, e.number, e.name.clone())).collect();
    assert_eq!(
        got,
        vec![
            (10, 2, "Episode 2".to_string()),
            (20, 2, "Episode 2".to_string()),
            (30, 3, "Three".to_string()),
        ]
    );
}

#[test]
fn direct_video_from_second_script() {
    let scripts = vec!["var a = 1".to_string(), DIRECT.to_string()];
    assert_eq!(direct_video_exec(&scripts).as_deref(), Some("https://cdn.example/v.mp4"));
    assert_eq!(stream_from_scripts(&scripts).as_deref(), Some("https://cdn.example/v.mp4"));
    assert_eq!(direct_video_exec(&vec![DIRECT.to_string()]), None);
    assert_eq!(stream_from_scripts(&vec![]), None);
}

#[test]
fn embed_page_stream() {
    let html = format!("<html><body><script>var a = 1</script><script>{DIRECT}</script></body></html>");
    assert_eq!(extract_stream(&html).as_deref(), Some("https://cdn.example/v.mp4"));
    assert_eq!(stream_of_embed(&html).unwrap().url, "https://cdn.example/v.mp4");
    match stream_of_embed("<html><body></body></html>") {
        Err(ProviderError::StreamExtraction(m)) => assert_eq!(m, "Could not extract stream URL"),
        other => panic!("unexpected {other:?}"),
    }
}

#[test]
fn embed_address_must_be_web() {
    assert_eq!(embed_target("  https://vix.example/e/1 \n").unwrap(), "https://vix.example/e/1");
    match embed_target("  ") {
        Err(ProviderError::StreamExtraction(m)) => assert_eq!(m, "Empty embed URL"),
        other => panic!("unexpected {other:?}"),
    }
}

#[test]
fn session_cookies_are_decoded() {
    let headers = vec![
        "XSRF-TOKEN=ab%3Dcd; path=/".to_string(),
        "other=1".to_string(),
        "animeunity_session=s%20e; HttpOnly".to_string(),
    ];
    assert!(!cookies_would_split(&headers));
    assert_eq!(auth_from_cookies(&headers).unwrap(), ("ab=cd".to_string(), "s e".to_string()));
    match auth_from_cookies(&vec!["animeunity_session=x".to_string()]) {
        Err(ProviderError::Network(m)) => assert_eq!(m, "Failed to get XSRF token"),
        other => panic!("unexpected {other:?}"),
    }
}

#[test]
fn splitting_escapes_are_detected() {
    assert!(!percent_decode_would_split("a%20b"));
    assert!(!percent_decode_would_split("%41é"));
    assert!(percent_decode_would_split("%aé"));
    assert!(cookies_would_split(&vec!["XSRF-TOKEN=%aé".to_string()]));
}
