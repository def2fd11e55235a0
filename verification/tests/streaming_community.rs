use streamvault::providers::streaming_community::{
    catalog_from_page, data_page_text, entry_lang, episodes_from, extract_description,
    extract_image_url, extract_year, iframe_src, iframe_url, inertia_version,
    needs_genre_sliders, parse_result, player_script, search_results, season_url, seasons_from,
    stream_from_page, stream_from_script, title_entries, title_url, Catalog, EpisodeRecord,
    ImageRecord, SeasonRecord, TitleRecord, Translation,
};
use streamvault::providers::{MediaEntry, MediaType, ProviderError, USER_AGENT};

const BASE: &str = "https://streamingcommunity.example";

fn s(x: &str) -> Option<String> {
    Some(x.to_string())
}

fn translation(k: &str, v: &str) -> Translation {
    Translation { key: s(k), value: s(v) }
}

fn image(kind: &str, file: &str) -> ImageRecord {
    ImageRecord { kind: s(kind), filename: s(file) }
}

fn bare(id: u64, name: &str) -> TitleRecord {
    TitleRecord {
        id: Some(id),
        name: s(name),
        slug: s(&name.to_lowercase()),
        kind: s("tv"),
        original_name: None,
        score: None,
        translations: None,
        last_air_date: None,
        release_date: None,
        plot: None,
        description: None,
        overview: None,
        images: None,
    }
}

fn dune() -> TitleRecord {
    TitleRecord {
        id: Some(7),
        name: s("Dune"),
        slug: s("dune"),
        kind: s("movie"),
        original_name: s("Dune: Part One"),
        score: s("8.1"),
        translations: Some(vec![
            translation("title", "Dune"),
            translation("release_date", "2021-09-15"),
            translation("plot", "  A desert planet.  "),
        ]),
        last_air_date: s("1999-01-01"),
        release_date: None,
        plot: None,
        description: None,
        overview: None,
        images: Some(vec![image("cover", "c.jpg"), image("poster", "p.jpg")]),
    }
}

const SCRIPT: &str = "window.video = {id: 1}; window.masterPlaylist = { params: { 'token': 'abc', 'expires': '123', }, url: 'https://vixcloud.example/playlist/1?b=1', }; window.canPlayFHD = true";

#[test]
fn title_record_becomes_entry() {
    let e = parse_result(&dune(), BASE).unwrap();
    assert_eq!(e.id, 7);
    assert_eq!(e.name, "Dune");
    assert_eq!(e.slug, "dune");
    assert_eq!(e.media_type, MediaType::Movie);
    assert_eq!(e.alternative_names, vec!["Dune: Part One".to_string()]);
    assert_eq!(e.year.as_deref(), Some("2021"));
    assert_eq!(e.description.as_deref(), Some("A desert planet."));
    assert_eq!(e.image_url.as_deref(), Some("https://cdn.streamingcommunity.example/images/p.jpg"));
    assert_eq!(e.score.as_deref(), Some("8.1"));
    assert_eq!(e.language, "");
}

#[test]
fn title_record_without_name_is_skipped() {
    let mut r = dune();
    r.name = None;
    assert!(parse_result(&r, BASE).is_none());
    let mut r = dune();
    r.id = None;
    assert!(parse_result(&r, BASE).is_none());
}

#[test]
fn year_falls_back_to_dates() {
    let mut r = bare(1, "X");
    assert_eq!(extract_year(&r), None);
    r.release_date = s("2004-05-06");
    assert_eq!(extract_year(&r).as_deref(), Some("2004"));
    r.last_air_date = s("2010-01-01");
    assert_eq!(extract_year(&r).as_deref(), Some("2010"));
    r.translations = Some(vec![translation("first_air_date", "20"), translation("release_date", "1987-3-3")]);
    assert_eq!(extract_year(&r).as_deref(), Some("1987"));
}

#[test]
fn description_falls_back_to_fields() {
    let mut r = bare(1, "X");
    assert_eq!(extract_description(&r), None);
    r.overview = s(" seen ");
    assert_eq!(extract_description(&r).as_deref(), Some("seen"));
    r.plot = s("   ");
    assert_eq!(extract_description(&r), None);
    r.translations = Some(vec![translation("description", " told ")]);
    assert_eq!(extract_description(&r).as_deref(), Some("told"));
}

#[test]
fn image_prefers_poster_then_first() {
    assert_eq!(extract_image_url(&None, BASE), None);
    let imgs = Some(vec![image("logo", "l.png"), image("background", "b.jpg")]);
    assert_eq!(
        extract_image_url(&imgs, BASE).as_deref(),
        Some("https://cdn.streamingcommunity.example/images/b.jpg")
    );
    let imgs = Some(vec![image("logo", "l.png")]);
    assert_eq!(
        extract_image_url(&imgs, BASE).as_deref(),
        Some("https://cdn.streamingcommunity.example/images/l.png")
    );
}

#[test]
fn seasons_sorted_by_number() {
    let recs = vec![
        SeasonRecord { id: Some(30), number: Some(3), name: None },
        SeasonRecord { id: Some(10), number: Some(1), name: s("One") },
        SeasonRecord { id: None, number: Some(2), name: None },
        SeasonRecord { id: Some(20), number: Some(2), name: None },
    ];
    let seasons = seasons_from(&recs);
    let nums: Vec<(u64, u32)> = seasons.iter().map(|s| (s.id, s.number)).collect();
    assert_eq!(nums, vec![(10, 1), (20, 2), (30, 3)]);
    assert_eq!(seasons[0].name.as_deref(), Some("One"));
}

#[test]
fn episodes_sorted_by_number() {
    let recs = vec![
        EpisodeRecord { id: Some(2), number: Some(2), name: s("Two"), duration: Some(45), images: None },
        EpisodeRecord { id: Some(1), number: Some(1), name: None, duration: None, images: Some(vec![image("cover", "e.jpg")]) },
        EpisodeRecord { id: Some(9), number: None, name: None, duration: None, images: None },
    ];
    let eps = episodes_from(&recs, BASE);
    assert_eq!(eps.len(), 2);
    assert_eq!(eps[0].id, 1);
    assert_eq!(eps[0].name, "");
    assert_eq!(eps[0].image_url.as_deref(), Some("https://cdn.streamingcommunity.example/images/e.jpg"));
    assert_eq!(eps[1].duration, Some(45));
}

fn entry(id: u64, lang: &str) -> MediaEntry {
    MediaEntry {
        id,
        name: format!("T{id}"),
        slug: format!("t-{id}"),
        provider: 0,
        language: lang.to_string(),
        media_type: MediaType::Series,
        alternative_names: Vec::new(),
        year: None,
        score: None,
        image_url: None,
        description: None,
    }
}

#[test]
fn addresses_of_titles() {
    let e = entry(5, "");
    assert_eq!(entry_lang(&e), "it");
    assert_eq!(entry_lang(&entry(5, "en")), "en");
    assert_eq!(title_url(BASE, &e), "https://streamingcommunity.example/it/titles/5-t-5");
    assert_eq!(season_url(BASE, &e, 2), "https://streamingcommunity.example/it/titles/5-t-5/season-2");
    assert_eq!(iframe_url(BASE, "it", 5, None), "https://streamingcommunity.example/it/iframe/5");
    assert_eq!(
        iframe_url(BASE, "en", 5, Some(77)),
        "https://streamingcommunity.example/en/iframe/5?episode_id=77&next_episode=1"
    );
}

#[test]
fn catalog_lists_each_title_once() {
    let mut c = Catalog::new();
    assert!(c.add(entry(1, ""), "it"));
    assert!(!c.add(entry(1, "en"), "en"));
    assert!(c.add(entry(2, ""), "en"));
    assert!(c.has(2));
    assert!(!c.has(3));
    assert_eq!(c.len(), 2);
    let v = c.finish(1);
    assert_eq!(v.len(), 1);
    assert_eq!(v[0].language, "it");
}

#[test]
fn player_script_gives_stream() {
    let s = stream_from_script(SCRIPT).unwrap();
    assert_eq!(s.url, "https://vixcloud.example/playlist/1?h=1&b=1&token=abc&expires=123");
    assert_eq!(s.headers, vec![("User-Agent".to_string(), USER_AGENT.to_string())]);
    match stream_from_script("nothing here") {
        Err(ProviderError::StreamExtraction(m)) => assert_eq!(m, "No HLS params in script"),
        other => panic!("unexpected {other:?}"),
    }
}

#[test]
fn page_data_is_found() {
    let html = "<html><body><div id=\"app\" data-page=\"{&quot;version&quot;:&quot;abc123&quot;}\"></div></body></html>";
    assert_eq!(data_page_text(html).unwrap(), "{\"version\":\"abc123\"}");
    assert_eq!(inertia_version(html).unwrap(), "abc123");
    let raw = "<p data-page='{}'></p>";
    assert_eq!(data_page_text(raw).unwrap(), "{}");
    match inertia_version(raw) {
        Err(ProviderError::Parse(m)) => assert_eq!(m, "No version in data-page"),
        other => panic!("unexpected {other:?}"),
    }
    match data_page_text("<p>none</p>") {
        Err(ProviderError::Parse(m)) => assert_eq!(m, "No data-page JSON found"),
        other => panic!("unexpected {other:?}"),
    }
    let bad = "<div id=\"app\" data-page=\"nope\"></div>";
    match inertia_version(bad) {
        Err(ProviderError::Parse(m)) => assert!(m.starts_with("Invalid JSON: ")),
        other => panic!("unexpected {other:?}"),
    }
}

#[test]
fn player_frame_is_found() {
    assert_eq!(iframe_src("<iframe src=\"https://p.example/1\"></iframe>").unwrap(), "https://p.example/1");
    assert_eq!(iframe_src("<iframe data-src=\"https://p.example/2\"></iframe>").unwrap(), "https://p.example/2");
    match iframe_src("<div></div>") {
        Err(ProviderError::Parse(m)) => assert_eq!(m, "No iframe src found"),
        other => panic!("unexpected {other:?}"),
    }
}

#[test]
fn player_page_scripts_are_joined() {
    let html = format!("<html><head><script>var a = 1;</script></head><body><script>{SCRIPT}</script></body></html>");
    assert_eq!(player_script(&html), format!("var a = 1;\n{SCRIPT}"));
    let s = stream_from_page(&html).unwrap();
    assert_eq!(s.url, "https://vixcloud.example/playlist/1?h=1&b=1&token=abc&expires=123");
}

#[test]
fn search_merges_languages() {
    let it = title_entries(&vec![bare(1, "A"), bare(2, "B")], BASE, "it");
    let en = title_entries(&vec![bare(2, "B"), bare(3, "C")], BASE, "en");
    assert_eq!(it[0].language, "it");
    let all = search_results(vec![it, en]);
    let ids: Vec<(u64, String)> = all.iter().map(|e| (e.id, e.language.clone())).collect();
    assert_eq!(ids, vec![(1, "it".to_string()), (2, "it".to_string()), (3, "en".to_string())]);
}

#[test]
fn home_page_catalog_stops_at_limit() {
    let sliders = vec![vec![bare(1, "A"), bare(2, "B")], vec![bare(2, "B"), bare(3, "C"), bare(4, "D")]];
    let cat = catalog_from_page(&sliders, &vec![], BASE, 3);
    assert_eq!(cat.len(), 3);
    let v = cat.finish(3);
    let ids: Vec<u64> = v.iter().map(|e| e.id).collect();
    assert_eq!(ids, vec![1, 2, 3]);
    assert_eq!(v[2].language, "it");
    let cat = catalog_from_page(&vec![vec![]], &vec![bare(8, "H"), bare(9, "I")], BASE, 10);
    assert_eq!(cat.len(), 2);
    assert!(needs_genre_sliders(cat.len(), 10, 2));
    assert!(!needs_genre_sliders(10, 10, 2));
    assert!(!needs_genre_sliders(1, 10, 0));
}

#[test]
fn genre_sliders_complete_the_catalog() {
    let mut cat = catalog_from_page(&vec![vec![bare(1, "A")]], &vec![], BASE, 3);
    let full = cat.offer_titles(&vec![bare(1, "A"), bare(5, "E"), bare(6, "F"), bare(7, "G")], BASE, "en", usize::MAX);
    assert!(!full);
    assert_eq!(cat.len(), 4);
    let v = cat.finish(3);
    assert_eq!(v.iter().map(|e| e.id).collect::<Vec<_>>(), vec![1, 5, 6]);
    assert_eq!(v[1].language, "en");
}
