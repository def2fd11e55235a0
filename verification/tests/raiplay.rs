use streamvault::providers::raiplay::{
    content_relinker, episodes_from_cards, item_json_url, json_url, parse_search_card,
    programme_url, raiplay_hash, relinker_stream, relinker_url, search_results,
    season_episodes_url, seasons_from_blocks, stream_page, RaiBlock, RaiCard, RaiEpisodeCard, RaiSet,
};
use streamvault::providers::{MediaType, ProviderError};

fn s(x: &str) -> Option<String> {
    Some(x.to_string())
}

fn card(path: &str, title: &str) -> RaiCard {
    RaiCard {
        path_id: s(path),
        titolo: s(title),
        immagine: s("/cropgd/2019/08/30/img.jpg"),
    }
}

fn ep_card(episode: Option<&str>, title: &str, link: &str) -> RaiEpisodeCard {
    RaiEpisodeCard {
        episode: episode.map(String::from),
        episode_title: s(title),
        name: None,
        toptitle: None,
        duration_in_minutes: s("50"),
        duration: None,
        weblink: s(link),
        url: None,
    }
}

#[test]
fn search_card_becomes_entry() {
    let e = parse_search_card(&card("/programmi/montalbano.json", "Montalbano")).unwrap();
    assert_eq!(e.id, raiplay_hash("/programmi/montalbano.json"));
    assert_eq!(e.slug, "/programmi/montalbano.json");
    assert_eq!(e.media_type, MediaType::Series);
    assert_eq!(e.image_url.as_deref(), Some("https://www.raiplay.it/cropgd/2019/08/30/img.jpg"));
    assert_eq!(e.year.as_deref(), Some("2019"));
    assert!(parse_search_card(&card("/x", "")).is_none());
    assert!(parse_search_card(&RaiCard { path_id: None, titolo: s("T"), immagine: None }).is_none());
}

#[test]
fn search_keeps_fifteen_unique() {
    let mut cards: Vec<RaiCard> = (0..20).map(|i| card(&format!("/p/{i}"), "T")).collect();
    cards[1] = card("/p/0", "Again");
    let r = search_results(&cards);
    assert_eq!(r.len(), 14);
    assert_eq!(r[0].slug, "/p/0");
    assert_eq!(r[1].slug, "/p/2");
}

#[test]
fn seasons_are_numbered_from_one() {
    let set = |id: &str, n: u64| RaiSet { episode_count: Some(n), id: s(id), name: s(&format!("Stagione {id}")) };
    let blocks = vec![
        RaiBlock { kind: s("RaiPlay Multimedia Block"), name: s("Episodi"), id: s("b1"), sets: Some(vec![set("s1", 10), set("s0", 0), set("s2", 8)]) },
        RaiBlock { kind: s("RaiPlay Multimedia Block"), name: s("Clip"), id: s("b2"), sets: Some(vec![set("c1", 3)]) },
        RaiBlock { kind: s("Other"), name: s("Episodi"), id: s("b3"), sets: Some(vec![set("o1", 3)]) },
    ];
    let (seasons, maps) = seasons_from_blocks(&blocks);
    assert_eq!(seasons.len(), 2);
    assert_eq!((seasons[1].id, seasons[1].number), (2, 2));
    assert_eq!(seasons[1].name.as_deref(), Some("Stagione s2"));
    assert_eq!(maps, vec![("b1".to_string(), "s1".to_string()), ("b1".to_string(), "s2".to_string())]);
}

#[test]
fn episode_cards_sorted_with_pages() {
    let cards = vec![
        ep_card(Some("2"), "Secondo", "/video/2.html"),
        ep_card(None, "Senza numero", ""),
        ep_card(Some("1"), "Primo", "https://www.raiplay.it/video/1.html"),
    ];
    let (eps, pages) = episodes_from_cards("/programmi/x", &cards);
    let got: Vec<(u32, String)> = eps.iter().map(|e| (e.number, e.name.clone())).collect();
    assert_eq!(
        got,
        vec![(1, "Primo".to_string()), (2, "Secondo".to_string()), (2, "Senza numero".to_string())]
    );
    assert_eq!(eps[0].duration, Some(50));
    assert_eq!(eps[1].id, raiplay_hash("/programmi/x/video/2.html"));
    assert_eq!(pages.len(), 2);
    assert_eq!(pages[0], (raiplay_hash("/programmi/x/video/2.html"), "https://www.raiplay.it/video/2.html".to_string()));
    assert_eq!(pages[1].1, "https://www.raiplay.it/video/1.html");
}

#[test]
fn page_addresses() {
    assert_eq!(json_url("https://x.it/a.json"), "https://x.it/a.json");
    assert_eq!(json_url("https://x.it/a.html"), "https://x.it/a.json");
    assert_eq!(json_url("https://x.it/a"), "https://x.it/a.json");
    assert_eq!(programme_url("//programmi/x"), "https://www.raiplay.it/programmi/x");
    assert_eq!(item_json_url("/video/1"), "https://www.raiplay.it/video/1.json");
    assert_eq!(stream_page(true, s("https://p/1.html"), "ignored").unwrap(), "https://p/1.html");
    assert_eq!(stream_page(false, None, "/programmi/x").unwrap(), "https://www.raiplay.it/programmi/x");
    match stream_page(true, None, "/programmi/x") {
        Err(ProviderError::Parse(m)) => assert_eq!(m, "Episode URL not cached"),
        other => panic!("unexpected {other:?}"),
    }
}

#[test]
fn relinker_request() {
    assert_eq!(
        relinker_url("https://mediapolis.rai.it/relinker/relinkerServlet.htm?cont=abc").unwrap(),
        "https://mediapolisvod.rai.it/relinker/relinkerServlet.htm?cont=abc&output=62"
    );
    match relinker_url("no-key") {
        Err(ProviderError::StreamExtraction(m)) => assert_eq!(m, "No cont parameter"),
        other => panic!("unexpected {other:?}"),
    }
    match content_relinker(&None) {
        Err(ProviderError::StreamExtraction(m)) => assert_eq!(m, "No content_url"),
        other => panic!("unexpected {other:?}"),
    }
    assert!(content_relinker(&s("x?cont=k")).unwrap().ends_with("?cont=k&output=62"));
}

#[test]
fn relinker_reply_gives_stream() {
    let reply = br#"{"video":["https://h.example/x_,400,800,/playlist.m3u8?a=1"]}"#;
    assert_eq!(
        relinker_stream(reply).unwrap().url,
        "https://h.example/x_1200,1800,2400,3600,5000/playlist.m3u8?a=1"
    );
    let dash = br#"{"video":["https://h.example/x_,400,/manifest.mpd"]}"#;
    assert_eq!(relinker_stream(dash).unwrap().url, "https://h.example/x_,400,/manifest.mpd");
    match relinker_stream(br#"{"video":[]}"#) {
        Err(ProviderError::StreamExtraction(m)) => assert_eq!(m, "No video in relinker"),
        other => panic!("unexpected {other:?}"),
    }
    match relinker_stream(b"<html>") {
        Err(ProviderError::Parse(m)) => assert!(m.starts_with("Relinker JSON: ")),
        other => panic!("unexpected {other:?}"),
    }
}

#[test]
fn season_episodes_url_follows_the_mapping() {
    let mapping = vec![
        ("b1".to_string(), "s1".to_string()),
        ("b2".to_string(), "s2".to_string()),
    ];
    let url = season_episodes_url("/programmi/show.json", Some(&mapping), 2).unwrap();
    assert_eq!(url, "https://www.raiplay.it/programmi/show/b2/s2/episodes.json");
    let first = season_episodes_url("programmi/show", Some(&mapping), 1).unwrap();
    assert_eq!(first, "https://www.raiplay.it/programmi/show/b1/s1/episodes.json");
}

#[test]
fn season_episodes_url_without_mapping_fails() {
    let mapping = vec![("b1".to_string(), "s1".to_string())];
    match season_episodes_url("programmi/show", Some(&mapping), 2) {
        Err(ProviderError::Parse(m)) => assert_eq!(m, "Season mapping not found"),
        other => panic!("unexpected {:?}", other),
    }
    assert!(matches!(
        season_episodes_url("programmi/show", None, 1),
        Err(ProviderError::Parse(_))
    ));
}

#[test]
fn search_results_keep_the_first_card_of_a_title() {
    let cards = vec![
        card("/p/a", "A"),
        RaiCard { path_id: None, titolo: s("skip"), immagine: None },
        card("/p/b", "B"),
        card("/p/a", "A again"),
        card("/p/c", ""),
    ];
    let r = search_results(&cards);
    assert_eq!(r.len(), 2);
    assert_eq!(r[0].name, "A");
    assert_eq!(r[1].slug, "/p/b");
}
