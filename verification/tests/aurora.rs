use streamvault::providers::aurora::{
    after_refetch, aurora_seasons, bearer_tokens, channel, episode_number, episodes_of,
    playback_target, stream_from_reply, token_for, video_id, AuroraBlock, AuroraCard, AuroraId,
    AuroraItem, AuroraProvider, AuroraSearchItem, PlaybackTarget, DPLAY_PLAYBACK_URL,
    PLAYBACK_URL,
};
use streamvault::providers::{provider_hash, ProviderError};

fn s(x: &str) -> Option<String> {
    Some(x.to_string())
}

fn item(id: AuroraId, season: Option<u64>, ep: Option<u64>, title: &str) -> AuroraItem {
    AuroraItem {
        id,
        season_number: season,
        episode_number: ep,
        title: s(title),
        has_channel: false,
        video_duration: Some(2_700_000),
        poster_src: None,
        image_src: s("https://img.example/i.jpg"),
        image_url: s("https://img.example/u.jpg"),
    }
}

const SHOW: &str = "https://public.aurora.enhanced.live/site/page/cash-or-trash/?include=default&filter[environment]=nove&v=2&parent_slug=shows";

#[test]
fn sites_and_addresses() {
    let nove = AuroraProvider::nove(30);
    assert_eq!(nove.name(), "Nove");
    assert_eq!(nove.timeout, 30);
    assert_eq!(AuroraProvider::realtime(5).name(), "RealTime");
    assert_eq!(nove.build_show_url("Cash Or Trash", "shows"), SHOW);
    assert_eq!(
        nove.search_url("cash & trash"),
        "https://public.aurora.enhanced.live/site/search/page/?include=default&filter[environment]=nove&v=2&q=cash+%26+trash&page[number]=1&page[size]=20"
    );
    assert_eq!(
        AuroraProvider::realtime(5).homepage_url(),
        "https://public.aurora.enhanced.live/site/page/homepage/?include=default&filter[environment]=realtime&v=2"
    );
}

#[test]
fn playback_keys_by_realm() {
    let t = bearer_tokens(&s("k1"), &s("k2")).unwrap();
    assert_eq!(t.len(), 2);
    assert_eq!(token_for(&t, "X-REALM-DPLAY").unwrap(), (DPLAY_PLAYBACK_URL.to_string(), "k2".to_string()));
    let t = bearer_tokens(&s("k1"), &None).unwrap();
    assert_eq!(token_for(&t, "X-REALM-IT").unwrap(), (PLAYBACK_URL.to_string(), "k1".to_string()));
    match token_for(&t, "X-REALM-DPLAY") {
        Err(ProviderError::StreamExtraction(m)) => assert_eq!(m, "No token for channel X-REALM-DPLAY"),
        other => panic!("unexpected {other:?}"),
    }
    match bearer_tokens(&None, &None) {
        Err(ProviderError::StreamExtraction(m)) => assert_eq!(m, "No bearer tokens found"),
        other => panic!("unexpected {other:?}"),
    }
}

#[test]
fn search_results_are_show_pages() {
    let nove = AuroraProvider::nove(30);
    let items = vec![
        AuroraSearchItem { kind: s("showpage"), title: s("Cash or Trash"), slug: s("Cash Or Trash"), parent_slug: s("shows"), date_last_modified: s("2024-03-01T10:00:00Z"), image_url: s("https://img.example/c.jpg") },
        AuroraSearchItem { kind: s("video"), title: s("Clip"), slug: s("clip"), parent_slug: None, date_last_modified: None, image_url: None },
        AuroraSearchItem { kind: s("showpage"), title: s(""), slug: s("x"), parent_slug: None, date_last_modified: None, image_url: None },
    ];
    let r = nove.search_entries(&Some(items)).unwrap();
    assert_eq!(r.len(), 1);
    assert_eq!(r[0].slug, SHOW);
    assert_eq!(r[0].id, provider_hash(SHOW));
    assert_eq!(r[0].year.as_deref(), Some("2024"));
    assert_eq!(r[0].language, "it");
    match nove.search_entries(&None) {
        Err(ProviderError::Parse(m)) => assert_eq!(m, "No data array in search response"),
        other => panic!("unexpected {other:?}"),
    }
}

#[test]
fn item_fields() {
    assert_eq!(video_id(&item(AuroraId::Text("v1".into()), None, None, "")).as_deref(), Some("v1"));
    assert_eq!(video_id(&item(AuroraId::Unsigned(42), None, None, "")).as_deref(), Some("42"));
    assert_eq!(video_id(&item(AuroraId::Signed(-7), None, None, "")).as_deref(), Some("-7"));
    assert_eq!(video_id(&item(AuroraId::Missing, None, None, "")), None);
    assert_eq!(episode_number(&item(AuroraId::Missing, None, Some(4), "")), Some(4));
    assert_eq!(episode_number(&item(AuroraId::Missing, None, None, "Episodio 12 - Finale")), Some(12));
    assert_eq!(episode_number(&item(AuroraId::Missing, None, None, "Episodio x")), None);
    assert_eq!(episode_number(&item(AuroraId::Missing, None, None, "Puntata 3")), None);
    let mut it = item(AuroraId::Missing, None, None, "");
    assert_eq!(channel(&it), "X-REALM-IT");
    it.has_channel = true;
    assert_eq!(channel(&it), "X-REALM-DPLAY");
}

#[test]
fn seasons_listed_once_ascending() {
    let blocks = vec![
        vec![
            item(AuroraId::Text("a".into()), Some(2), Some(1), "A"),
            item(AuroraId::Text("b".into()), Some(1), None, "Episodio 3"),
            item(AuroraId::Text("c".into()), None, Some(1), "C"),
        ],
        vec![item(AuroraId::Text("d".into()), Some(2), Some(2), "D"), item(AuroraId::Text("e".into()), Some(5), None, "trailer")],
    ];
    let (seasons, kept) = aurora_seasons(Some(blocks)).unwrap();
    let nums: Vec<(u64, u32, String)> = seasons.iter().map(|s| (s.id, s.number, s.name.clone().unwrap())).collect();
    assert_eq!(nums, vec![(1, 1, "Season 1".to_string()), (2, 2, "Season 2".to_string())]);
    assert_eq!(kept.len(), 3);
    match aurora_seasons(None) {
        Err(ProviderError::Parse(m)) => assert_eq!(m, "No blocks in response"),
        other => panic!("unexpected {other:?}"),
    }
}

#[test]
fn season_episodes_with_links() {
    let mut first = item(AuroraId::Text("v2".into()), Some(1), Some(2), "");
    first.has_channel = true;
    first.video_duration = Some(0);
    let items = vec![
        first,
        item(AuroraId::Unsigned(9), Some(1), Some(1), "Pilota"),
        item(AuroraId::Text("v3".into()), Some(2), Some(1), "Altra"),
    ];
    let (eps, links) = episodes_of(77, 1, &Some(items)).unwrap();
    assert_eq!(eps.len(), 2);
    assert_eq!(eps[0].number, 1);
    assert_eq!(eps[0].name, "Pilota");
    assert_eq!(eps[0].duration, Some(45));
    assert_eq!(eps[0].image_url.as_deref(), Some("https://img.example/i.jpg"));
    assert_eq!(eps[0].id, provider_hash("77-1-9"));
    assert_eq!(eps[1].name, "Episode 2");
    assert_eq!(eps[1].duration, None);
    assert_eq!(links[0], (provider_hash("77-1-v2"), ("v2".to_string(), "X-REALM-DPLAY".to_string())));
    assert_eq!(links[1].1, ("9".to_string(), "X-REALM-IT".to_string()));
    match episodes_of(77, 1, &None) {
        Err(ProviderError::Parse(m)) => assert_eq!(m, "Show data not cached"),
        other => panic!("unexpected {other:?}"),
    }
}

#[test]
fn playback_steps() {
    match playback_target(false, None, Some(1)) {
        PlaybackTarget::Fail(ProviderError::StreamExtraction(m)) => assert_eq!(m, "Episode required"),
        other => panic!("unexpected {other:?}"),
    }
    match playback_target(true, Some(("v".into(), "c".into())), None) {
        PlaybackTarget::Ready(v, c) => assert_eq!((v.as_str(), c.as_str()), ("v", "c")),
        other => panic!("unexpected {other:?}"),
    }
    assert!(matches!(playback_target(true, None, Some(3)), PlaybackTarget::Refetch(3)));
    match playback_target(true, None, None) {
        PlaybackTarget::Fail(ProviderError::StreamExtraction(m)) => assert_eq!(m, "Season required to fetch episode data"),
        other => panic!("unexpected {other:?}"),
    }
    match after_refetch(None) {
        Err(ProviderError::StreamExtraction(m)) => assert_eq!(m, "Episode data not found after fetch"),
        other => panic!("unexpected {other:?}"),
    }
    assert_eq!(after_refetch(Some(("a".into(), "b".into()))).unwrap(), ("a".to_string(), "b".to_string()));
    assert_eq!(stream_from_reply(s("https://s.example/m.m3u8")).unwrap().url, "https://s.example/m.m3u8");
    match stream_from_reply(None) {
        Err(ProviderError::StreamExtraction(m)) => assert_eq!(m, "No streaming URL in response"),
        other => panic!("unexpected {other:?}"),
    }
}

fn show_card(url: &str, title: &str) -> AuroraCard {
    AuroraCard { page_type: s("showpage"), title: s(title), url: s(url), parent_url: s("shows"), image_url: None, description: s("") }
}

#[test]
fn catalogue_from_collection_blocks() {
    let nove = AuroraProvider::nove(30);
    let blocks = vec![
        AuroraBlock { kind: s("heroBlock"), items_type: s("showpage"), items: Some(vec![show_card("hero", "Hero")]) },
        AuroraBlock { kind: s("collectionBlock"), items_type: s("showpage"), items: Some(vec![show_card("a", "A"), show_card("b", "B"), show_card("a", "A again")]) },
        AuroraBlock { kind: s("collectionBlock"), items_type: s("showpage"), items: Some(vec![show_card("c", "C"), show_card("", "No url")]) },
    ];
    let all = nove.catalog_entries(&blocks, 10);
    let names: Vec<&str> = all.iter().map(|e| e.name.as_str()).collect();
    assert_eq!(names, vec!["A", "B", "C"]);
    assert_eq!(all[0].description, None);
    assert_eq!(nove.catalog_entries(&blocks, 2).len(), 2);
    assert_eq!(nove.catalog_entries(&blocks, 0).len(), 1);
    assert!(nove.catalog_entries(&vec![], 3).is_empty());
    let e = nove.catalog_entry(&show_card("x", "X")).unwrap();
    assert_eq!(e.slug, nove.build_show_url("x", "shows"));
}
