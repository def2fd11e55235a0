use streamvault::json::{member, reply_json, text_in, u64_in, Json};
use streamvault::providers::aurora::AuroraId;
use streamvault::providers::aurora_pages::{first_stream, home_blocks, realm_tokens, search_items, show_blocks};
use streamvault::providers::domain_in_list;
use streamvault::providers::raiplay_pages::{
    episode_cards, first_item_path, programme_blocks, search_cards, video_content_url,
};

fn json(text: &str) -> Json {
    reply_json(text).unwrap()
}

#[test]
fn json_members_and_numbers() {
    let j = json(r#"{"a":{"b":"x"},"n":12,"neg":-3,"f":1.5,"s":[1]}"#);
    assert_eq!(text_in(member(member(Some(&j), "a"), "b")), Some("x".to_string()));
    assert_eq!(u64_in(member(Some(&j), "n")), Some(12));
    assert_eq!(u64_in(member(Some(&j), "neg")), None);
    assert_eq!(u64_in(member(Some(&j), "f")), None);
    assert!(member(Some(&j), "missing").is_none());
    assert!(member(member(Some(&j), "s"), "x").is_none());
}

#[test]
fn domain_list_gives_the_address_without_trailing_slashes() {
    let list = json(r#"{"animeunity":{"full_url":"https://au.example//"},"bad":{"full_url":"ftp://x"}}"#);
    assert_eq!(domain_in_list(&list, "animeunity"), Some("https://au.example".to_string()));
    assert_eq!(domain_in_list(&list, "bad"), None);
    assert_eq!(domain_in_list(&list, "none"), None);
}

#[test]
fn aurora_items_keep_their_id_kind() {
    let page = json(
        r#"{"blocks":[{"items":[{"id":"abc","seasonNumber":1,"episodeNumber":2,"title":"T","channel":{"x":1},"poster":{"src":"p.jpg"}},{"id":7},{"id":-4,"channel":null},{}]},{"other":1}]}"#,
    );
    let blocks = show_blocks(&page).unwrap();
    assert_eq!(blocks.len(), 2);
    assert!(blocks[1].is_empty());
    let items = &blocks[0];
    assert!(matches!(&items[0].id, AuroraId::Text(t) if t == "abc"));
    assert_eq!(items[0].season_number, Some(1));
    assert!(items[0].has_channel);
    assert_eq!(items[0].poster_src.as_deref(), Some("p.jpg"));
    assert!(matches!(items[1].id, AuroraId::Unsigned(7)));
    assert!(matches!(items[2].id, AuroraId::Signed(-4)));
    assert!(!items[2].has_channel);
    assert!(matches!(items[3].id, AuroraId::Missing));
    assert!(show_blocks(&json(r#"{"x":1}"#)).is_none());
}

#[test]
fn aurora_search_catalogue_stream_and_tokens() {
    let found = search_items(&json(r#"{"data":[{"type":"show","title":"A","slug":"a","parentSlug":"p","image":{"url":"i"}}]}"#)).unwrap();
    assert_eq!(found[0].parent_slug.as_deref(), Some("p"));
    assert_eq!(found[0].image_url.as_deref(), Some("i"));
    assert!(search_items(&json("{}")).is_none());
    let blocks = home_blocks(&json(r#"{"blocks":[{"type":"x","itemsType":"y","items":[{"pageType":"show","title":"B","url":"u"}]},{"type":"z"}]}"#));
    assert_eq!(blocks.len(), 2);
    assert_eq!(blocks[0].items.as_ref().unwrap()[0].url.as_deref(), Some("u"));
    assert!(blocks[1].items.is_none());
    assert_eq!(
        first_stream(&json(r#"{"data":{"attributes":{"streaming":[{"url":"https://s/1.m3u8"},{"url":"2"}]}}}"#)),
        Some("https://s/1.m3u8".to_string())
    );
    assert_eq!(first_stream(&json(r#"{"data":{"attributes":{"streaming":[]}}}"#)), None);
    let (it, dplay) = realm_tokens(&json(r#"{"userMeta":{"realm":{"X-REALM-IT":"t1"}}}"#));
    assert_eq!(it.as_deref(), Some("t1"));
    assert!(dplay.is_none());
}

#[test]
fn raiplay_cards_blocks_and_episodes() {
    let cards = search_cards(&json(r#"{"agg":{"titoli":{"cards":[{"path_id":"/p/a.json","titolo":"A"},{"titolo":"B"}]}}}"#));
    assert_eq!(cards.len(), 2);
    assert_eq!(cards[0].path_id.as_deref(), Some("/p/a.json"));
    assert!(cards[1].path_id.is_none());
    let blocks = programme_blocks(&json(r#"{"blocks":[{"type":"RaiPlay Multimedia Block","id":"b1","sets":[{"id":"s1","name":"S1","episode_size":{"number":10}}]},{"id":"b2"}]}"#));
    assert_eq!(blocks[0].sets.as_ref().unwrap()[0].episode_count, Some(10));
    assert!(blocks[1].sets.is_none());
    let nested = episode_cards(&json(r#"{"seasons":[{"episodes":[{"cards":[{"episode":"1"},{"episode":"2"}]},{"cards":[{"episode":"3"}]}]},{"episodes":[{"cards":[{"episode":"4"}]}]}]}"#));
    let numbers: Vec<Option<String>> = nested.iter().map(|c| c.episode.clone()).collect();
    assert_eq!(numbers, vec![Some("1".into()), Some("2".into()), Some("3".into()), Some("4".into())]);
    let flat = episode_cards(&json(r#"{"cards":[{"episode":"9","weblink":"/w"}]}"#));
    assert_eq!(flat.len(), 1);
    assert_eq!(flat[0].weblink.as_deref(), Some("/w"));
    let page = json(r#"{"first_item_path":"/item.json","video":{"content_url":"https://r/relinker"}}"#);
    assert_eq!(first_item_path(&page).as_deref(), Some("/item.json"));
    assert_eq!(video_content_url(&page).as_deref(), Some("https://r/relinker"));
}
