use streamvault::config::{
    advance_watch_item, f64_bits_of_u32, remove_watch_item, upsert_watch_item, AppConfig,
    PlayerPrefs, ProcessConfig, RequestsConfig, StoredConfig, WatchItem,
};
use streamvault::providers::{Episode, MediaEntry, MediaType};

fn make_entry(provider: usize, id: u64) -> MediaEntry {
    MediaEntry {
        id,
        name: format!("Title {id}"),
        slug: String::new(),
        provider,
        language: String::new(),
        media_type: MediaType::Movie,
        alternative_names: Vec::new(),
        year: None,
        score: None,
        image_url: None,
        description: None,
    }
}

fn make_watch(provider: usize, id: u64, time: f64, dur: f64) -> WatchItem {
    WatchItem {
        entry: make_entry(provider, id),
        current_time: time.to_bits(),
        duration: dur.to_bits(),
        season: None,
        episode: None,
    }
}

#[test]
fn config_default_config_has_expected_values() {
    let c = AppConfig::default();
    assert_eq!(c.output.root_path, "Movies");
    assert_eq!(c.output.movie_folder_name, "Movie");
    assert_eq!(c.output.serie_folder_name, "Serie");
    assert_eq!(c.download.thread_count, 8);
    assert_eq!(c.download.retry_count, 30);
    assert!(c.download.concurrent_download);
    assert_eq!(c.process.extension, "mp4");
    assert!(!c.process.use_gpu);
    assert!(c.process.merge_audio);
    assert_eq!(c.requests.timeout, 30);
    assert!(!c.requests.use_proxy);
}

#[test]
fn config_dir_ends_with_streamvault() {
    assert!(AppConfig::config_dir().ends_with("StreamVault"));
}

#[test]
fn config_config_path_ends_with_json() {
    assert!(AppConfig::config_path().ends_with("config.json"));
}

#[test]
fn config_download_dir_uses_root_path() {
    assert!(AppConfig::default().download_dir().ends_with("Movies"));
}

#[test]
fn config_movie_dir_appends_movie_folder() {
    assert!(AppConfig::default().movie_dir().ends_with("Movies/Movie"));
}

#[test]
fn config_serie_dir_appends_serie_folder() {
    assert!(AppConfig::default().serie_dir().ends_with("Movies/Serie"));
}

#[test]
fn default_process_merge_flags() {
    let p = ProcessConfig::default();
    assert!(p.merge_audio);
    assert!(p.merge_subtitle);
    assert!(!p.use_gpu);
}

#[test]
fn default_request_no_proxy() {
    let r = RequestsConfig::default();
    assert!(!r.use_proxy);
    assert!(r.proxy_url.is_empty());
    assert_eq!(r.max_retry, 8);
}

#[test]
fn upsert_inserts_new_at_front() {
    let mut items = vec![make_watch(0, 1, 10.0, 60.0)];
    upsert_watch_item(&mut items, make_watch(0, 2, 20.0, 90.0));
    assert_eq!(items.len(), 2);
    assert_eq!(items[0].entry.id, 2);
}

#[test]
fn upsert_updates_existing() {
    let mut items = vec![make_watch(0, 1, 10.0, 60.0)];
    upsert_watch_item(&mut items, make_watch(0, 1, 45.0, 60.0));
    assert_eq!(items.len(), 1);
    assert!((f64::from_bits(items[0].current_time) - 45.0).abs() < 0.01);
}

#[test]
fn upsert_moves_existing_to_front() {
    let mut items = vec![
        make_watch(0, 1, 10.0, 60.0),
        make_watch(0, 2, 20.0, 90.0),
        make_watch(0, 3, 30.0, 120.0),
    ];
    upsert_watch_item(&mut items, make_watch(0, 3, 55.0, 120.0));
    assert_eq!(items.len(), 3);
    assert_eq!(items[0].entry.id, 3);
    assert!((f64::from_bits(items[0].current_time) - 55.0).abs() < 0.01);
    assert_eq!(items[1].entry.id, 1);
    assert_eq!(items[2].entry.id, 2);
}

#[test]
fn upsert_matches_on_provider_and_id() {
    let mut items = vec![make_watch(0, 1, 10.0, 60.0)];
    upsert_watch_item(&mut items, make_watch(1, 1, 20.0, 60.0));
    assert_eq!(items.len(), 2);
}

#[test]
fn remove_watch_item_removes_match() {
    let mut items = vec![make_watch(0, 1, 10.0, 60.0), make_watch(0, 2, 20.0, 90.0)];
    remove_watch_item(&mut items, 0, 1);
    assert_eq!(items.len(), 1);
    assert_eq!(items[0].entry.id, 2);
}

#[test]
fn remove_watch_item_no_match_unchanged() {
    let mut items = vec![make_watch(0, 1, 10.0, 60.0)];
    remove_watch_item(&mut items, 1, 99);
    assert_eq!(items.len(), 1);
}

#[test]
fn advance_watch_item_to_next_episode() {
    let mut items = vec![make_watch(0, 1, 30.0, 60.0)];
    let eps: Vec<Episode> = (1..=3)
        .map(|n| Episode {
            id: n as u64,
            number: n,
            name: format!("Ep {n}"),
            duration: Some(45),
            image_url: None,
        })
        .collect();
    let advanced = advance_watch_item(&mut items, make_entry(0, 1), &eps, 1, 1);
    assert!(advanced);
    assert_eq!(items.len(), 1);
    assert!((f64::from_bits(items[0].current_time)).abs() < 0.01);
    assert_eq!(items[0].episode.as_ref().unwrap().number, 2);
    assert_eq!(items[0].season, Some(1));
}

#[test]
fn advance_watch_item_no_next_episode() {
    let mut items = vec![make_watch(0, 1, 30.0, 60.0)];
    let eps = vec![Episode {
        id: 1,
        number: 1,
        name: "Ep 1".into(),
        duration: Some(45),
        image_url: None,
    }];
    let advanced = advance_watch_item(&mut items, make_entry(0, 1), &eps, 1, 1);
    assert!(!advanced);
    assert!((f64::from_bits(items[0].current_time) - 30.0).abs() < 0.01);
}

#[test]
fn advance_takes_smallest_later_number_first_listed() {
    let mut items = Vec::new();
    let ep = |id: u64, number: u32, d: Option<u32>| Episode {
        id,
        number,
        name: format!("Ep {number}"),
        duration: d,
        image_url: None,
    };
    let eps = vec![ep(10, 7, None), ep(11, 4, Some(120)), ep(12, 4, Some(90)), ep(13, 2, None)];
    assert!(advance_watch_item(&mut items, make_entry(3, 9), &eps, 2, 5));
    let it = &items[0];
    assert_eq!(it.episode.as_ref().unwrap().id, 11);
    assert_eq!(f64::from_bits(it.duration), 120.0);
    assert_eq!(it.season, Some(5));
    assert_eq!(it.current_time, 0);
}

#[test]
fn advance_without_duration_records_zero() {
    let mut items = Vec::new();
    let eps = vec![Episode {
        id: 1,
        number: 3,
        name: String::new(),
        duration: None,
        image_url: None,
    }];
    assert!(advance_watch_item(&mut items, make_entry(0, 1), &eps, 0, 1));
    assert_eq!(items[0].duration, 0);
}

#[test]
fn whole_seconds_encode_as_doubles() {
    for n in [0u32, 1, 2, 3, 45, 1000, 3600, 65535, 1 << 31, u32::MAX] {
        assert_eq!(f64_bits_of_u32(n), (n as f64).to_bits());
    }
}

#[test]
fn upsert_twice_is_once() {
    let mut once = vec![make_watch(0, 1, 10.0, 60.0), make_watch(0, 2, 20.0, 90.0)];
    upsert_watch_item(&mut once, make_watch(0, 2, 25.0, 90.0));
    let mut twice = vec![make_watch(0, 1, 10.0, 60.0), make_watch(0, 2, 20.0, 90.0)];
    upsert_watch_item(&mut twice, make_watch(0, 2, 25.0, 90.0));
    upsert_watch_item(&mut twice, make_watch(0, 2, 25.0, 90.0));
    let ids = |v: &Vec<WatchItem>| v.iter().map(|i| (i.entry.id, i.current_time)).collect::<Vec<_>>();
    assert_eq!(ids(&once), ids(&twice));
}

#[test]
fn remove_after_upsert_forgets_title() {
    let mut items = vec![make_watch(0, 1, 10.0, 60.0), make_watch(0, 2, 20.0, 90.0)];
    upsert_watch_item(&mut items, make_watch(0, 2, 25.0, 90.0));
    remove_watch_item(&mut items, 0, 2);
    assert_eq!(items.len(), 1);
    assert_eq!(items[0].entry.id, 1);
}

#[test]
fn load_uses_stored_or_defaults() {
    let mut stored = AppConfig::default();
    stored.output.root_path = "Elsewhere".into();
    let (c, save) = AppConfig::load(StoredConfig::Found(stored));
    assert_eq!(c.output.root_path, "Elsewhere");
    assert!(!save);
    let (c, save) = AppConfig::load(StoredConfig::Missing);
    assert_eq!(c.output.root_path, "Movies");
    assert!(save);
    let (c, save) = AppConfig::load(StoredConfig::Unreadable);
    assert_eq!(c.process.extension, "mp4");
    assert!(!save);
}

#[test]
fn dirs_join_under_given_home() {
    let c = AppConfig::default();
    assert_eq!(c.movie_dir_in(&Some("/home/u".into())), "/home/u/Movies/Movie");
    assert_eq!(c.serie_dir_in(&None), "./Movies/Serie");
    assert_eq!(AppConfig::config_dir_in(&Some("/cfg/".into())), "/cfg/StreamVault");
    assert_eq!(
        AppConfig::config_file_in(&Some("/cfg".into()), "config.json"),
        "/cfg/StreamVault/config.json"
    );
}

#[test]
fn default_player_prefs_are_empty() {
    let p = PlayerPrefs::default();
    assert!(p.audio_lang.is_empty() && p.subtitle_lang.is_empty());
    assert!(!p.subtitles_on);
    assert_eq!(p.speed, 0);
}
