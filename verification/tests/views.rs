use streamvault::config::WatchItem;
use streamvault::gui::views::{
    after_poll, card_style, download_status, downloads_count, episodes_body, home_body, key_action,
    kind_colors, kind_label, nav_link_class, poll_delay_secs, poll_start, poster_view, resume_card,
    search_body, seasons_row, update_button, EpisodesBody, HomeBody, KeyAction, PlayerKey, PollEvent,
    SearchBody, SeasonsRow,
};
use streamvault::gui::views::{player_panel, Tone};
use streamvault::gui::Screen;
use streamvault::playback::player::PlaybackState;
use streamvault::providers::{Episode, MediaEntry, MediaType, Season};
use streamvault::util::{DownloadProgress, DownloadStatus};

fn entry(name: &str, kind: MediaType, image: Option<&str>) -> MediaEntry {
    MediaEntry {
        id: 7,
        name: name.into(),
        slug: String::new(),
        provider: 1,
        language: String::new(),
        media_type: kind,
        alternative_names: Vec::new(),
        year: Some("2004".into()),
        score: None,
        image_url: image.map(|s| s.to_string()),
        description: None,
    }
}

fn ep(number: u32, name: &str, duration: Option<u32>, image: Option<&str>) -> Episode {
    Episode { id: number as u64, number, name: name.into(), duration, image_url: image.map(|s| s.to_string()) }
}

#[test]
fn card_styles_add_the_picture_when_there_is_one() {
    assert_eq!(card_style("ab", None), "background-color: rgb(64,10,80);");
    let url = "http://x/p.jpg".to_string();
    assert_eq!(
        card_style("", Some(&url)),
        "background-color: rgb(139,26,26); background-image: url('http://x/p.jpg');"
    );
}

#[test]
fn poster_shows_provider_kind_and_year() {
    let p = poster_view(&entry("ab", MediaType::Movie, None));
    assert_eq!(p.style, "background-color: rgb(64,10,80);");
    assert_eq!(p.provider, "RaiPlay");
    assert_eq!(p.badge_class, "badge badge-movie");
    assert_eq!(p.kind, "MOVIE");
    assert_eq!(p.year, "2004");
    assert_eq!(kind_label(&MediaType::Series), "SERIES");
    assert_eq!(kind_colors(&MediaType::Series), ("#0091d5", "white"));
    assert_eq!(kind_colors(&MediaType::Movie), ("var(--accent)", "var(--accent-text)"));
}

#[test]
fn home_screen_states() {
    assert_eq!(home_body(0, true, 3), HomeBody::Splash);
    assert_eq!(home_body(0, false, 3), HomeBody::Empty);
    assert_eq!(home_body(5, true, 0), HomeBody::Catalog { resume_row: false });
    assert_eq!(home_body(5, false, 2), HomeBody::Catalog { resume_row: true });
}

#[test]
fn resume_card_prefers_the_episode_picture() {
    let item = WatchItem {
        entry: entry("ab", MediaType::Series, Some("http://x/show.jpg")),
        current_time: 0,
        duration: 0,
        season: Some(2),
        episode: Some(ep(3, "Pilot", None, Some("http://x/ep.jpg"))),
    };
    let c = resume_card(&item);
    assert_eq!(c.style, "background-color: rgb(64,10,80); background-image: url('http://x/ep.jpg');");
    assert_eq!(c.subtitle, "S02E03 - Pilot");
    assert_eq!(c.name, "ab");
    assert_eq!(c.remove, (1, 7));
    let film = WatchItem { season: None, episode: None, ..item };
    let c = resume_card(&film);
    assert_eq!(c.subtitle, "");
    assert_eq!(c.style, "background-color: rgb(64,10,80); background-image: url('http://x/show.jpg');");
}

#[test]
fn search_screen_states() {
    assert!(matches!(search_body(true, 4, "x"), SearchBody::Searching));
    match search_body(false, 0, "") {
        SearchBody::Empty(m) => assert_eq!(m, "Use the search bar to find movies and series"),
        _ => panic!("expected a message"),
    }
    match search_body(false, 0, "lost") {
        SearchBody::Empty(m) => assert_eq!(m, "No results found"),
        _ => panic!("expected a message"),
    }
    match search_body(false, 12, "lost") {
        SearchBody::Results(c) => assert_eq!(c, "12 results"),
        _ => panic!("expected results"),
    }
}

#[test]
fn downloads_count_and_status() {
    assert_eq!(downloads_count(0), "0 items");
    assert_eq!(downloads_count(1), "1 item");
    assert_eq!(downloads_count(3), "3 items");
    let mut p = DownloadProgress::new(1, "a".into());
    assert_eq!(download_status(&p), ("Queued".to_string(), "var(--text3)"));
    p.status = DownloadStatus::Muxing;
    assert_eq!(download_status(&p), ("Muxing...".to_string(), "var(--warn)"));
    p.status = DownloadStatus::Failed("disk full".into());
    assert_eq!(download_status(&p), ("disk full".to_string(), "var(--danger)"));
}

#[test]
fn season_tabs_mark_the_selected_one() {
    let seasons = vec![
        Season { id: 1, number: 1, name: None },
        Season { id: 2, number: 2, name: None },
    ];
    assert!(matches!(seasons_row(&Vec::new(), None, true), SeasonsRow::Loading));
    match seasons_row(&seasons, Some(2), true) {
        SeasonsRow::Tabs(t) => {
            assert_eq!(t.len(), 2);
            assert_eq!(t[0].label, "Season 1");
            assert!(!t[0].active);
            assert!(t[1].active);
        }
        SeasonsRow::Loading => panic!("expected tabs"),
    }
}

#[test]
fn episode_rows_carry_season_and_length() {
    assert!(matches!(episodes_body(&Vec::new(), None, true), EpisodesBody::Loading));
    assert!(matches!(episodes_body(&Vec::new(), None, false), EpisodesBody::Prompt));
    let eps = vec![ep(1, "One", Some(42), None), ep(2, "Two", None, None)];
    match episodes_body(&eps, None, false) {
        EpisodesBody::Rows(l) => {
            assert_eq!(l[0].season, 1);
            assert_eq!(l[0].duration, "42 min");
            assert_eq!(l[1].duration, "");
            assert_eq!(l[1].name, "Two");
        }
        _ => panic!("expected rows"),
    }
    match episodes_body(&eps, Some(4), true) {
        EpisodesBody::Rows(l) => assert_eq!(l[1].season, 4),
        _ => panic!("expected rows"),
    }
}

#[test]
fn navbar_marks_the_open_screen() {
    assert_eq!(nav_link_class(Screen::Home, Screen::Home), "nav-link active");
    assert_eq!(nav_link_class(Screen::Home, Screen::Downloads), "nav-link");
    assert!(update_button(false, false).is_none());
    let b = update_button(true, false).unwrap();
    assert_eq!(b.class, "update-btn");
    assert!(b.clickable);
    let b = update_button(false, true).unwrap();
    assert_eq!(b.class, "update-btn updating");
    assert!(!b.clickable);
}

#[test]
fn the_end_of_a_video_is_reported_once() {
    let s = poll_start();
    assert_eq!(poll_delay_secs(s), 1);
    let first = after_poll(s, false);
    assert!(first.seek);
    assert_eq!(first.event, PollEvent::Playing);
    assert_eq!(poll_delay_secs(first.next), 3);
    let end = after_poll(first.next, true);
    assert!(!end.seek);
    assert_eq!(end.event, PollEvent::Ended);
    let again = after_poll(end.next, true);
    assert_eq!(again.event, PollEvent::Nothing);
    let replay = after_poll(again.next, false);
    assert_eq!(after_poll(replay.next, true).event, PollEvent::Ended);
}

#[test]
fn player_keys() {
    assert_eq!(key_action(PlayerKey::Left), Some(KeyAction::Seek(-15)));
    assert_eq!(key_action(PlayerKey::Right), Some(KeyAction::Seek(15)));
    assert_eq!(key_action(PlayerKey::Space), Some(KeyAction::TogglePause));
    assert_eq!(key_action(PlayerKey::Other), None);
}

#[test]
fn player_panel_follows_the_state() {
    let p = player_panel(&PlaybackState::Stopped);
    assert_eq!((p.status, p.tone, p.toggle, p.toggle_pauses, p.controls_active), ("Stopped", Tone::Secondary, "Resume", false, false));
    let p = player_panel(&PlaybackState::Playing("u".into()));
    assert_eq!((p.status, p.tone, p.toggle, p.toggle_pauses, p.controls_active), ("Playing", Tone::Success, "Pause", true, true));
    let p = player_panel(&PlaybackState::Paused("u".into()));
    assert_eq!((p.status, p.tone, p.toggle, p.toggle_pauses, p.controls_active), ("Paused", Tone::Warning, "Resume", false, true));
}
