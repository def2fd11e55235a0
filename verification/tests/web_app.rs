use streamvault::app::{
    catalog_share, ended_from, first_episode, next_season_number, playing_title, progress_step,
    remote_version, resume_title, search_query, season_start_item, tag_entries, update_available,
    finish_one, has_next_episode, next_episode, record_progress, Navigation, ProgressStep,
};
use streamvault::gui::Screen;
use streamvault::util::{DownloadProgress, DownloadStatus};
use streamvault::config::WatchItem;
use streamvault::providers::{Episode, MediaEntry, MediaType, Season};

fn entry(id: u64, kind: MediaType) -> MediaEntry {
    MediaEntry {
        id,
        name: "Lost".into(),
        slug: String::new(),
        provider: 1,
        language: String::new(),
        media_type: kind,
        alternative_names: Vec::new(),
        year: Some("2004".into()),
        score: None,
        image_url: None,
        description: None,
    }
}

fn ep(number: u32, name: &str, duration: Option<u32>) -> Episode {
    Episode { id: number as u64 + 100, number, name: name.into(), duration, image_url: None }
}

fn record(e: MediaEntry, season: Option<u32>, episode: Option<Episode>) -> WatchItem {
    WatchItem { entry: e, current_time: 5.0f64.to_bits(), duration: 60.0f64.to_bits(), season, episode }
}

const MANIFEST: &str = "[package]\nname = \"streamvault\"\nversion_note = 1\nversion = \"0.4.2\"\nedition = \"2021\"\n";

#[test]
fn release_check_reads_manifest() {
    assert_eq!(remote_version(MANIFEST).as_deref(), Some("0.4.2"));
    assert_eq!(remote_version("  version=  \"1.0\"  \r\n").as_deref(), Some("1.0"));
    assert_eq!(remote_version("versions = 2\n"), None);
    assert_eq!(remote_version(""), None);
    assert!(update_available(MANIFEST, "0.4.1"));
    assert!(!update_available(MANIFEST, "0.4.2"));
    assert!(!update_available("name = 1", "0.4.2"));
}

#[test]
fn search_needs_text() {
    assert_eq!(search_query("  dune \n").as_deref(), Some("dune"));
    assert_eq!(search_query(" \t "), None);
}

#[test]
fn catalogue_shares_and_tags() {
    assert_eq!(catalog_share(4), 25);
    assert_eq!(catalog_share(3), 33);
    let tagged = tag_entries(vec![entry(1, MediaType::Movie), entry(2, MediaType::Series)], 3);
    assert_eq!(tagged.iter().map(|e| (e.id, e.provider)).collect::<Vec<_>>(), vec![(1, 3), (2, 3)]);
}

#[test]
fn player_titles() {
    let show = entry(1, MediaType::Series);
    assert_eq!(playing_title(&show, 1, 2, Some(&ep(2, "Pilot", None))), "Lost S01E02 - Pilot");
    assert_eq!(playing_title(&show, 3, 14, None), "Lost S03E14");
    assert_eq!(resume_title(&record(show.clone(), Some(2), Some(ep(5, "", None)))), "Lost S02E05");
    assert_eq!(resume_title(&record(show, None, None)), "Lost (2004)");
}

#[test]
fn progress_reports_update_the_resume_list() {
    let show = entry(1, MediaType::Series);
    let film = entry(2, MediaType::Movie);
    let items = vec![record(show.clone(), Some(1), Some(ep(3, "", None))), record(film.clone(), None, None)];
    assert_eq!(progress_step(false, true, &items, &show, Some(1), Some(3)), ProgressStep::Ignore);
    assert_eq!(progress_step(true, true, &items, &show, Some(1), Some(3)), ProgressStep::Save);
    assert_eq!(
        progress_step(true, false, &items, &show, Some(1), Some(3)),
        ProgressStep::Advance { episode: 3, season: 1 }
    );
    assert_eq!(progress_step(true, false, &items, &show, Some(1), Some(4)), ProgressStep::Ignore);
    assert_eq!(progress_step(true, false, &items, &film, None, None), ProgressStep::Forget);
    assert_eq!(progress_step(true, false, &vec![], &film, None, None), ProgressStep::Ignore);
}

#[test]
fn finished_titles_move_on() {
    assert_eq!(ended_from(&entry(1, MediaType::Series), Some(2), Some(7)), Some((7, 2)));
    assert_eq!(ended_from(&entry(1, MediaType::Movie), Some(2), Some(7)), None);
    assert_eq!(ended_from(&entry(1, MediaType::Series), None, Some(7)), None);
    let seasons = vec![
        Season { id: 1, number: 1, name: None },
        Season { id: 4, number: 4, name: None },
        Season { id: 3, number: 3, name: None },
    ];
    assert_eq!(next_season_number(&seasons, 1), Some(3));
    assert_eq!(next_season_number(&seasons, 4), None);
    let eps = vec![ep(3, "c", None), ep(1, "a", Some(42)), ep(1, "b", None)];
    assert_eq!(first_episode(&eps), Some(1));
    assert_eq!(first_episode(&vec![]), None);
    let it = season_start_item(entry(1, MediaType::Series), 3, &eps[1]);
    assert_eq!(it.season, Some(3));
    assert_eq!(f64::from_bits(it.current_time), 0.0);
    assert_eq!(f64::from_bits(it.duration), 42.0);
    assert_eq!(it.episode.unwrap().name, "a");
}

#[test]
fn back_returns_to_the_screen_that_was_open() {
    let mut nav = Navigation::new();
    assert_eq!(nav.screen, Screen::Home);
    nav.open(Screen::Search);
    nav.open(Screen::Details);
    assert_eq!(nav.history, vec![Screen::Home, Screen::Search]);
    nav.back();
    assert_eq!(nav.screen, Screen::Search);
    nav.back();
    assert_eq!(nav.screen, Screen::Home);
    assert!(nav.history.is_empty());
    nav.back();
    assert_eq!(nav.screen, Screen::Home);
}

#[test]
fn navigation_link_to_the_open_screen_does_nothing() {
    let mut nav = Navigation::new();
    nav.switch_to(Screen::Home);
    assert!(nav.history.is_empty());
    nav.switch_to(Screen::Downloads);
    assert_eq!(nav.screen, Screen::Downloads);
    assert_eq!(nav.history, vec![Screen::Home]);
}

#[test]
fn next_episode_is_the_smallest_later_number() {
    let eps = vec![ep(5, "e", None), ep(2, "b", None), ep(4, "d", None), ep(3, "c", None), ep(3, "c2", None)];
    assert_eq!(next_episode(&eps, 2), Some(3));
    assert_eq!(next_episode(&eps, 3), Some(2));
    assert_eq!(next_episode(&eps, 5), None);
    assert!(has_next_episode(&eps, Some(4)));
    assert!(!has_next_episode(&eps, Some(5)));
    assert!(!has_next_episode(&eps, None));
}

#[test]
fn pending_requests_count_down_to_the_last() {
    assert_eq!(finish_one(3), (2, false));
    assert_eq!(finish_one(1), (0, true));
    assert_eq!(finish_one(0), (0, true));
}

#[test]
fn progress_reports_replace_the_matching_download() {
    let mut downloads = vec![DownloadProgress::new(1, "a".into()), DownloadProgress::new(2, "b".into())];
    let mut p = DownloadProgress::new(2, "b".into());
    p.status = DownloadStatus::Completed;
    record_progress(&mut downloads, p);
    assert!(matches!(downloads[1].status, DownloadStatus::Completed));
    assert!(matches!(downloads[0].status, DownloadStatus::Queued));
    record_progress(&mut downloads, DownloadProgress::new(9, "x".into()));
    assert_eq!(downloads.len(), 2);
}
