use streamvault::config::AppConfig;
use streamvault::gui::app::{Action, App, Message, Screen};
use streamvault::text::parse_u32_exec;
use streamvault::playback::player::{
    ipc_payload, PlaybackCommand, PlaybackEngine, PlaybackState, PlaybackStep,
};
use streamvault::providers::{Episode, MediaEntry, MediaType, Season, StreamUrl};
use streamvault::util::{DownloadProgress, DownloadStatus};

fn entry(id: u64, name: &str, media_type: MediaType) -> MediaEntry {
    MediaEntry {
        id,
        name: name.into(),
        slug: String::new(),
        provider: 0,
        language: String::new(),
        media_type,
        alternative_names: Vec::new(),
        year: Some("2008".into()),
        score: None,
        image_url: None,
        description: None,
    }
}

fn episode(id: u64, number: u32, name: &str) -> Episode {
    Episode {
        id,
        number,
        name: name.into(),
        duration: None,
        image_url: None,
    }
}

#[test]
fn starts_home_and_checks_provider() {
    let (app, act) = App::new(AppConfig::default());
    assert_eq!(app.screen, Screen::Home);
    assert!(matches!(act, Action::CheckProvider));
    assert!(app.downloads.is_empty());
}

#[test]
fn blank_search_is_ignored_and_searches_do_not_overlap() {
    let (mut app, _) = App::new(AppConfig::default());
    app.update(Message::SearchInputChanged("   ".into()));
    assert!(matches!(app.update(Message::SearchSubmit), Action::Idle));
    app.update(Message::SearchInputChanged("lost".into()));
    match app.update(Message::SearchSubmit) {
        Action::Search(q) => assert_eq!(q, "lost"),
        _ => panic!("expected a search"),
    }
    assert!(app.is_searching);
    assert!(matches!(app.update(Message::SearchSubmit), Action::Idle));
    app.update(Message::SearchCompleted(Ok(vec![entry(1, "Lost", MediaType::Series)])));
    assert!(!app.is_searching);
    assert_eq!(app.search_results.len(), 1);
    app.update(Message::SearchCompleted(Err("x".into())));
    assert!(app.search_results.is_empty());
}

#[test]
fn selecting_a_show_loads_seasons_then_first_season_episodes() {
    let (mut app, _) = App::new(AppConfig::default());
    app.update(Message::SearchCompleted(Ok(vec![
        entry(1, "Up", MediaType::Movie),
        entry(2, "Lost", MediaType::Series),
    ])));
    match app.update(Message::SelectEntry(1)) {
        Action::LoadSeasons(e) => assert_eq!(e.id, 2),
        _ => panic!("expected seasons to load"),
    }
    assert_eq!(app.screen, Screen::Details);
    assert!(app.is_loading_details);
    let seasons = vec![
        Season { id: 9, number: 3, name: None },
        Season { id: 8, number: 1, name: None },
    ];
    match app.update(Message::SeasonsLoaded(Ok(seasons))) {
        Action::LoadEpisodes(e, n) => {
            assert_eq!(e.id, 2);
            assert_eq!(n, 3);
        }
        _ => panic!("expected episodes to load"),
    }
    assert_eq!(app.selected_season, Some(3));
    app.update(Message::EpisodesLoaded(Ok(vec![episode(5, 1, "Pilot")])));
    assert!(!app.is_loading_details);
    assert_eq!(app.episodes.len(), 1);
}

#[test]
fn selecting_a_film_loads_nothing() {
    let (mut app, _) = App::new(AppConfig::default());
    app.update(Message::SearchCompleted(Ok(vec![entry(1, "Up", MediaType::Movie)])));
    assert!(matches!(app.update(Message::SelectEntry(0)), Action::Idle));
    assert!(!app.is_loading_details);
    assert!(matches!(app.update(Message::SelectEntry(5)), Action::Idle));
}

#[test]
fn downloads_are_named_and_tracked() {
    let (mut app, _) = App::new(AppConfig::default());
    app.update(Message::SearchCompleted(Ok(vec![entry(2, "Lost", MediaType::Series)])));
    app.update(Message::SelectEntry(0));
    app.update(Message::EpisodesLoaded(Ok(vec![episode(5, 4, "Walkabout")])));
    match app.update(Message::DownloadEpisode(1, 4)) {
        Action::ResolveDownload { filename, is_movie, episode, season, .. } => {
            assert_eq!(filename, "Walkabout S01E04");
            assert!(!is_movie);
            assert_eq!(episode.unwrap().id, 5);
            assert_eq!(season, Some(1));
        }
        _ => panic!("expected a download to resolve"),
    }
    match app.update(Message::DownloadMovie) {
        Action::ResolveDownload { filename, is_movie, .. } => {
            assert_eq!(filename, "Lost (2008)");
            assert!(is_movie);
        }
        _ => panic!("expected a download to resolve"),
    }
    let stream = StreamUrl {
        url: "https://x/m.m3u8".into(),
        headers: vec![("Referer".into(), "r".into())],
    };
    let id = match app.update(Message::DownloadStreamResolved(Ok((
        stream,
        "Walkabout S01E04".into(),
        false,
    )))) {
        Action::Download(req) => {
            assert_eq!(req.filename, "Walkabout S01E04");
            assert!(req.output_dir.ends_with("Serie/Walkabout S01E04"));
            assert_eq!(req.headers.len(), 1);
            assert_eq!((req.id >> 76) & 0xF, 4);
            req.id
        }
        _ => panic!("expected a download"),
    };
    assert_eq!(app.downloads.len(), 1);
    assert!(matches!(app.downloads[0].status, DownloadStatus::Queued));
    let mut done = DownloadProgress::new(id, "Walkabout S01E04".into());
    done.status = DownloadStatus::Completed;
    app.update(Message::DownloadProgressUpdate(done));
    assert!(matches!(app.downloads[0].status, DownloadStatus::Completed));
    app.update(Message::DownloadProgressUpdate(DownloadProgress::new(id ^ 1, "other".into())));
    assert_eq!(app.downloads.len(), 1);
}

#[test]
fn settings_messages_edit_the_config() {
    let (mut app, _) = App::new(AppConfig::default());
    app.update(Message::SettingsUpdateThreadCount("16".into()));
    assert_eq!(app.config.download.thread_count, 16);
    app.update(Message::SettingsUpdateThreadCount("lots".into()));
    assert_eq!(app.config.download.thread_count, 16);
    app.update(Message::SettingsUpdateTimeout("+45".into()));
    assert_eq!(app.config.requests.timeout, 45);
    app.update(Message::SettingsToggleGpu(false));
    assert!(app.config.process.use_gpu);
    app.update(Message::SettingsUpdateRootPath("Media".into()));
    assert_eq!(app.config.output.root_path, "Media");
    assert!(matches!(app.update(Message::SettingsSave), Action::SaveConfig));
}

#[test]
fn u32_parsing_matches_std() {
    for s in ["0", "42", "+7", "4294967295", "4294967296", "-1", "", "+", "1 2", "007"] {
        assert_eq!(parse_u32_exec(s), s.parse::<u32>().ok(), "input {s:?}");
    }
}

#[test]
fn playback_commands_and_state() {
    let mut p = PlaybackEngine::new("/tmp");
    assert_eq!(p.ipc_socket, "/tmp/streamvault-mpv.sock");
    assert!(!p.is_playing() && p.current_url().is_none());
    match p.plan(&PlaybackCommand::Play("u".into())) {
        PlaybackStep::Start(u) => assert_eq!(u, "u"),
        _ => panic!("expected a start"),
    }
    p.started("u".into());
    assert!(p.is_playing());
    match p.plan(&PlaybackCommand::Pause) {
        PlaybackStep::Send(line) => {
            assert_eq!(line, "{ \"command\": [\"set_property\", \"pause\", true] }\n")
        }
        _ => panic!("expected a command"),
    }
    p.ipc_sent(&PlaybackCommand::Pause);
    assert!(p.is_paused());
    assert_eq!(p.current_url(), Some("u"));
    p.ipc_sent(&PlaybackCommand::Resume);
    assert!(matches!(p.state(), PlaybackState::Playing(u) if u == "u"));
    assert!(matches!(p.plan(&PlaybackCommand::Stop), PlaybackStep::Stop));
    p.stopped();
    assert!(matches!(p.state(), PlaybackState::Stopped));
    assert_eq!(ipc_payload("\"seek\", 10"), "{ \"command\": [\"seek\", 10] }\n");
    let args = p.player_args("u");
    assert_eq!(args[1], "--input-ipc-server=/tmp/streamvault-mpv.sock");
}
