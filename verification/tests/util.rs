use streamvault::config::AppConfig;
use streamvault::util::{
    after_downloader_exit, binary_candidates, downloader_failure, largest_first, mux_failure, next_status,
    sanitize_filename, signals_muxing, AfterExit, DownloadEngine, DownloadEvent, DownloadProgress, DownloadRequest,
    DownloadStatus,
};

#[test]
fn sanitize_replaces_illegal_chars() {
    assert_eq!(sanitize_filename("hello/world"), "hello_world");
    assert_eq!(sanitize_filename("a:b*c?d"), "a_b_c_d");
    assert_eq!(sanitize_filename("clean"), "clean");
}

#[test]
fn sanitize_preserves_unicode() {
    assert_eq!(sanitize_filename("café"), "café");
    assert_eq!(sanitize_filename("日本語"), "日本語");
}

#[test]
fn format_episode_name_replaces_placeholders() {
    let engine = DownloadEngine::new(AppConfig::default());
    assert_eq!(
        engine.format_episode_name("Breaking Bad", 2, 5, "Mandala"),
        "Mandala S02E05"
    );
}

#[test]
fn format_episode_name_with_show_name() {
    let mut cfg = AppConfig::default();
    cfg.output.map_episode_name = "%(show_name) - %(episode_name) S%(season)E%(episode)".into();
    let engine = DownloadEngine::new(cfg);
    assert_eq!(
        engine.format_episode_name("Lost", 1, 3, "Tabula Rasa"),
        "Lost - Tabula Rasa S01E03"
    );
}

#[test]
fn build_output_path_movie() {
    let path = DownloadEngine::new(AppConfig::default()).build_output_path("Inception", true);
    assert!(path.ends_with("Movie/Inception"));
}

#[test]
fn build_output_path_series() {
    let path = DownloadEngine::new(AppConfig::default()).build_output_path("Breaking Bad", false);
    assert!(path.ends_with("Serie/Breaking Bad"));
}

#[test]
fn build_series_episode_path_includes_season() {
    let path =
        DownloadEngine::new(AppConfig::default()).build_series_episode_path("Breaking Bad", 2);
    assert!(path.ends_with("Serie/Breaking Bad/S02"));
}

#[test]
fn new_progress_starts_queued() {
    let p = DownloadProgress::new(0, "test".into());
    assert!(matches!(p.status, DownloadStatus::Queued));
}

#[test]
fn output_paths_under_given_home() {
    let engine = DownloadEngine::new(AppConfig::default());
    let home = Some("/home/u".to_string());
    assert_eq!(
        engine.build_output_path_in(&home, "A/B: C", true),
        "/home/u/Movies/Movie/A_B_ C"
    );
    assert_eq!(
        engine.build_series_episode_path_in(&home, "Show", 12),
        "/home/u/Movies/Serie/Show/S12"
    );
    assert_eq!(engine.mux_output_file("/d", "name"), "/d/name.mp4");
}

#[test]
fn downloader_command_line() {
    let mut cfg = AppConfig::default();
    cfg.download.max_speed = "5M".into();
    cfg.process.merge_audio = false;
    let engine = DownloadEngine::new(cfg);
    let req = DownloadRequest {
        id: 7,
        title: "T".into(),
        stream_url: "https://x/m.m3u8".into(),
        output_dir: "/out".into(),
        filename: "a?b".into(),
        headers: vec![("User-Agent".into(), "UA".into())],
    };
    let args = engine.downloader_args(&req, "/bin/ffmpeg");
    let expected: Vec<&str> = vec![
        "https://x/m.m3u8",
        "--save-name",
        "a_b",
        "--save-dir",
        "/out",
        "--tmp-dir",
        "/out",
        "--ffmpeg-binary-path",
        "/bin/ffmpeg",
        "--no-log",
        "--write-meta-json",
        "false",
        "--binary-merge",
        "--del-after-done",
        "--auto-subtitle-fix",
        "false",
        "--check-segments-count",
        "true",
        "--force-ansi-console",
        "--no-ansi-color",
        "--concurrent-download",
        "--thread-count",
        "8",
        "--download-retry-count",
        "30",
        "--max-speed",
        "5M",
        "--select-video",
        "all",
        "--select-audio",
        "all",
        "--select-subtitle",
        "all",
        "--drop-audio",
        "all",
        "--header",
        "User-Agent: UA",
    ];
    assert_eq!(args, expected);
}

#[test]
fn muxer_command_line() {
    let mut cfg = AppConfig::default();
    cfg.process.extension = "mkv".into();
    let engine = DownloadEngine::new(cfg);
    let ts = vec!["a.ts".to_string(), "b.ts".to_string()];
    let vtt = vec!["s.vtt".to_string()];
    let args = engine.mux_args(&ts, &vtt, "/o/x.mkv").unwrap();
    let expected: Vec<&str> = vec![
        "-y", "-i", "a.ts", "-i", "b.ts", "-i", "s.vtt", "-map", "0:v:0", "-map", "0:a?", "-map",
        "1:a?", "-map", "2:s?", "-c:v", "copy", "-c:a", "copy", "-c:s", "srt", "/o/x.mkv",
    ];
    assert_eq!(args, expected);
    assert_eq!(
        engine.mux_args(&Vec::new(), &vtt, "/o/x.mkv").unwrap_err(),
        "No .ts files found after download"
    );
}

#[test]
fn muxer_skips_subtitles_when_not_merged() {
    let mut cfg = AppConfig::default();
    cfg.process.merge_subtitle = false;
    let engine = DownloadEngine::new(cfg);
    let ts = vec!["a.ts".to_string()];
    let vtt = vec!["s.vtt".to_string()];
    let args = engine.mux_args(&ts, &vtt, "x.mp4").unwrap();
    let expected: Vec<&str> = vec![
        "-y", "-i", "a.ts", "-map", "0:v:0", "-map", "0:a?", "-c:v", "copy", "-c:a", "copy",
        "x.mp4",
    ];
    assert_eq!(args, expected);
}

#[test]
fn mux_subtitles_use_mov_text_outside_mkv() {
    let engine = DownloadEngine::new(AppConfig::default());
    let ts = vec!["a.ts".to_string()];
    let vtt = vec!["s.vtt".to_string()];
    let args = engine.mux_args(&ts, &vtt, "x.mp4").unwrap();
    assert_eq!(args[args.len() - 2], "mov_text");
}

#[test]
fn muxing_lines() {
    assert!(signals_muxing("12:00 Muxing..."));
    assert!(signals_muxing("start muxing"));
    assert!(signals_muxing("MUX"));
    assert!(!signals_muxing("Downloading 42%"));
}

#[test]
fn downloader_failure_keeps_first_five_useful_lines() {
    let stderr = "  \nError: one\n   at Foo.bar()\n--- trace\ntwo\r\nthree\nfour\nfive\nsix\n";
    assert_eq!(
        downloader_failure("exit status: 1", stderr),
        "N_m3u8DL-RE exited: exit status: 1\nError: one\ntwo\nthree\nfour\nfive"
    );
    assert_eq!(downloader_failure("exit status: 2", ""), "N_m3u8DL-RE exited: exit status: 2");
    assert_eq!(
        downloader_failure("exit status: 2", "   at x\n\n"),
        "N_m3u8DL-RE exited: exit status: 2"
    );
}

#[test]
fn mux_failure_keeps_last_five_useful_lines() {
    let stderr = "a\nframe= 1\nb\nc\nd\ne\nf\n\n";
    assert_eq!(mux_failure("exit status: 1", stderr), "ffmpeg exited: exit status: 1\nb\nc\nd\ne\nf");
    assert_eq!(mux_failure("exit status: 1", ""), "ffmpeg exited: exit status: 1\n");
}

#[test]
fn exit_decides_mux_or_failure() {
    assert!(matches!(after_downloader_exit(true, false, "0", ""), AfterExit::Mux));
    assert!(matches!(after_downloader_exit(false, true, "1", ""), AfterExit::Mux));
    match after_downloader_exit(false, false, "exit status: 3", "boom") {
        AfterExit::Fail(m) => assert_eq!(m, "N_m3u8DL-RE exited: exit status: 3\nboom"),
        AfterExit::Mux => panic!("expected a failure"),
    }
}

#[test]
fn largest_segments_first_stable() {
    let files = vec![
        ("a".to_string(), 10u64),
        ("b".to_string(), 30),
        ("c".to_string(), 10),
        ("d".to_string(), 20),
    ];
    let order: Vec<String> = largest_first(files).into_iter().map(|(f, _)| f).collect();
    assert_eq!(order, vec!["b", "d", "a", "c"]);
}

#[test]
fn tool_locations_in_order() {
    assert_eq!(
        binary_candidates("mpv", &Some("/home/u/".to_string())),
        vec!["/opt/homebrew/bin/mpv", "/usr/local/bin/mpv", "/usr/bin/mpv", "/home/u/.local/bin/mpv"]
    );
}

#[test]
fn download_status_runs_through_muxing_to_completion() {
    let s = DownloadStatus::Queued;
    let s = next_status(&s, &DownloadEvent::Started);
    assert!(matches!(s, DownloadStatus::Downloading));
    let s = next_status(&s, &DownloadEvent::Line("Vid 1080p 12%".into()));
    assert!(matches!(s, DownloadStatus::Downloading));
    let s = next_status(&s, &DownloadEvent::Line("Muxing to out.mp4".into()));
    assert!(matches!(s, DownloadStatus::Muxing));
    let s = next_status(&s, &DownloadEvent::Exited(AfterExit::Mux));
    assert!(matches!(s, DownloadStatus::Muxing));
    let s = next_status(&s, &DownloadEvent::Muxed);
    assert!(matches!(s, DownloadStatus::Completed));
    let s = next_status(&s, &DownloadEvent::MuxFailed("late".into()));
    assert!(matches!(s, DownloadStatus::Completed));
}

#[test]
fn download_failures_carry_their_reason() {
    let d = next_status(&DownloadStatus::Queued, &DownloadEvent::Started);
    match next_status(&d, &DownloadEvent::DirFailed("denied".into())) {
        DownloadStatus::Failed(m) => assert_eq!(m, "Cannot create output dir: denied"),
        _ => panic!("expected a failure"),
    }
    match next_status(&d, &DownloadEvent::SpawnFailed("not found".into())) {
        DownloadStatus::Failed(m) => assert_eq!(m, "Failed to start N_m3u8DL-RE: not found"),
        _ => panic!("expected a failure"),
    }
    match next_status(&d, &DownloadEvent::Exited(AfterExit::Fail("N_m3u8DL-RE exited: 1".into()))) {
        DownloadStatus::Failed(m) => assert_eq!(m, "N_m3u8DL-RE exited: 1"),
        _ => panic!("expected a failure"),
    }
    let m = next_status(&d, &DownloadEvent::Exited(AfterExit::Mux));
    match next_status(&m, &DownloadEvent::MuxFailed("ffmpeg exited: 1".into())) {
        DownloadStatus::Failed(x) => assert_eq!(x, "Mux failed: ffmpeg exited: 1"),
        _ => panic!("expected a failure"),
    }
    assert!(matches!(next_status(&d, &DownloadEvent::Muxed), DownloadStatus::Downloading));
}
