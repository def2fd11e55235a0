use streamvault::config::AppConfig;
use streamvault::download::engine::ExitOutcome;
use streamvault::download::{DownloadEngine, DownloadProgress, DownloadRequest, DownloadStatus};

fn request() -> DownloadRequest {
    DownloadRequest {
        id: 9,
        title: "T".into(),
        stream_url: "https://x/m.m3u8".into(),
        output_dir: "/out".into(),
        filename: "name".into(),
        headers: vec![("Referer".into(), "https://r/".into()), ("User-Agent".into(), "UA".into())],
    }
}

#[test]
fn progress_starts_empty() {
    let p = DownloadProgress::new(3, "Film".into());
    assert_eq!(p.id, 3);
    assert!(matches!(p.status, DownloadStatus::Queued));
    assert_eq!(p.percent, "0");
    assert_eq!((p.speed.as_str(), p.downloaded.as_str(), p.total.as_str()), ("", "", ""));
}

#[test]
fn downloader_lines_update_progress() {
    let mut p = DownloadProgress::new(1, "x".into());
    p.parse_n_m3u8dl_line("Vid 1080p | 45.3% 120.5MB/1.2GB 5.1MBps 00:01:23");
    assert_eq!(p.percent, "45.3");
    assert_eq!(p.speed, "5.1MBps");
    assert_eq!(p.downloaded, "120.5MB");
    assert_eq!(p.total, "1.2GB");
    p.parse_n_m3u8dl_line("nothing to see");
    assert_eq!(p.percent, "45.3");
    assert_eq!(p.total, "1.2GB");
    p.take_output_line("Vid 1080p | 50% 600MB/1.2GB");
    assert_eq!(p.percent, "50");
    assert_eq!(p.speed, "5.1MBps");
    assert_eq!(p.downloaded, "600MB");
    assert!(matches!(p.status, DownloadStatus::Downloading));
}

#[test]
fn end_of_download_is_recorded() {
    let mut p = DownloadProgress::new(1, "x".into());
    p.finish(ExitOutcome::Success);
    assert!(matches!(p.status, DownloadStatus::Completed));
    assert_eq!(p.percent, "100");
    let mut q = DownloadProgress::new(1, "x".into());
    q.finish(ExitOutcome::Failure("exit status: 1".into()));
    match &q.status {
        DownloadStatus::Failed(m) => assert_eq!(m, "N_m3u8DL-RE exited with code: exit status: 1"),
        other => panic!("unexpected {other:?}"),
    }
    q.finish(ExitOutcome::Error("broken pipe".into()));
    match &q.status {
        DownloadStatus::Failed(m) => assert_eq!(m, "Process error: broken pipe"),
        other => panic!("unexpected {other:?}"),
    }
    q.start_failed("not found");
    match &q.status {
        DownloadStatus::Failed(m) => assert_eq!(m, "Failed to start N_m3u8DL-RE: not found"),
        other => panic!("unexpected {other:?}"),
    }
}

#[test]
fn tool_candidates() {
    let c = DownloadEngine::binary_candidates("ffmpeg", &Some("/home/u".into()));
    assert_eq!(
        c,
        vec!["/usr/local/bin/ffmpeg", "/opt/homebrew/bin/ffmpeg", "/usr/bin/ffmpeg", "/home/u/.local/bin/ffmpeg"]
    );
    let c = DownloadEngine::binary_candidates("mpv", &None);
    assert_eq!(c[3], ".local/bin/mpv");
}

#[test]
fn downloader_arguments() {
    let mut cfg = AppConfig::default();
    cfg.download.concurrent_download = false;
    cfg.download.select_video = "best".into();
    let engine = DownloadEngine::new(cfg);
    let args = engine.downloader_args(&request(), "/bin/ffmpeg");
    let expected: Vec<&str> = vec![
        "https://x/m.m3u8",
        "--save-name",
        "name",
        "--save-dir",
        "/out",
        "--tmp-dir",
        "/out/tmp",
        "--ffmpeg-binary-path",
        "/bin/ffmpeg",
        "--no-log",
        "--binary-merge",
        "--del-after-done",
        "--auto-subtitle-fix",
        "false",
        "--check-segments-count",
        "false",
        "--thread-count",
        "8",
        "--download-retry-count",
        "30",
        "--select-audio",
        "all",
        "--select-subtitle",
        "all",
        "--header",
        "Referer: https://r/",
        "--header",
        "User-Agent: UA",
    ];
    assert_eq!(args, expected);
    let mut cfg = AppConfig::default();
    cfg.download.max_speed = "2M".into();
    let args = DownloadEngine::new(cfg).downloader_args(&request(), "ff");
    assert_eq!(&args[15..20], &["true", "--concurrent-download", "--thread-count", "8", "--download-retry-count"]);
    assert!(args.windows(2).any(|w| w[0] == "--max-speed" && w[1] == "2M"));
    assert!(args.windows(2).any(|w| w[0] == "--select-video" && w[1] == "all"));
}

#[test]
fn download_paths_and_names() {
    let engine = DownloadEngine::new(AppConfig::default());
    assert_eq!(
        engine.build_output_path_in(&Some("/h".into()), "A: B", false),
        "/h/Movies/Serie/A_ B"
    );
    assert_eq!(engine.format_episode_name("Show", 1, 2, "Pilot"), "Pilot S01E02");
}
