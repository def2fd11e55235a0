use streamvault::config::settings::AppConfig;

#[test]
fn settings_default_config_has_expected_values() {
    let config = AppConfig::default();
    assert_eq!(config.output.root_path, "Video");
    assert_eq!(config.output.movie_folder_name, "Movie");
    assert_eq!(config.output.serie_folder_name, "Serie");
    assert_eq!(config.download.thread_count, 8);
    assert_eq!(config.download.retry_count, 30);
    assert!(config.download.concurrent_download);
    assert_eq!(config.process.extension, "mkv");
    assert!(!config.process.use_gpu);
    assert!(config.process.merge_audio);
    assert_eq!(config.requests.timeout, 30);
    assert!(!config.requests.use_proxy);
}

#[test]
fn config_dir_is_inside_streamvault() {
    let dir = AppConfig::config_dir();
    assert!(dir.ends_with("StreamVault"));
}

#[test]
fn settings_config_path_ends_with_json() {
    let path = AppConfig::config_path();
    assert!(path.ends_with("config.json"));
}

#[test]
fn settings_download_dir_uses_root_path() {
    let config = AppConfig::default();
    let dir = config.download_dir();
    assert!(dir.ends_with("Video"));
}

#[test]
fn settings_movie_dir_appends_movie_folder() {
    let config = AppConfig::default();
    let dir = config.movie_dir();
    assert!(dir.ends_with("Video/Movie"));
}

#[test]
fn settings_serie_dir_appends_serie_folder() {
    let config = AppConfig::default();
    let dir = config.serie_dir();
    assert!(dir.ends_with("Video/Serie"));
}
