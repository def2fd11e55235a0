//! The earlier settings layout: the same sections, with downloads under
//! `Video` and muxed into `mkv` unless the user sets otherwise.
use crate::config::{
    config_dir_text, download_dir_text, join_on_found, media_dir_text, opt_path, platform_home_dir,
    DownloadConfig, RequestsConfig,
};
use crate::text::{join_path, path_join};
use vstd::prelude::*;

verus! {

/// Where downloads go and how episodes are named.
#[derive(Debug, Clone)]
pub struct OutputConfig {
    pub root_path: String,
    pub movie_folder_name: String,
    pub serie_folder_name: String,
    pub map_episode_name: String,
}

/// What happens to the downloaded tracks.
#[derive(Debug, Clone)]
pub struct ProcessConfig {
    pub use_gpu: bool,
    pub merge_audio: bool,
    pub merge_subtitle: bool,
    pub extension: String,
}

/// All settings.
#[derive(Debug, Clone)]
pub struct AppConfig {
    pub output: OutputConfig,
    pub download: DownloadConfig,
    pub process: ProcessConfig,
    pub requests: RequestsConfig,
}

/// The settings used when none are stored: downloads under `Video`, into
/// `Movie` and `Serie`, muxed into `mkv`.
pub open spec fn is_default_config(c: AppConfig) -> bool {
    &&& c.output.root_path@ == "Video"@
    &&& c.output.movie_folder_name@ == "Movie"@
    &&& c.output.serie_folder_name@ == "Serie"@
    &&& c.output.map_episode_name@ == crate::config::default_episode_pattern()
    &&& crate::config::is_default_download(c.download)
    &&& !c.process.use_gpu
    &&& c.process.merge_audio
    &&& c.process.merge_subtitle
    &&& c.process.extension@ == "mkv"@
    &&& crate::config::is_default_requests(c.requests)
}

impl Default for OutputConfig {
    fn default() -> (r: Self)
        ensures
            r.root_path@ == "Video"@,
            r.movie_folder_name@ == "Movie"@,
            r.serie_folder_name@ == "Serie"@,
            r.map_episode_name@ == crate::config::default_episode_pattern(),
    {
        OutputConfig {
            root_path: "Video".to_owned(),
            movie_folder_name: "Movie".to_owned(),
            serie_folder_name: "Serie".to_owned(),
            map_episode_name: "%(episode_name) S%(season)E%(episode)".to_owned(),
        }
    }
}

impl Default for ProcessConfig {
    fn default() -> (r: Self)
        ensures
            !r.use_gpu,
            r.merge_audio,
            r.merge_subtitle,
            r.extension@ == "mkv"@,
    {
        ProcessConfig {
            use_gpu: false,
            merge_audio: true,
            merge_subtitle: true,
            extension: "mkv".to_owned(),
        }
    }
}

impl Default for AppConfig {
    fn default() -> (r: Self)
        ensures
            is_default_config(r),
    {
        AppConfig {
            output: OutputConfig::default(),
            download: DownloadConfig::default(),
            process: ProcessConfig::default(),
            requests: RequestsConfig::default(),
        }
    }
}

/// What the stored settings file held when the application started.
#[derive(Debug, Clone)]
pub enum StoredConfig {
    /// There is no settings file.
    Missing,
    /// The file exists but could not be read or parsed.
    Unreadable,
    /// The settings the file holds.
    Found(AppConfig),
}

impl AppConfig {
    /// The application's configuration directory.
    pub fn config_dir() -> (r: String)
        ensures
            exists|found: Option<Seq<char>>| r@ == config_dir_text(found),
    {
        crate::config::AppConfig::config_dir()
    }

    /// The settings file.
    pub fn config_path() -> (r: String)
        ensures
            exists|found: Option<Seq<char>>|
                r@ == path_join(#[trigger] config_dir_text(found), "config.json"@),
    {
        crate::config::AppConfig::config_path()
    }

    /// The settings to run with, given what the settings file held, and
    /// whether they must be written back: the stored settings when there
    /// are some, else the defaults, written only when there was no file.
    pub fn load(stored: StoredConfig) -> (r: (AppConfig, bool))
        ensures
            match stored {
                StoredConfig::Found(c) => r.0 == c && !r.1,
                StoredConfig::Unreadable => is_default_config(r.0) && !r.1,
                StoredConfig::Missing => is_default_config(r.0) && r.1,
            },
    {
        match stored {
            StoredConfig::Found(c) => (c, false),
            StoredConfig::Unreadable => (AppConfig::default(), false),
            StoredConfig::Missing => (AppConfig::default(), true),
        }
    }

    /// The download root under the given home directory.
    pub fn download_dir_in(&self, home: &Option<String>) -> (r: String)
        ensures
            r@ == download_dir_text(opt_path(*home), self.output.root_path@),
    {
        join_on_found(home, self.output.root_path.as_str())
    }

    /// The download root.
    pub fn download_dir(&self) -> (r: String)
        ensures
            exists|home: Option<Seq<char>>|
                r@ == download_dir_text(home, self.output.root_path@),
    {
        let home = platform_home_dir();
        let r = self.download_dir_in(&home);
        assert(r@ == download_dir_text(opt_path(home), self.output.root_path@));
        r
    }

    /// The directory films are downloaded into.
    pub fn movie_dir(&self) -> (r: String)
        ensures
            exists|home: Option<Seq<char>>|
                r@ == media_dir_text(home, self.output.root_path@, self.output.movie_folder_name@),
    {
        let home = platform_home_dir();
        let d = self.download_dir_in(&home);
        let r = join_path(d.as_str(), self.output.movie_folder_name.as_str());
        assert(r@ == media_dir_text(
            opt_path(home),
            self.output.root_path@,
            self.output.movie_folder_name@,
        ));
        r
    }

    /// The directory shows are downloaded into.
    pub fn serie_dir(&self) -> (r: String)
        ensures
            exists|home: Option<Seq<char>>|
                r@ == media_dir_text(home, self.output.root_path@, self.output.serie_folder_name@),
    {
        let home = platform_home_dir();
        let d = self.download_dir_in(&home);
        let r = join_path(d.as_str(), self.output.serie_folder_name.as_str());
        assert(r@ == media_dir_text(
            opt_path(home),
            self.output.root_path@,
            self.output.serie_folder_name@,
        ));
        r
    }
}

} // verus!
