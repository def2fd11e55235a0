//! The desktop application's state and how each message changes it. The
//! work a message starts (a provider request, playback, a download, saving
//! the settings) is returned as an action for the event loop to perform; its
//! outcome comes back as another message.
use crate::config::{platform_home_dir, AppConfig, DownloadConfig, OutputConfig, ProcessConfig, RequestsConfig};
use crate::providers::models::{same_entry, same_episode};
use crate::providers::{Episode, MediaEntry, MediaType, Season, StreamUrl};
use crate::text::{chars_of, parse_u32, parse_u32_exec, parse_u64, parse_u64_exec, trim_chars, trimmed};
use crate::util::{
    episode_file_name, output_path_text, DownloadEngine, DownloadProgress, DownloadRequest,
};
use vstd::prelude::*;

verus! {

/// The screen shown.
#[derive(Debug, Clone, Copy, PartialEq, Eq, Structural)]
pub enum Screen {
    Home,
    Search,
    Details,
    Downloads,
    Settings,
}

/// What happened: a user action, or the outcome of earlier work.
#[derive(Debug)]
pub enum Message {
    NavigateHome,
    NavigateSearch,
    NavigateDownloads,
    NavigateSettings,
    SearchInputChanged(String),
    SearchSubmit,
    SearchCompleted(Result<Vec<MediaEntry>, String>),
    SelectEntry(usize),
    SeasonsLoaded(Result<Vec<Season>, String>),
    SelectSeason(u32),
    EpisodesLoaded(Result<Vec<Episode>, String>),
    PlayEntry(usize),
    PlayMovie,
    PlayEpisode(u32, u32),
    StreamUrlResolved(Result<StreamUrl, String>),
    DownloadMovie,
    DownloadEpisode(u32, u32),
    DownloadStreamResolved(Result<(StreamUrl, String, bool), String>),
    DownloadProgressUpdate(DownloadProgress),
    ProviderStatusChecked(bool),
    SettingsUpdateRootPath(String),
    SettingsUpdateMovieFolder(String),
    SettingsUpdateSerieFolder(String),
    SettingsUpdateEpisodeFormat(String),
    SettingsUpdateThreadCount(String),
    SettingsUpdateRetryCount(String),
    SettingsUpdateSelectVideo(String),
    SettingsUpdateSelectAudio(String),
    SettingsUpdateSelectSubtitle(String),
    SettingsUpdateMaxSpeed(String),
    SettingsUpdateExtension(String),
    SettingsUpdateTimeout(String),
    SettingsUpdateProxyUrl(String),
    SettingsToggleConcurrent(bool),
    SettingsToggleMergeAudio(bool),
    SettingsToggleMergeSubtitle(bool),
    SettingsToggleGpu(bool),
    SettingsToggleProxy(bool),
    SettingsSave,
}

/// Work for the event loop.
#[derive(Debug, Clone)]
pub enum Action {
    /// Nothing to do.
    Idle,
    /// Ask the provider whether it is reachable; answer with
    /// `ProviderStatusChecked`.
    CheckProvider,
    /// Search the provider; answer with `SearchCompleted`.
    Search(String),
    /// Load the seasons of a show; answer with `SeasonsLoaded`.
    LoadSeasons(MediaEntry),
    /// Load the episodes of a season; answer with `EpisodesLoaded`.
    LoadEpisodes(MediaEntry, u32),
    /// Resolve the stream of a title (or of one of its episodes); answer
    /// with `StreamUrlResolved`.
    ResolveStream(MediaEntry, Option<Episode>, Option<u32>),
    /// Resolve the stream to download, to be saved under `filename`;
    /// answer with `DownloadStreamResolved` carrying the stream, the file
    /// name and `is_movie`.
    ResolveDownload {
        entry: MediaEntry,
        episode: Option<Episode>,
        season: Option<u32>,
        filename: String,
        is_movie: bool,
    },
    /// Play a stream; then show the home screen.
    Play(String),
    /// Run a download, reporting with `DownloadProgressUpdate`; then show
    /// the downloads.
    Download(DownloadRequest),
    /// Write the settings to disk.
    SaveConfig,
}

/// The application's state.
pub struct App {
    pub screen: Screen,
    pub config: AppConfig,
    pub provider_online: bool,
    pub search_query: String,
    pub search_results: Vec<MediaEntry>,
    pub is_searching: bool,
    pub selected_entry: Option<MediaEntry>,
    pub seasons: Vec<Season>,
    pub episodes: Vec<Episode>,
    pub selected_season: Option<u32>,
    pub is_loading_details: bool,
    pub downloads: Vec<DownloadProgress>,
}

/// A fresh random download id: the `uuid` crate's version-4 UUID as a
/// number, so its version nibble is 4 and its variant bits are `10`.
#[verifier::external_body]
fn new_download_id() -> (r: u128)
    ensures
        (r >> 76u128) & 0xF == 4,
        (r >> 62u128) & 0x3 == 2,
{
    uuid::Uuid::new_v4().as_u128()
}

/// The first episode with the number, if any.
pub open spec fn episode_numbered(eps: Seq<Episode>, n: u32) -> Option<int>
    decreases eps.len(),
{
    if eps.len() == 0 {
        None
    } else {
        match episode_numbered(eps.drop_last(), n) {
            Some(i) => Some(i),
            None => if eps.last().number == n {
                Some(eps.len() - 1)
            } else {
                None
            },
        }
    }
}

/// `e` is a copy of the first episode numbered `n`, or `None` when there
/// is none.
pub open spec fn copies_episode(e: Option<Episode>, eps: Seq<Episode>, n: u32) -> bool {
    match episode_numbered(eps, n) {
        Some(i) => e matches Some(x) && same_episode(x, eps[i]),
        None => e is None,
    }
}

/// `e` holds a copy of the entry.
pub open spec fn copies_entry(e: MediaEntry, src: MediaEntry) -> bool {
    same_entry(e, src)
}

/// The settings after a settings message; `None` for other messages.
pub open spec fn settings_after(c: AppConfig, m: Message) -> Option<AppConfig> {
    match m {
        Message::SettingsUpdateRootPath(v) => Some(
            AppConfig { output: OutputConfig { root_path: v, ..c.output }, ..c },
        ),
        Message::SettingsUpdateMovieFolder(v) => Some(
            AppConfig { output: OutputConfig { movie_folder_name: v, ..c.output }, ..c },
        ),
        Message::SettingsUpdateSerieFolder(v) => Some(
            AppConfig { output: OutputConfig { serie_folder_name: v, ..c.output }, ..c },
        ),
        Message::SettingsUpdateEpisodeFormat(v) => Some(
            AppConfig { output: OutputConfig { map_episode_name: v, ..c.output }, ..c },
        ),
        Message::SettingsUpdateThreadCount(v) => Some(
            match parse_u32(v@) {
                Some(n) => AppConfig {
                    download: DownloadConfig { thread_count: n, ..c.download },
                    ..c
                },
                None => c,
            },
        ),
        Message::SettingsUpdateRetryCount(v) => Some(
            match parse_u32(v@) {
                Some(n) => AppConfig { download: DownloadConfig { retry_count: n, ..c.download }, ..c },
                None => c,
            },
        ),
        Message::SettingsUpdateSelectVideo(v) => Some(
            AppConfig { download: DownloadConfig { select_video: v, ..c.download }, ..c },
        ),
        Message::SettingsUpdateSelectAudio(v) => Some(
            AppConfig { download: DownloadConfig { select_audio: v, ..c.download }, ..c },
        ),
        Message::SettingsUpdateSelectSubtitle(v) => Some(
            AppConfig { download: DownloadConfig { select_subtitle: v, ..c.download }, ..c },
        ),
        Message::SettingsUpdateMaxSpeed(v) => Some(
            AppConfig { download: DownloadConfig { max_speed: v, ..c.download }, ..c },
        ),
        Message::SettingsUpdateExtension(v) => Some(
            AppConfig { process: ProcessConfig { extension: v, ..c.process }, ..c },
        ),
        Message::SettingsUpdateTimeout(v) => Some(
            match parse_u64(v@) {
                Some(n) => AppConfig { requests: RequestsConfig { timeout: n, ..c.requests }, ..c },
                None => c,
            },
        ),
        Message::SettingsUpdateProxyUrl(v) => Some(
            AppConfig { requests: RequestsConfig { proxy_url: v, ..c.requests }, ..c },
        ),
        Message::SettingsToggleConcurrent(_) => Some(
            AppConfig {
                download: DownloadConfig {
                    concurrent_download: !c.download.concurrent_download,
                    ..c.download
                },
                ..c
            },
        ),
        Message::SettingsToggleMergeAudio(_) => Some(
            AppConfig {
                process: ProcessConfig { merge_audio: !c.process.merge_audio, ..c.process },
                ..c
            },
        ),
        Message::SettingsToggleMergeSubtitle(_) => Some(
            AppConfig {
                process: ProcessConfig { merge_subtitle: !c.process.merge_subtitle, ..c.process },
                ..c
            },
        ),
        Message::SettingsToggleGpu(_) => Some(
            AppConfig { process: ProcessConfig { use_gpu: !c.process.use_gpu, ..c.process }, ..c },
        ),
        Message::SettingsToggleProxy(_) => Some(
            AppConfig {
                requests: RequestsConfig { use_proxy: !c.requests.use_proxy, ..c.requests },
                ..c
            },
        ),
        _ => None,
    }
}

/// The state when the application starts, with the given settings.
pub open spec fn is_initial(a: App, config: AppConfig) -> bool {
    &&& a.screen == Screen::Home
    &&& a.config == config
    &&& !a.provider_online
    &&& a.search_query@.len() == 0
    &&& a.search_results@.len() == 0
    &&& !a.is_searching
    &&& a.selected_entry is None
    &&& a.seasons@.len() == 0
    &&& a.episodes@.len() == 0
    &&& a.selected_season is None
    &&& !a.is_loading_details
    &&& a.downloads@.len() == 0
}

/// The two states agree on the search fields.
pub open spec fn same_search(a: App, b: App) -> bool {
    a.search_query == b.search_query && a.search_results == b.search_results && a.is_searching
        == b.is_searching
}

/// The two states agree on the details fields.
pub open spec fn same_details(a: App, b: App) -> bool {
    &&& a.selected_entry == b.selected_entry
    &&& a.seasons == b.seasons
    &&& a.episodes == b.episodes
    &&& a.selected_season == b.selected_season
    &&& a.is_loading_details == b.is_loading_details
}

/// The two states agree on everything but the details fields.
pub open spec fn same_outside_details(a: App, b: App) -> bool {
    a.screen == b.screen && a.config == b.config && a.provider_online == b.provider_online
        && same_search(a, b) && a.downloads == b.downloads
}

/// Nothing changed.
pub open spec fn unchanged(a: App, b: App) -> bool {
    same_outside_details(a, b) && same_details(a, b)
}

/// Season `n` of the selected title was selected in `b` (from `a`): its
/// episodes are being loaded, when a title is selected.
pub open spec fn selects_season(a: App, b: App, n: u32, act: Action) -> bool {
    &&& b.selected_season == Some(n)
    &&& b.episodes@.len() == 0
    &&& b.is_loading_details
    &&& b.selected_entry == a.selected_entry
    &&& match a.selected_entry {
        Some(e) => act matches Action::LoadEpisodes(x, m) && copies_entry(x, e) && m == n,
        None => act is Idle,
    }
}

/// How a message changes the state `a` into `b`, and the work it starts.
pub open spec fn step(a: App, m: Message, b: App, act: Action) -> bool {
    match m {
        Message::NavigateHome => b == App { screen: Screen::Home, ..a } && act is Idle,
        Message::NavigateSearch => b == App { screen: Screen::Search, ..a } && act is Idle,
        Message::NavigateDownloads => b == App { screen: Screen::Downloads, ..a } && act is Idle,
        Message::NavigateSettings => b == App { screen: Screen::Settings, ..a } && act is Idle,
        Message::SearchInputChanged(q) => b == App { search_query: q, ..a } && act is Idle,
        Message::SearchSubmit => if trimmed(a.search_query@).len() == 0 || a.is_searching {
            unchanged(a, b) && act is Idle
        } else {
            b == App { is_searching: true, ..a } && (act matches Action::Search(q) && q@
                == a.search_query@)
        },
        Message::SearchCompleted(res) => {
            &&& !b.is_searching
            &&& b.search_query == a.search_query
            &&& match res {
                Ok(entries) => b.search_results == entries,
                Err(_) => b.search_results@.len() == 0,
            }
            &&& b.screen == a.screen && b.config == a.config && b.provider_online
                == a.provider_online && b.downloads == a.downloads
            &&& same_details(a, b)
            &&& act is Idle
        },
        Message::SelectEntry(i) => if i < a.search_results@.len() {
            let e = a.search_results@[i as int];
            &&& b.selected_entry matches Some(x) && copies_entry(x, e)
            &&& b.screen == Screen::Details
            &&& b.seasons@.len() == 0
            &&& b.episodes@.len() == 0
            &&& b.selected_season is None
            &&& b.is_loading_details == !(e.media_type == MediaType::Movie)
            &&& b.config == a.config && b.provider_online == a.provider_online && same_search(a, b)
                && b.downloads == a.downloads
            &&& if (e.media_type == MediaType::Movie) {
                act is Idle
            } else {
                act matches Action::LoadSeasons(x) && copies_entry(x, e)
            }
        } else {
            unchanged(a, b) && act is Idle
        },
        Message::SeasonsLoaded(res) => {
            &&& same_outside_details(a, b)
            &&& match res {
                Ok(seasons) => if seasons@.len() > 0 {
                    b.seasons == seasons && selects_season(a, b, seasons@[0].number, act)
                } else {
                    b.seasons == seasons && !b.is_loading_details && b.selected_entry
                        == a.selected_entry && b.episodes == a.episodes && b.selected_season
                        == a.selected_season && act is Idle
                },
                Err(_) => b == App { is_loading_details: false, ..a } && act is Idle,
            }
        },
        Message::SelectSeason(n) => same_outside_details(a, b) && b.seasons == a.seasons
            && selects_season(a, b, n, act),
        Message::EpisodesLoaded(res) => match res {
            Ok(eps) => b == App { is_loading_details: false, episodes: eps, ..a } && act is Idle,
            Err(_) => b == App { is_loading_details: false, ..a } && act is Idle,
        },
        Message::PlayEntry(i) => unchanged(a, b) && if i < a.search_results@.len() {
            (act matches Action::ResolveStream(x, None, None) && copies_entry(
                x,
                a.search_results@[i as int],
            ))
        } else {
            act is Idle
        },
        Message::PlayMovie => unchanged(a, b) && match a.selected_entry {
            Some(e) => act matches Action::ResolveStream(x, None, None) && copies_entry(x, e),
            None => act is Idle,
        },
        Message::PlayEpisode(season, n) => unchanged(a, b) && match a.selected_entry {
            Some(e) => act matches Action::ResolveStream(x, ep, Some(s)) && copies_entry(x, e)
                && copies_episode(ep, a.episodes@, n) && s == season,
            None => act is Idle,
        },
        Message::StreamUrlResolved(res) => unchanged(a, b) && match res {
            Ok(stream) => act matches Action::Play(url) && url == stream.url,
            Err(_) => act is Idle,
        },
        Message::DownloadMovie => unchanged(a, b) && match a.selected_entry {
            Some(e) => act matches Action::ResolveDownload { entry, episode, season, filename, is_movie }
                && copies_entry(entry, e) && episode is None && season is None && filename@
                == crate::providers::models::display_title_text(e.name@, e.year) && is_movie,
            None => act is Idle,
        },
        Message::DownloadEpisode(season, n) => unchanged(a, b) && match a.selected_entry {
            Some(e) => act matches Action::ResolveDownload {
                entry,
                episode,
                season: s,
                filename,
                is_movie,
            } && copies_entry(entry, e) && copies_episode(episode, a.episodes@, n) && s == Some(
                season,
            ) && filename@ == episode_file_name(
                a.config.output.map_episode_name@,
                e.name@,
                season,
                n,
                match episode_numbered(a.episodes@, n) {
                    Some(i) => a.episodes@[i].name@,
                    None => Seq::empty(),
                },
            ) && !is_movie,
            None => act is Idle,
        },
        Message::DownloadStreamResolved(res) => match res {
            Ok((stream, filename, is_movie)) => {
                &&& same_details(a, b)
                &&& b.screen == a.screen && b.config == a.config && b.provider_online
                    == a.provider_online && same_search(a, b)
                &&& b.downloads@.len() == a.downloads@.len() + 1
                &&& b.downloads@.drop_last() == a.downloads@
                &&& act matches Action::Download(req) && {
                    let p = b.downloads@.last();
                    &&& p.id == req.id
                    &&& p.title@ == filename@
                    &&& p.status is Queued
                    &&& req.title@ == filename@
                    &&& req.filename@ == filename@
                    &&& req.stream_url == stream.url
                    &&& req.headers == stream.headers
                    &&& exists|home: Option<Seq<char>>|
                        req.output_dir@ == output_path_text(home, a.config, filename@, is_movie)
                }
            },
            Err(_) => unchanged(a, b) && act is Idle,
        },
        Message::DownloadProgressUpdate(p) => {
            &&& same_details(a, b)
            &&& b.screen == a.screen && b.config == a.config && b.provider_online
                == a.provider_online && same_search(a, b)
            &&& match first_download(a.downloads@, p.id) {
                Some(i) => b.downloads@ == a.downloads@.update(i, p),
                None => b.downloads@ == a.downloads@,
            }
            &&& act is Idle
        },
        Message::ProviderStatusChecked(online) => b == App { provider_online: online, ..a }
            && act is Idle,
        Message::SettingsSave => unchanged(a, b) && act is SaveConfig,
        _ => match settings_after(a.config, m) {
            Some(c) => b == App { config: c, ..a } && act is Idle,
            None => false,
        },
    }
}

/// The index of the first download with the id.
pub open spec fn first_download(d: Seq<DownloadProgress>, id: u128) -> Option<int>
    decreases d.len(),
{
    if d.len() == 0 {
        None
    } else {
        match first_download(d.drop_last(), id) {
            Some(i) => Some(i),
            None => if d.last().id == id {
                Some(d.len() - 1)
            } else {
                None
            },
        }
    }
}

/// The index of the first episode with the number.
fn find_episode(eps: &Vec<Episode>, n: u32) -> (r: Option<usize>)
    ensures
        match r {
            Some(i) => i < eps@.len() && episode_numbered(eps@, n) == Some(i as int),
            None => episode_numbered(eps@, n) is None,
        },
{
    let mut i: usize = 0;
    while i < eps.len()
        invariant
            i <= eps@.len(),
            episode_numbered(eps@.take(i as int), n) is None,
        decreases eps@.len() - i,
    {
        assert(eps@.take(i + 1).drop_last() =~= eps@.take(i as int));
        if eps[i].number == n {
            proof {
                lemma_episode_numbered_prefix(eps@, n, (i + 1) as int);
            }
            return Some(i);
        }
        i = i + 1;
    }
    assert(eps@.take(eps@.len() as int) =~= eps@);
    None
}

proof fn lemma_episode_numbered_prefix(eps: Seq<Episode>, n: u32, k: int)
    requires
        0 < k <= eps.len(),
        episode_numbered(eps.take(k), n) is Some,
    ensures
        episode_numbered(eps, n) == episode_numbered(eps.take(k), n),
    decreases eps.len() - k,
{
    if k < eps.len() {
        assert(eps.take(k + 1).drop_last() =~= eps.take(k));
        lemma_episode_numbered_prefix(eps, n, k + 1);
    } else {
        assert(eps.take(k) =~= eps);
    }
}

/// The index of the first download with the id.
pub(crate) fn find_download(d: &Vec<DownloadProgress>, id: u128) -> (r: Option<usize>)
    ensures
        match r {
            Some(i) => i < d@.len() && first_download(d@, id) == Some(i as int),
            None => first_download(d@, id) is None,
        },
{
    let mut i: usize = 0;
    while i < d.len()
        invariant
            i <= d@.len(),
            first_download(d@.take(i as int), id) is None,
        decreases d@.len() - i,
    {
        assert(d@.take(i + 1).drop_last() =~= d@.take(i as int));
        if d[i].id == id {
            proof {
                lemma_first_download_prefix(d@, id, (i + 1) as int);
            }
            return Some(i);
        }
        i = i + 1;
    }
    assert(d@.take(d@.len() as int) =~= d@);
    None
}

proof fn lemma_first_download_prefix(d: Seq<DownloadProgress>, id: u128, k: int)
    requires
        0 < k <= d.len(),
        first_download(d.take(k), id) is Some,
    ensures
        first_download(d, id) == first_download(d.take(k), id),
    decreases d.len() - k,
{
    if k < d.len() {
        assert(d.take(k + 1).drop_last() =~= d.take(k));
        lemma_first_download_prefix(d, id, k + 1);
    } else {
        assert(d.take(k) =~= d);
    }
}

impl App {
    /// The state at start-up with the given settings; the provider is
    /// checked first.
    pub fn new(config: AppConfig) -> (r: (App, Action))
        ensures
            is_initial(r.0, config),
            r.1 is CheckProvider,
    {
        let app = App {
            screen: Screen::Home,
            config,
            provider_online: false,
            search_query: String::new(),
            search_results: Vec::new(),
            is_searching: false,
            selected_entry: None,
            seasons: Vec::new(),
            episodes: Vec::new(),
            selected_season: None,
            is_loading_details: false,
            downloads: Vec::new(),
        };
        (app, Action::CheckProvider)
    }

    /// Selects a season of the selected title and starts loading its
    /// episodes.
    fn select_season(&mut self, n: u32) -> (act: Action)
        ensures
            same_outside_details(*old(self), *final(self)),
            final(self).seasons == old(self).seasons,
            selects_season(*old(self), *final(self), n, act),
    {
        self.selected_season = Some(n);
        self.episodes.clear();
        self.is_loading_details = true;
        match &self.selected_entry {
            Some(e) => Action::LoadEpisodes(e.duplicate(), n),
            None => Action::Idle,
        }
    }

    /// Applies a message; returns the work it starts.
    pub fn update(&mut self, message: Message) -> (act: Action)
        ensures
            step(*old(self), message, *final(self), act),
    {
        match message {
            Message::NavigateHome => {
                self.screen = Screen::Home;
                Action::Idle
            },
            Message::NavigateSearch => {
                self.screen = Screen::Search;
                Action::Idle
            },
            Message::NavigateDownloads => {
                self.screen = Screen::Downloads;
                Action::Idle
            },
            Message::NavigateSettings => {
                self.screen = Screen::Settings;
                Action::Idle
            },
            Message::SearchInputChanged(q) => {
                self.search_query = q;
                Action::Idle
            },
            Message::SearchSubmit => {
                let t = trim_chars(&chars_of(self.search_query.as_str()));
                if t.len() == 0 || self.is_searching {
                    return Action::Idle;
                }
                self.is_searching = true;
                Action::Search(self.search_query.clone())
            },
            Message::SearchCompleted(result) => {
                self.is_searching = false;
                match result {
                    Ok(entries) => self.search_results = entries,
                    Err(_) => self.search_results.clear(),
                }
                Action::Idle
            },
            Message::SelectEntry(index) => {
                if index < self.search_results.len() {
                    let entry = self.search_results[index].duplicate();
                    let movie = entry.is_movie();
                    let task = entry.duplicate();
                    self.selected_entry = Some(entry);
                    self.screen = Screen::Details;
                    self.seasons.clear();
                    self.episodes.clear();
                    self.selected_season = None;
                    self.is_loading_details = true;
                    if movie {
                        self.is_loading_details = false;
                        return Action::Idle;
                    }
                    Action::LoadSeasons(task)
                } else {
                    Action::Idle
                }
            },
            Message::SeasonsLoaded(result) => {
                self.is_loading_details = false;
                match result {
                    Ok(seasons) => {
                        self.seasons = seasons;
                        if self.seasons.len() > 0 {
                            let num = self.seasons[0].number;
                            return self.select_season(num);
                        }
                        Action::Idle
                    },
                    Err(_) => Action::Idle,
                }
            },
            Message::SelectSeason(number) => self.select_season(number),
            Message::EpisodesLoaded(result) => {
                self.is_loading_details = false;
                if let Ok(eps) = result {
                    self.episodes = eps;
                }
                Action::Idle
            },
            Message::PlayEntry(index) => {
                if index < self.search_results.len() {
                    Action::ResolveStream(self.search_results[index].duplicate(), None, None)
                } else {
                    Action::Idle
                }
            },
            Message::PlayMovie => match &self.selected_entry {
                Some(e) => Action::ResolveStream(e.duplicate(), None, None),
                None => Action::Idle,
            },
            Message::PlayEpisode(season, ep_num) => match &self.selected_entry {
                Some(e) => {
                    let episode = match find_episode(&self.episodes, ep_num) {
                        Some(i) => Some(self.episodes[i].duplicate()),
                        None => None,
                    };
                    Action::ResolveStream(e.duplicate(), episode, Some(season))
                },
                None => Action::Idle,
            },
            Message::StreamUrlResolved(result) => match result {
                Ok(stream) => Action::Play(stream.url),
                Err(_) => Action::Idle,
            },
            Message::DownloadMovie => match &self.selected_entry {
                Some(e) => {
                    let title = e.display_title();
                    Action::ResolveDownload {
                        entry: e.duplicate(),
                        episode: None,
                        season: None,
                        filename: title,
                        is_movie: true,
                    }
                },
                None => Action::Idle,
            },
            Message::DownloadEpisode(season, ep_num) => match &self.selected_entry {
                Some(e) => {
                    let found = find_episode(&self.episodes, ep_num);
                    let engine = DownloadEngine::new(self.config.duplicate());
                    let filename = match found {
                        Some(i) => engine.format_episode_name(
                            e.name.as_str(),
                            season,
                            ep_num,
                            self.episodes[i].name.as_str(),
                        ),
                        None => {
                            let none = "";
                            proof {
                                reveal_strlit("");
                                assert(none@ =~= Seq::<char>::empty());
                            }
                            engine.format_episode_name(e.name.as_str(), season, ep_num, none)
                        },
                    };
                    let episode = match found {
                        Some(i) => Some(self.episodes[i].duplicate()),
                        None => None,
                    };
                    Action::ResolveDownload {
                        entry: e.duplicate(),
                        episode,
                        season: Some(season),
                        filename,
                        is_movie: false,
                    }
                },
                None => Action::Idle,
            },
            Message::DownloadStreamResolved(result) => match result {
                Ok((stream, filename, is_movie)) => {
                    let id = new_download_id();
                    let engine = DownloadEngine::new(self.config.duplicate());
                    let home = platform_home_dir();
                    let output_dir = engine.build_output_path_in(&home, filename.as_str(), is_movie);
                    let request = DownloadRequest {
                        id,
                        title: filename.clone(),
                        stream_url: stream.url,
                        output_dir,
                        filename: filename.clone(),
                        headers: stream.headers,
                    };
                    let ghost before = self.downloads@;
                    self.downloads.push(DownloadProgress::new(id, filename));
                    assert(self.downloads@.drop_last() == before);
                    Action::Download(request)
                },
                Err(_) => Action::Idle,
            },
            Message::DownloadProgressUpdate(progress) => {
                match find_download(&self.downloads, progress.id) {
                    Some(i) => {
                        self.downloads.set(i, progress);
                    },
                    None => {},
                }
                Action::Idle
            },
            Message::ProviderStatusChecked(online) => {
                self.provider_online = online;
                Action::Idle
            },
            Message::SettingsUpdateRootPath(v) => {
                self.config.output.root_path = v;
                Action::Idle
            },
            Message::SettingsUpdateMovieFolder(v) => {
                self.config.output.movie_folder_name = v;
                Action::Idle
            },
            Message::SettingsUpdateSerieFolder(v) => {
                self.config.output.serie_folder_name = v;
                Action::Idle
            },
            Message::SettingsUpdateEpisodeFormat(v) => {
                self.config.output.map_episode_name = v;
                Action::Idle
            },
            Message::SettingsUpdateThreadCount(v) => {
                if let Some(n) = parse_u32_exec(v.as_str()) {
                    self.config.download.thread_count = n;
                }
                Action::Idle
            },
            Message::SettingsUpdateRetryCount(v) => {
                if let Some(n) = parse_u32_exec(v.as_str()) {
                    self.config.download.retry_count = n;
                }
                Action::Idle
            },
            Message::SettingsUpdateSelectVideo(v) => {
                self.config.download.select_video = v;
                Action::Idle
            },
            Message::SettingsUpdateSelectAudio(v) => {
                self.config.download.select_audio = v;
                Action::Idle
            },
            Message::SettingsUpdateSelectSubtitle(v) => {
                self.config.download.select_subtitle = v;
                Action::Idle
            },
            Message::SettingsUpdateMaxSpeed(v) => {
                self.config.download.max_speed = v;
                Action::Idle
            },
            Message::SettingsUpdateExtension(v) => {
                self.config.process.extension = v;
                Action::Idle
            },
            Message::SettingsUpdateTimeout(v) => {
                if let Some(n) = parse_u64_exec(&chars_of(v.as_str())) {
                    self.config.requests.timeout = n;
                }
                Action::Idle
            },
            Message::SettingsUpdateProxyUrl(v) => {
                self.config.requests.proxy_url = v;
                Action::Idle
            },
            Message::SettingsToggleConcurrent(_) => {
                self.config.download.concurrent_download = !self.config.download.concurrent_download;
                Action::Idle
            },
            Message::SettingsToggleMergeAudio(_) => {
                self.config.process.merge_audio = !self.config.process.merge_audio;
                Action::Idle
            },
            Message::SettingsToggleMergeSubtitle(_) => {
                self.config.process.merge_subtitle = !self.config.process.merge_subtitle;
                Action::Idle
            },
            Message::SettingsToggleGpu(_) => {
                self.config.process.use_gpu = !self.config.process.use_gpu;
                Action::Idle
            },
            Message::SettingsToggleProxy(_) => {
                self.config.requests.use_proxy = !self.config.requests.use_proxy;
                Action::Idle
            },
            Message::SettingsSave => Action::SaveConfig,
        }
    }
}

proof fn lemma_first_download(d: Seq<DownloadProgress>, id: u128)
    ensures
        first_download(d, id) matches Some(i) ==> 0 <= i < d.len() && d[i].id == id,
    decreases d.len(),
{
    if d.len() > 0 {
        lemma_first_download(d.drop_last(), id);
    }
}

/// No message drops a download or changes which download is where: the
/// list only grows, at its end.
pub proof fn law_downloads_never_dropped(a: App, m: Message, b: App, act: Action)
    requires
        step(a, m, b, act),
    ensures
        b.downloads@.len() >= a.downloads@.len(),
        forall|i: int| 0 <= i < a.downloads@.len() ==> (#[trigger] b.downloads@[i]).id == a.downloads@[i].id,
{
    match m {
        Message::DownloadProgressUpdate(p) => {
            lemma_first_download(a.downloads@, p.id);
        },
        Message::DownloadStreamResolved(res) => {
            if res is Ok {
                assert forall|i: int| 0 <= i < a.downloads@.len() implies (
                #[trigger] b.downloads@[i]).id == a.downloads@[i].id by {
                    assert(b.downloads@.drop_last()[i] == b.downloads@[i]);
                }
            }
        },
        _ => {},
    }
}

/// A search is never started while one is running.
pub proof fn law_one_search_at_a_time(a: App, b: App, act: Action)
    requires
        a.is_searching,
        step(a, Message::SearchSubmit, b, act),
    ensures
        act is Idle,
        b.is_searching,
{
}

} // verus!
