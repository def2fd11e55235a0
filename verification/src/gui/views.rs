//! What the web interface's views show, worked out from the state they are
//! given: their texts, which parts appear, and what each control sends.
//! Drawing them is left to the interface.
use crate::config::WatchItem;
use crate::playback::player::PlaybackState;
use crate::gui::{hash37, poster_color, poster_palette, provider_label, provider_name_text, rgb_text, Screen};
use crate::providers::{Episode, MediaEntry, MediaType, Season};
use crate::text::{chars_of, decimal, decimal_chars, extend_chars, extend_str, pad2, pad2_chars, string_of};
use crate::util::{DownloadProgress, DownloadStatus};
use vstd::prelude::*;

verus! {

/// The badge of a title's kind.
pub open spec fn kind_text(t: MediaType) -> Seq<char> {
    match t {
        MediaType::Movie => "MOVIE"@,
        MediaType::Series => "SERIES"@,
    }
}

/// The badge of a title's kind: `MOVIE` or `SERIES`.
pub fn kind_label(t: &MediaType) -> (r: &'static str)
    ensures
        r@ == kind_text(*t),
{
    match t {
        MediaType::Movie => "MOVIE",
        MediaType::Series => "SERIES",
    }
}

/// The background of a title's poster when it has no picture.
pub open spec fn poster_bg(name: Seq<char>) -> Seq<char> {
    rgb_text(poster_palette()[(hash37(vstd::utf8::encode_utf8(name)) % 16) as int])
}

/// The style of a poster or resume card: its colour, then its picture when
/// it has one.
pub open spec fn card_style_text(name: Seq<char>, image: Option<Seq<char>>) -> Seq<char> {
    "background-color: "@ + poster_bg(name) + match image {
        Some(u) => "; background-image: url('"@ + u + "');"@,
        None => ";"@,
    }
}

/// The style of a card for a title of that name and picture.
pub fn card_style(name: &str, image: Option<&String>) -> (r: String)
    ensures
        r@ == card_style_text(
            name@,
            match image {
                Some(u) => Some(u@),
                None => None,
            },
        ),
{
    let bg = poster_color(name);
    let mut v = chars_of("background-color: ");
    extend_str(&mut v, bg.as_str());
    match image {
        Some(u) => {
            extend_str(&mut v, "; background-image: url('");
            extend_str(&mut v, u.as_str());
            extend_str(&mut v, "');");
        },
        None => {
            extend_str(&mut v, ";");
        },
    }
    string_of(&v)
}

/// A title's card in the catalogue and among search results.
pub struct PosterView {
    pub style: String,
    pub provider: &'static str,
    pub badge_class: &'static str,
    pub kind: &'static str,
    pub year: String,
}

/// The card of a title: its style, provider, kind badge and year.
pub fn poster_view(entry: &MediaEntry) -> (r: PosterView)
    ensures
        r.style@ == card_style_text(
            entry.name@,
            match entry.image_url {
                Some(u) => Some(u@),
                None => None,
            },
        ),
        r.provider@ == provider_name_text(entry.provider),
        r.badge_class@ == (if entry.media_type == MediaType::Movie {
            "badge badge-movie"@
        } else {
            "badge badge-series"@
        }),
        r.kind@ == kind_text(entry.media_type),
        r.year@ == crate::providers::models::year_text(entry.year),
{
    let style = card_style(entry.name.as_str(), entry.image_url.as_ref());
    let badge_class = if entry.is_movie() {
        "badge badge-movie"
    } else {
        "badge badge-series"
    };
    PosterView {
        style,
        provider: provider_label(entry.provider),
        badge_class,
        kind: kind_label(&entry.media_type),
        year: entry.year_display().to_string(),
    }
}

/// What the home screen shows.
#[derive(Debug, Clone, Copy, PartialEq, Eq, Structural)]
pub enum HomeBody {
    /// The catalogue is still loading and nothing came yet.
    Splash,
    /// No provider had anything.
    Empty,
    /// The catalogue, with the resume row above it when there is something
    /// to resume.
    Catalog { resume_row: bool },
}

/// The home screen for a catalogue of `catalog` titles and `watching`
/// records to resume.
pub fn home_body(catalog: usize, loading: bool, watching: usize) -> (r: HomeBody)
    ensures
        catalog == 0 && loading ==> r == HomeBody::Splash,
        catalog == 0 && !loading ==> r == HomeBody::Empty,
        catalog > 0 ==> r == (HomeBody::Catalog { resume_row: watching > 0 }),
{
    if catalog == 0 && loading {
        HomeBody::Splash
    } else if catalog == 0 {
        HomeBody::Empty
    } else {
        HomeBody::Catalog { resume_row: watching > 0 }
    }
}

/// The line under a resume card's name: season and episode with the
/// episode's name, or nothing for a film.
pub open spec fn resume_subtitle_text(item: WatchItem) -> Seq<char> {
    match (item.season, item.episode) {
        (Some(s), Some(ep)) => "S"@ + pad2(s as nat) + "E"@ + pad2(ep.number as nat) + " - "@ + ep.name@,
        _ => Seq::empty(),
    }
}

/// The picture of a resume card: the episode's, else the title's.
pub open spec fn resume_image(item: WatchItem) -> Option<Seq<char>> {
    let own = match item.entry.image_url {
        Some(u) => Some(u@),
        None => None,
    };
    match item.episode {
        Some(ep) => match ep.image_url {
            Some(u) => Some(u@),
            None => own,
        },
        None => own,
    }
}

/// A record in the resume row.
pub struct ResumeCard {
    pub style: String,
    pub name: String,
    pub subtitle: String,
    /// What the remove button sends: the title's provider and id.
    pub remove: (usize, u64),
}

/// The resume card of a record: the episode's picture is preferred to the
/// title's.
pub fn resume_card(item: &WatchItem) -> (r: ResumeCard)
    ensures
        r.style@ == card_style_text(item.entry.name@, resume_image(*item)),
        r.name@ == item.entry.name@,
        r.subtitle@ == resume_subtitle_text(*item),
        r.remove == (item.entry.provider, item.entry.id),
{
    let image = match &item.episode {
        Some(ep) => match &ep.image_url {
            Some(u) => Some(u),
            None => item.entry.image_url.as_ref(),
        },
        None => item.entry.image_url.as_ref(),
    };
    let style = card_style(item.entry.name.as_str(), image);
    let subtitle = match (&item.season, &item.episode) {
        (Some(s), Some(ep)) => {
            let mut v = chars_of("S");
            extend_chars(&mut v, &pad2_chars(*s as u64));
            extend_str(&mut v, "E");
            extend_chars(&mut v, &pad2_chars(ep.number as u64));
            extend_str(&mut v, " - ");
            extend_str(&mut v, ep.name.as_str());
            string_of(&v)
        },
        _ => String::new(),
    };
    ResumeCard {
        style,
        name: item.entry.name.clone(),
        subtitle,
        remove: (item.entry.provider, item.entry.id),
    }
}

/// What the search screen shows.
#[derive(Debug, Clone)]
pub enum SearchBody {
    Searching,
    /// Nothing to show, with the message why.
    Empty(&'static str),
    /// The results, with their count as text.
    Results(String),
}

/// The search screen while searching, with `results` results for the
/// query.
pub fn search_body(searching: bool, results: usize, query: &str) -> (r: SearchBody)
    ensures
        searching ==> r is Searching,
        !searching && results == 0 ==> (r matches SearchBody::Empty(m) && m@ == (if query@.len() == 0 {
            "Use the search bar to find movies and series"@
        } else {
            "No results found"@
        })),
        !searching && results > 0 ==> (r matches SearchBody::Results(c) && c@ == decimal(results as nat)
            + " results"@),
{
    if searching {
        return SearchBody::Searching;
    }
    if results == 0 {
        if query.unicode_len() == 0 {
            SearchBody::Empty("Use the search bar to find movies and series")
        } else {
            SearchBody::Empty("No results found")
        }
    } else {
        let mut v = decimal_chars(results as u64);
        extend_str(&mut v, " results");
        SearchBody::Results(string_of(&v))
    }
}

/// The downloads screen's count: `n item` or `n items`.
pub fn downloads_count(n: usize) -> (r: String)
    ensures
        r@ == decimal(n as nat) + (if n == 1 {
            " item"@
        } else {
            " items"@
        }),
{
    let mut v = decimal_chars(n as u64);
    if n == 1 {
        extend_str(&mut v, " item");
    } else {
        extend_str(&mut v, " items");
    }
    string_of(&v)
}

/// What a download's card says of it, and in which colour.
pub open spec fn download_status_text(s: DownloadStatus) -> (Seq<char>, Seq<char>) {
    match s {
        DownloadStatus::Queued => ("Queued"@, "var(--text3)"@),
        DownloadStatus::Downloading => ("Downloading..."@, "var(--accent)"@),
        DownloadStatus::Muxing => ("Muxing..."@, "var(--warn)"@),
        DownloadStatus::Completed => ("Completed"@, "var(--success)"@),
        DownloadStatus::Failed(e) => (e@, "var(--danger)"@),
    }
}

/// The status line of a download's card and its colour; a failure shows
/// its message.
pub fn download_status(p: &DownloadProgress) -> (r: (String, &'static str))
    ensures
        (r.0@, r.1@) == download_status_text(p.status),
{
    match &p.status {
        DownloadStatus::Queued => ("Queued".to_string(), "var(--text3)"),
        DownloadStatus::Downloading => ("Downloading...".to_string(), "var(--accent)"),
        DownloadStatus::Muxing => ("Muxing...".to_string(), "var(--warn)"),
        DownloadStatus::Completed => ("Completed".to_string(), "var(--success)"),
        DownloadStatus::Failed(e) => (e.clone(), "var(--danger)"),
    }
}

/// A season's tab on a show's page.
pub struct SeasonTab {
    pub number: u32,
    pub label: String,
    pub active: bool,
}

/// What the seasons row shows.
pub enum SeasonsRow {
    Loading,
    Tabs(Vec<SeasonTab>),
}

/// An episode's row on a show's page; playing or downloading it sends the
/// season and the number.
pub struct EpisodeLine {
    pub season: u32,
    pub number: u32,
    pub name: String,
    pub duration: String,
}

/// What the episodes part of a show's page shows.
pub enum EpisodesBody {
    Loading,
    /// Nothing loaded: the viewer is asked to pick a season.
    Prompt,
    Rows(Vec<EpisodeLine>),
}

/// The text of an episode's length: `n min`, or nothing when unknown.
pub open spec fn duration_text(d: Option<u32>) -> Seq<char> {
    match d {
        Some(m) => decimal(m as nat) + " min"@,
        None => Seq::empty(),
    }
}

/// The tab of a season is `Season n`, active when it is the one selected.
pub open spec fn is_tab_of(t: SeasonTab, s: Season, selected: Option<u32>) -> bool {
    &&& t.number == s.number
    &&& t.label@ == "Season "@ + decimal(s.number as nat)
    &&& t.active == (selected == Some(s.number))
}

/// The row of an episode, listed under the selected season (the first when
/// none is).
pub open spec fn is_line_of(l: EpisodeLine, e: Episode, selected: Option<u32>) -> bool {
    &&& l.season == (match selected {
        Some(s) => s,
        None => 1u32,
    })
    &&& l.number == e.number
    &&& l.name@ == e.name@
    &&& l.duration@ == duration_text(e.duration)
}

/// The seasons row of a show's page.
pub fn seasons_row(seasons: &Vec<Season>, selected: Option<u32>, loading: bool) -> (r: SeasonsRow)
    ensures
        seasons@.len() == 0 && loading ==> r is Loading,
        !(seasons@.len() == 0 && loading) ==> (r matches SeasonsRow::Tabs(t) && t@.len() == seasons@.len()
            && forall|i: int| 0 <= i < t@.len() ==> is_tab_of(#[trigger] t@[i], seasons@[i], selected)),
{
    if seasons.len() == 0 && loading {
        return SeasonsRow::Loading;
    }
    let mut tabs: Vec<SeasonTab> = Vec::new();
    let mut i: usize = 0;
    while i < seasons.len()
        invariant
            i <= seasons@.len(),
            tabs@.len() == i,
            forall|j: int| 0 <= j < i ==> is_tab_of(#[trigger] tabs@[j], seasons@[j], selected),
        decreases seasons@.len() - i,
    {
        let n = seasons[i].number;
        let mut label = chars_of("Season ");
        extend_chars(&mut label, &decimal_chars(n as u64));
        let active = match selected {
            Some(s) => s == n,
            None => false,
        };
        tabs.push(SeasonTab { number: n, label: string_of(&label), active });
        i = i + 1;
    }
    SeasonsRow::Tabs(tabs)
}

/// The episodes part of a show's page.
pub fn episodes_body(episodes: &Vec<Episode>, selected: Option<u32>, loading: bool) -> (r: EpisodesBody)
    ensures
        episodes@.len() == 0 && loading ==> r is Loading,
        episodes@.len() == 0 && !loading ==> r is Prompt,
        episodes@.len() > 0 ==> (r matches EpisodesBody::Rows(l) && l@.len() == episodes@.len()
            && forall|i: int| 0 <= i < l@.len() ==> is_line_of(#[trigger] l@[i], episodes@[i], selected)),
{
    if episodes.len() == 0 {
        if loading {
            return EpisodesBody::Loading;
        } else {
            return EpisodesBody::Prompt;
        }
    }
    let season: u32 = match selected {
        Some(s) => s,
        None => 1,
    };
    let mut lines: Vec<EpisodeLine> = Vec::new();
    let mut i: usize = 0;
    while i < episodes.len()
        invariant
            i <= episodes@.len(),
            lines@.len() == i,
            season == (match selected {
                Some(s) => s,
                None => 1u32,
            }),
            forall|j: int| 0 <= j < i ==> is_line_of(#[trigger] lines@[j], episodes@[j], selected),
        decreases episodes@.len() - i,
    {
        let e = &episodes[i];
        let duration = match e.duration {
            Some(m) => {
                let mut v = decimal_chars(m as u64);
                extend_str(&mut v, " min");
                string_of(&v)
            },
            None => String::new(),
        };
        lines.push(EpisodeLine { season, number: e.number, name: e.name.clone(), duration });
        i = i + 1;
    }
    EpisodesBody::Rows(lines)
}

/// The badge colours of a title's kind on its page: background and text.
pub fn kind_colors(t: &MediaType) -> (r: (&'static str, &'static str))
    ensures
        (r.0@, r.1@) == (match *t {
            MediaType::Movie => ("var(--accent)"@, "var(--accent-text)"@),
            MediaType::Series => ("#0091d5"@, "white"@),
        }),
{
    match t {
        MediaType::Movie => ("var(--accent)", "var(--accent-text)"),
        MediaType::Series => ("#0091d5", "white"),
    }
}

/// The class of a navigation link: marked active on its own screen.
pub fn nav_link_class(current: Screen, target: Screen) -> (r: &'static str)
    ensures
        r@ == (if current == target {
            "nav-link active"@
        } else {
            "nav-link"@
        }),
{
    if current == target {
        "nav-link active"
    } else {
        "nav-link"
    }
}

/// The update button: shown while an update is available or running; it
/// starts the update only when none is running.
pub struct UpdateButton {
    pub class: &'static str,
    pub clickable: bool,
}

/// The update button, when there is one.
pub fn update_button(has_update: bool, updating: bool) -> (r: Option<UpdateButton>)
    ensures
        r is Some <==> (has_update || updating),
        r matches Some(b) ==> b.clickable == !updating && b.class@ == (if updating {
            "update-btn updating"@
        } else {
            "update-btn"@
        }),
{
    if !(has_update || updating) {
        return None;
    }
    let class = if updating {
        "update-btn updating"
    } else {
        "update-btn"
    };
    Some(UpdateButton { class, clickable: !updating })
}

/// The player's polling: whether the start position was applied, and
/// whether the end of the video was reported.
#[derive(Debug, Clone, Copy, PartialEq, Eq, Structural)]
pub struct PollState {
    pub seeked: bool,
    pub ended_sent: bool,
}

/// What a poll of the video reports.
#[derive(Debug, Clone, Copy, PartialEq, Eq, Structural)]
pub enum PollEvent {
    /// The video ended.
    Ended,
    /// It is playing: its position is reported once it passes ten seconds.
    Playing,
    Nothing,
}

/// One poll: the next state, whether to apply the start position now, and
/// what to report.
#[derive(Debug, Clone, Copy, PartialEq, Eq, Structural)]
pub struct PollStep {
    pub next: PollState,
    pub seek: bool,
    pub event: PollEvent,
}

/// The player's state before the first poll.
pub fn poll_start() -> (r: PollState)
    ensures
        r == (PollState { seeked: false, ended_sent: false }),
{
    PollState { seeked: false, ended_sent: false }
}

/// Seconds to wait before the next poll: one until the start position was
/// applied, three after.
pub fn poll_delay_secs(s: PollState) -> (r: u64)
    ensures
        r == (if s.seeked {
            3u64
        } else {
            1u64
        }),
{
    if s.seeked {
        3
    } else {
        1
    }
}

/// The step of a poll that found the video ready, ended or not.
pub open spec fn poll_rule(s: PollState, ended: bool) -> PollStep {
    if ended && !s.ended_sent {
        PollStep { next: PollState { seeked: true, ended_sent: true }, seek: !s.seeked, event: PollEvent::Ended }
    } else if !ended {
        PollStep { next: PollState { seeked: true, ended_sent: false }, seek: !s.seeked, event: PollEvent::Playing }
    } else {
        PollStep { next: PollState { seeked: true, ended_sent: s.ended_sent }, seek: !s.seeked, event: PollEvent::Nothing }
    }
}

/// A poll that found the video ready.
pub fn after_poll(s: PollState, ended: bool) -> (r: PollStep)
    ensures
        r == poll_rule(s, ended),
{
    let seek = !s.seeked;
    if ended && !s.ended_sent {
        PollStep { next: PollState { seeked: true, ended_sent: true }, seek, event: PollEvent::Ended }
    } else if !ended {
        PollStep { next: PollState { seeked: true, ended_sent: false }, seek, event: PollEvent::Playing }
    } else {
        PollStep { next: PollState { seeked: true, ended_sent: s.ended_sent }, seek, event: PollEvent::Nothing }
    }
}

/// The end of a video is reported once: a second poll that finds it ended
/// reports nothing, and once it plays again its next end is reported.
pub proof fn law_end_reported_once(s: PollState)
    ensures
        poll_rule(s, true).next.ended_sent,
        poll_rule(poll_rule(s, true).next, true).event == PollEvent::Nothing,
        poll_rule(poll_rule(poll_rule(s, true).next, false).next, true).event == PollEvent::Ended,
{
}

/// The start position is applied on the first poll only.
pub proof fn law_seek_once(s: PollState, first_ended: bool, then_ended: bool)
    ensures
        poll_rule(s, first_ended).seek == !s.seeked,
        !poll_rule(poll_rule(s, first_ended).next, then_ended).seek,
{
}

/// The keys the player answers.
#[derive(Debug, Clone, Copy, PartialEq, Eq, Structural)]
pub enum PlayerKey {
    Left,
    Right,
    Space,
    Other,
}

/// What a key does to the video.
#[derive(Debug, Clone, Copy, PartialEq, Eq, Structural)]
pub enum KeyAction {
    /// Move the position by this many seconds.
    Seek(i32),
    /// Pause a playing video, play a paused one.
    TogglePause,
}

/// The left and right arrows move by fifteen seconds; space pauses or plays.
pub fn key_action(k: PlayerKey) -> (r: Option<KeyAction>)
    ensures
        r == (match k {
            PlayerKey::Left => Some(KeyAction::Seek(-15i32)),
            PlayerKey::Right => Some(KeyAction::Seek(15i32)),
            PlayerKey::Space => Some(KeyAction::TogglePause),
            PlayerKey::Other => None,
        }),
{
    match k {
        PlayerKey::Left => Some(KeyAction::Seek(-15)),
        PlayerKey::Right => Some(KeyAction::Seek(15)),
        PlayerKey::Space => Some(KeyAction::TogglePause),
        PlayerKey::Other => None,
    }
}

/// The colour a player status is shown in.
#[derive(Debug, Clone, Copy, PartialEq, Eq, Structural)]
pub enum Tone {
    Secondary,
    Success,
    Warning,
}

/// The desktop player screen: its status and colour, the play/pause
/// button (its label, and whether it pauses), and whether the seek, stop
/// and volume buttons respond.
pub struct PlayerPanel {
    pub status: &'static str,
    pub tone: Tone,
    pub toggle: &'static str,
    pub toggle_pauses: bool,
    pub controls_active: bool,
}

/// The player screen for a playback state.
pub fn player_panel(state: &PlaybackState) -> (r: PlayerPanel)
    ensures
        r.status@ == (match *state {
            PlaybackState::Stopped => "Stopped"@,
            PlaybackState::Playing(_) => "Playing"@,
            PlaybackState::Paused(_) => "Paused"@,
        }),
        r.tone == (match *state {
            PlaybackState::Stopped => Tone::Secondary,
            PlaybackState::Playing(_) => Tone::Success,
            PlaybackState::Paused(_) => Tone::Warning,
        }),
        r.toggle_pauses == (*state is Playing),
        r.toggle@ == (if *state is Playing {
            "Pause"@
        } else {
            "Resume"@
        }),
        r.controls_active == !(*state is Stopped),
{
    match state {
        PlaybackState::Stopped => PlayerPanel {
            status: "Stopped",
            tone: Tone::Secondary,
            toggle: "Resume",
            toggle_pauses: false,
            controls_active: false,
        },
        PlaybackState::Playing(_) => PlayerPanel {
            status: "Playing",
            tone: Tone::Success,
            toggle: "Pause",
            toggle_pauses: true,
            controls_active: true,
        },
        PlaybackState::Paused(_) => PlayerPanel {
            status: "Paused",
            tone: Tone::Warning,
            toggle: "Resume",
            toggle_pauses: false,
            controls_active: true,
        },
    }
}

} // verus!
