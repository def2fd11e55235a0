//! Application settings, where they live on disk, and the list of titles
//! the user is part-way through ("continue watching").
use crate::providers::models::{same_entry, same_episode, EntryView, EpisodeView};
use crate::providers::{Episode, MediaEntry};
use crate::text::{chars_of, join_path, path_join};
use vstd::arithmetic::div_mod::lemma_fundamental_div_mod_converse;
use vstd::arithmetic::power2::{lemma_pow2_adds, lemma_pow2_strictly_increases, pow2};
use vstd::prelude::*;

pub mod settings;

verus! {

/// Where downloads go and how episodes are named.
#[derive(Debug, Clone)]
pub struct OutputConfig {
    pub root_path: String,
    pub movie_folder_name: String,
    pub serie_folder_name: String,
    pub map_episode_name: String,
}

/// How the downloader is run.
#[derive(Debug, Clone)]
pub struct DownloadConfig {
    pub thread_count: u32,
    pub retry_count: u32,
    pub concurrent_download: bool,
    pub max_speed: String,
    pub select_video: String,
    pub select_audio: String,
    pub select_subtitle: String,
}

/// What happens to the downloaded tracks.
#[derive(Debug, Clone)]
pub struct ProcessConfig {
    pub use_gpu: bool,
    pub merge_audio: bool,
    pub merge_subtitle: bool,
    pub extension: String,
}

/// Network settings of the providers.
#[derive(Debug, Clone)]
pub struct RequestsConfig {
    pub timeout: u64,
    pub max_retry: u32,
    pub use_proxy: bool,
    pub proxy_url: String,
}

/// All settings.
#[derive(Debug, Clone)]
pub struct AppConfig {
    pub output: OutputConfig,
    pub download: DownloadConfig,
    pub process: ProcessConfig,
    pub requests: RequestsConfig,
}

/// The episode naming pattern used unless the user sets another.
pub open spec fn default_episode_pattern() -> Seq<char> {
    "%(episode_name) S%(season)E%(episode)"@
}

/// The download settings used unless the user sets others.
pub open spec fn is_default_download(d: DownloadConfig) -> bool {
    &&& d.thread_count == 8
    &&& d.retry_count == 30
    &&& d.concurrent_download
    &&& d.max_speed@ == Seq::<char>::empty()
    &&& d.select_video@ == "all"@
    &&& d.select_audio@ == "all"@
    &&& d.select_subtitle@ == "all"@
}

/// The network settings used unless the user sets others.
pub open spec fn is_default_requests(r: RequestsConfig) -> bool {
    &&& r.timeout == 30
    &&& r.max_retry == 8
    &&& !r.use_proxy
    &&& r.proxy_url@ == Seq::<char>::empty()
}

/// The settings used when none are stored: downloads under `Movies`, into
/// `Movie` and `Serie`, muxed into `mp4`.
pub open spec fn is_default_config(c: AppConfig) -> bool {
    &&& c.output.root_path@ == "Movies"@
    &&& c.output.movie_folder_name@ == "Movie"@
    &&& c.output.serie_folder_name@ == "Serie"@
    &&& c.output.map_episode_name@ == default_episode_pattern()
    &&& is_default_download(c.download)
    &&& !c.process.use_gpu
    &&& c.process.merge_audio
    &&& c.process.merge_subtitle
    &&& c.process.extension@ == "mp4"@
    &&& is_default_requests(c.requests)
}

impl Default for OutputConfig {
    fn default() -> (r: Self)
        ensures
            r.root_path@ == "Movies"@,
            r.movie_folder_name@ == "Movie"@,
            r.serie_folder_name@ == "Serie"@,
            r.map_episode_name@ == default_episode_pattern(),
    {
        OutputConfig {
            root_path: "Movies".to_owned(),
            movie_folder_name: "Movie".to_owned(),
            serie_folder_name: "Serie".to_owned(),
            map_episode_name: "%(episode_name) S%(season)E%(episode)".to_owned(),
        }
    }
}

impl Default for DownloadConfig {
    fn default() -> (r: Self)
        ensures
            is_default_download(r),
    {
        DownloadConfig {
            thread_count: 8,
            retry_count: 30,
            concurrent_download: true,
            max_speed: String::new(),
            select_video: "all".to_owned(),
            select_audio: "all".to_owned(),
            select_subtitle: "all".to_owned(),
        }
    }
}

impl Default for ProcessConfig {
    fn default() -> (r: Self)
        ensures
            !r.use_gpu,
            r.merge_audio,
            r.merge_subtitle,
            r.extension@ == "mp4"@,
    {
        ProcessConfig {
            use_gpu: false,
            merge_audio: true,
            merge_subtitle: true,
            extension: "mp4".to_owned(),
        }
    }
}

impl Default for RequestsConfig {
    fn default() -> (r: Self)
        ensures
            is_default_requests(r),
    {
        RequestsConfig {
            timeout: 30,
            max_retry: 8,
            use_proxy: false,
            proxy_url: String::new(),
        }
    }
}

impl Default for AppConfig {
    fn default() -> (r: Self)
        ensures
            is_default_config(r),
    {
        AppConfig {
            output: OutputConfig::default(),
            download: DownloadConfig::default(),
            process: ProcessConfig::default(),
            requests: RequestsConfig::default(),
        }
    }
}

/// The platform's configuration directory, as `dirs::config_dir` finds it
/// (the path as text); it depends on the user and the environment, so
/// nothing is promised of it.
#[verifier::external_body]
fn platform_config_dir() -> (r: Option<String>) {
    dirs::config_dir().map(|p| p.to_string_lossy().into_owned())
}

/// The user's home directory, as `dirs::home_dir` finds it (the path as
/// text); it depends on the user and the environment, so nothing is
/// promised of it.
#[verifier::external_body]
pub(crate) fn platform_home_dir() -> (r: Option<String>) {
    dirs::home_dir().map(|p| p.to_string_lossy().into_owned())
}

/// A directory found on the platform, or the working directory (`.`).
pub open spec fn dir_or_here(found: Option<Seq<char>>) -> Seq<char> {
    match found {
        Some(d) => d,
        None => "."@,
    }
}

/// The application's own directory under the platform configuration
/// directory.
pub open spec fn config_dir_text(found: Option<Seq<char>>) -> Seq<char> {
    path_join(dir_or_here(found), "StreamVault"@)
}

/// The download root: `root` under the home directory.
pub open spec fn download_dir_text(home: Option<Seq<char>>, root: Seq<char>) -> Seq<char> {
    path_join(dir_or_here(home), root)
}

/// A media folder under the download root.
pub open spec fn media_dir_text(home: Option<Seq<char>>, root: Seq<char>, folder: Seq<char>) -> Seq<
    char,
> {
    path_join(download_dir_text(home, root), folder)
}

/// The text of an optional path.
pub open spec fn opt_path(o: Option<String>) -> Option<Seq<char>> {
    match o {
        Some(s) => Some(s@),
        None => None,
    }
}

/// Joins a part onto a platform directory, or onto `.` when there is none.
pub fn join_on_found(found: &Option<String>, part: &str) -> (r: String)
    ensures
        r@ == path_join(dir_or_here(opt_path(*found)), part@),
{
    match found {
        Some(d) => join_path(d.as_str(), part),
        None => {
            let here = ".";
            proof {
                reveal_strlit(".");
            }
            join_path(here, part)
        },
    }
}

/// The file that holds the "continue watching" list.
pub fn watch_items_path() -> (r: String)
    ensures
        exists|found: Option<Seq<char>>|
            r@ == path_join(#[trigger] config_dir_text(found), "continue_watching.json"@),
{
    AppConfig::config_file("continue_watching.json")
}

/// What the stored settings file held when the application started.
#[derive(Debug, Clone)]
pub enum StoredConfig {
    /// There is no settings file.
    Missing,
    /// The file exists but could not be read or parsed.
    Unreadable,
    /// The settings the file holds.
    Found(AppConfig),
}

impl AppConfig {
    /// The application's directory under the given platform configuration
    /// directory.
    pub fn config_dir_in(found: &Option<String>) -> (r: String)
        ensures
            r@ == config_dir_text(opt_path(*found)),
    {
        join_on_found(found, "StreamVault")
    }

    /// The application's configuration directory.
    pub fn config_dir() -> (r: String)
        ensures
            exists|found: Option<Seq<char>>| r@ == config_dir_text(found),
    {
        let found = platform_config_dir();
        let r = Self::config_dir_in(&found);
        assert(r@ == config_dir_text(opt_path(found)));
        r
    }

    /// A file of the application's configuration directory, under the given
    /// platform configuration directory.
    pub fn config_file_in(found: &Option<String>, name: &str) -> (r: String)
        ensures
            r@ == path_join(config_dir_text(opt_path(*found)), name@),
    {
        let dir = Self::config_dir_in(found);
        join_path(dir.as_str(), name)
    }

    /// A file of the application's configuration directory.
    pub fn config_file(name: &str) -> (r: String)
        ensures
            exists|found: Option<Seq<char>>|
                r@ == path_join(#[trigger] config_dir_text(found), name@),
    {
        let found = platform_config_dir();
        let r = Self::config_file_in(&found, name);
        assert(r@ == path_join(config_dir_text(opt_path(found)), name@));
        r
    }

    /// The settings file.
    pub fn config_path() -> (r: String)
        ensures
            exists|found: Option<Seq<char>>|
                r@ == path_join(#[trigger] config_dir_text(found), "config.json"@),
    {
        Self::config_file("config.json")
    }

    /// The settings to run with, given what the settings file held, and
    /// whether they must be written back: the stored settings when there
    /// are some, else the defaults, written only when there was no file.
    pub fn load(stored: StoredConfig) -> (r: (AppConfig, bool))
        ensures
            match stored {
                StoredConfig::Found(c) => r.0 == c && !r.1,
                StoredConfig::Unreadable => is_default_config(r.0) && !r.1,
                StoredConfig::Missing => is_default_config(r.0) && r.1,
            },
    {
        match stored {
            StoredConfig::Found(c) => (c, false),
            StoredConfig::Unreadable => (AppConfig::default(), false),
            StoredConfig::Missing => (AppConfig::default(), true),
        }
    }

    /// The download root under the given home directory.
    pub fn download_dir_in(&self, home: &Option<String>) -> (r: String)
        ensures
            r@ == download_dir_text(opt_path(*home), self.output.root_path@),
    {
        join_on_found(home, self.output.root_path.as_str())
    }

    /// The download root.
    pub fn download_dir(&self) -> (r: String)
        ensures
            exists|home: Option<Seq<char>>| r@ == download_dir_text(home, self.output.root_path@),
    {
        let home = platform_home_dir();
        let r = self.download_dir_in(&home);
        assert(r@ == download_dir_text(opt_path(home), self.output.root_path@));
        r
    }

    /// The film directory under the given home directory.
    pub fn movie_dir_in(&self, home: &Option<String>) -> (r: String)
        ensures
            r@ == media_dir_text(opt_path(*home), self.output.root_path@, self.output.movie_folder_name@),
    {
        let d = self.download_dir_in(home);
        join_path(d.as_str(), self.output.movie_folder_name.as_str())
    }

    /// The show directory under the given home directory.
    pub fn serie_dir_in(&self, home: &Option<String>) -> (r: String)
        ensures
            r@ == media_dir_text(opt_path(*home), self.output.root_path@, self.output.serie_folder_name@),
    {
        let d = self.download_dir_in(home);
        join_path(d.as_str(), self.output.serie_folder_name.as_str())
    }

    /// The directory films are downloaded into.
    pub fn movie_dir(&self) -> (r: String)
        ensures
            exists|home: Option<Seq<char>>| r@ == media_dir_text(home, self.output.root_path@, self.output.movie_folder_name@),
    {
        let home = platform_home_dir();
        let r = self.movie_dir_in(&home);
        assert(r@ == media_dir_text(opt_path(home), self.output.root_path@, self.output.movie_folder_name@));
        r
    }

    /// The directory shows are downloaded into.
    pub fn serie_dir(&self) -> (r: String)
        ensures
            exists|home: Option<Seq<char>>| r@ == media_dir_text(home, self.output.root_path@, self.output.serie_folder_name@),
    {
        let home = platform_home_dir();
        let r = self.serie_dir_in(&home);
        assert(r@ == media_dir_text(opt_path(home), self.output.root_path@, self.output.serie_folder_name@));
        r
    }
}

/// The IEEE-754 double with bit pattern `bits` is the whole number `n`:
/// zero is the all-zero pattern; otherwise the sign bit is clear, the biased
/// exponent `e` and the fraction `m` give `n == (2^52 + m) * 2^(e - 1075)`.
pub open spec fn f64_holds(bits: u64, n: nat) -> bool {
    if n == 0 {
        bits == 0
    } else {
        let e = bits as nat / pow2(52);
        let m = bits as nat % pow2(52);
        1023 <= e <= 1075 && n * pow2((1075 - e) as nat) == pow2(52) + m
    }
}

/// The bit pattern of the double holding a 32-bit whole number.
pub fn f64_bits_of_u32(n: u32) -> (bits: u64)
    ensures
        f64_holds(bits, n as nat),
{
    if n == 0 {
        return 0;
    }
    let nn = n as u64;
    let mut p: u64 = 1;
    let mut k: u64 = 0;
    proof {
        vstd::arithmetic::power2::lemma2_to64();
    }
    while p <= nn / 2
        invariant
            1 <= p <= nn,
            nn == n,
            nn < 0x1_0000_0000,
            p == pow2(k as nat),
            k < 32,
        decreases nn - p,
    {
        p = p * 2;
        k = k + 1;
        proof {
            vstd::arithmetic::power2::lemma_pow2_unfold(k as nat);
            if k >= 32 {
                lemma_pow2_strictly_increases(31, k as nat);
                vstd::arithmetic::power2::lemma2_to64();
            }
        }
    }
    assert(nn < 2 * p);
    let shift: u64 = 52 - k;
    let mut q: u64 = 1;
    let mut j: u64 = 0;
    while j < shift
        invariant
            j <= shift,
            shift == 52 - k,
            k < 32,
            q == pow2(j as nat),
            q <= 0x10_0000_0000_0000,
        decreases shift - j,
    {
        proof {
            vstd::arithmetic::power2::lemma_pow2_unfold((j + 1) as nat);
            if j + 1 < 52 {
                lemma_pow2_strictly_increases((j + 1) as nat, 52);
            }
            vstd::arithmetic::power2::lemma2_to64();
            vstd::arithmetic::power2::lemma2_to64_rest();
            assert(pow2((j + 1) as nat) == 2 * q);
            assert(pow2((j + 1) as nat) <= 0x10_0000_0000_0000);
        }
        q = q * 2;
        j = j + 1;
    }
    proof {
        lemma_pow2_adds(k as nat, shift as nat);
        vstd::arithmetic::power2::lemma2_to64();
        vstd::arithmetic::power2::lemma2_to64_rest();
    }
    assert(p * q == 0x10_0000_0000_0000);
    assert(nn * q < 2 * 0x10_0000_0000_0000) by (nonlinear_arith)
        requires
            nn < 2 * p,
            p * q == 0x10_0000_0000_0000,
            q >= 1,
    ;
    assert(nn * q >= 0x10_0000_0000_0000) by (nonlinear_arith)
        requires
            nn >= p,
            p * q == 0x10_0000_0000_0000,
            q >= 1,
    ;
    let scaled = nn * q;
    let m = scaled - 0x10_0000_0000_0000;
    let e = 1023 + k;
    let bits = e * 0x10_0000_0000_0000 + m;
    proof {
        lemma_fundamental_div_mod_converse(
            bits as int,
            0x10_0000_0000_0000,
            e as int,
            m as int,
        );
    }
    bits
}

/// A title the user has started and where they stopped. `current_time` and
/// `duration` are seconds, each held as the bit pattern of a double.
#[derive(Debug, Clone)]
pub struct WatchItem {
    pub entry: MediaEntry,
    pub current_time: u64,
    pub duration: u64,
    pub season: Option<u32>,
    pub episode: Option<Episode>,
}

/// The values an optional episode holds.
pub open spec fn opt_episode(e: Option<Episode>) -> Option<EpisodeView> {
    match e {
        Some(x) => Some(x@),
        None => None,
    }
}

/// The values a progress record holds.
pub struct ItemView {
    pub entry: EntryView,
    pub current_time: u64,
    pub duration: u64,
    pub season: Option<u32>,
    pub episode: Option<EpisodeView>,
}

impl View for WatchItem {
    type V = ItemView;

    open spec fn view(&self) -> ItemView {
        ItemView {
            entry: self.entry@,
            current_time: self.current_time,
            duration: self.duration,
            season: self.season,
            episode: opt_episode(self.episode),
        }
    }
}

/// Whether the double with these bits is not a number.
pub open spec fn f64_is_nan(a: u64) -> bool {
    (a & 0x7FF0_0000_0000_0000u64) == 0x7FF0_0000_0000_0000u64 && (a & 0x000F_FFFF_FFFF_FFFFu64) != 0
}

/// Whether the doubles with these bits are equal as numbers: never when
/// one is not a number; positive and negative zero are equal.
pub open spec fn f64_bits_eq(a: u64, b: u64) -> bool {
    &&& !f64_is_nan(a)
    &&& !f64_is_nan(b)
    &&& (a == b || ((a & 0x7FFF_FFFF_FFFF_FFFFu64) == 0 && (b & 0x7FFF_FFFF_FFFF_FFFFu64) == 0))
}

/// Compares the doubles with these bits as numbers.
pub fn f64_bits_equal(a: u64, b: u64) -> (r: bool)
    ensures
        r == f64_bits_eq(a, b),
{
    let nan_a = (a & 0x7FF0_0000_0000_0000u64) == 0x7FF0_0000_0000_0000u64 && (a & 0x000F_FFFF_FFFF_FFFFu64) != 0;
    let nan_b = (b & 0x7FF0_0000_0000_0000u64) == 0x7FF0_0000_0000_0000u64 && (b & 0x000F_FFFF_FFFF_FFFFu64) != 0;
    !nan_a && !nan_b && (a == b || ((a & 0x7FFF_FFFF_FFFF_FFFFu64) == 0 && (b & 0x7FFF_FFFF_FFFF_FFFFu64) == 0))
}

/// Two progress records are equal: their other values are the same and
/// their times are equal as numbers.
pub open spec fn item_view_eq(a: ItemView, b: ItemView) -> bool {
    &&& a.entry == b.entry
    &&& f64_bits_eq(a.current_time, b.current_time)
    &&& f64_bits_eq(a.duration, b.duration)
    &&& a.season == b.season
    &&& a.episode == b.episode
}

/// Two progress records are equal, as the records' equality says.
pub open spec fn same_item(a: WatchItem, b: WatchItem) -> bool {
    item_view_eq(a@, b@)
}

impl WatchItem {
    /// A copy holding the same values.
    pub fn duplicate(&self) -> (r: WatchItem)
        ensures
            r@ == self@,
    {
        WatchItem {
            entry: self.entry.duplicate(),
            current_time: self.current_time,
            duration: self.duration,
            season: self.season,
            episode: match &self.episode {
                Some(e) => Some(e.duplicate()),
                None => None,
            },
        }
    }

    /// Whether two records hold the same values.
    pub fn same_as(&self, other: &WatchItem) -> (r: bool)
        ensures
            r == same_item(*self, *other),
    {
        let eps = match (&self.episode, &other.episode) {
            (Some(x), Some(y)) => x.same_as(y),
            (None, None) => true,
            _ => false,
        };
        self.entry.same_as(&other.entry) && f64_bits_equal(self.current_time, other.current_time)
            && f64_bits_equal(self.duration, other.duration) && self.season == other.season && eps
    }
}

/// A title is identified by its provider and its id there.
pub open spec fn key_of(i: WatchItem) -> (usize, u64) {
    (i.entry.provider, i.entry.id)
}

/// The first index, from `i` on, of an item with the key.
pub open spec fn find_key_from(s: Seq<WatchItem>, k: (usize, u64), i: int) -> Option<int>
    decreases s.len() - i,
{
    if i < 0 || i >= s.len() {
        None
    } else if key_of(s[i]) == k {
        Some(i)
    } else {
        find_key_from(s, k, i + 1)
    }
}

/// The first index of an item with the key.
pub open spec fn find_key(s: Seq<WatchItem>, k: (usize, u64)) -> Option<int> {
    find_key_from(s, k, 0)
}

/// The list after recording `item`: it comes first, and the first earlier
/// record of the same title is dropped.
pub open spec fn upserted(s: Seq<WatchItem>, item: WatchItem) -> Seq<WatchItem> {
    match find_key(s, key_of(item)) {
        Some(p) => seq![item] + s.remove(p),
        None => seq![item] + s,
    }
}

/// The list without any record of the title.
pub open spec fn without_key(s: Seq<WatchItem>, k: (usize, u64)) -> Seq<WatchItem> {
    s.filter(|i: WatchItem| key_of(i) != k)
}

/// No title is recorded twice.
pub open spec fn unique_keys(s: Seq<WatchItem>) -> bool {
    forall|a: int, b: int| 0 <= a < b < s.len() ==> key_of(#[trigger] s[a]) != key_of(#[trigger] s[b])
}

proof fn lemma_find_key_skip(s: Seq<WatchItem>, k: (usize, u64), i: int)
    requires
        0 <= i <= s.len(),
        forall|j: int| 0 <= j < i ==> key_of(#[trigger] s[j]) != k,
    ensures
        find_key_from(s, k, 0) == find_key_from(s, k, i),
    decreases i,
{
    if i > 0 {
        lemma_find_key_skip_step(s, k, 0, i);
    }
}

proof fn lemma_find_key_skip_step(s: Seq<WatchItem>, k: (usize, u64), a: int, i: int)
    requires
        0 <= a <= i <= s.len(),
        forall|j: int| 0 <= j < i ==> key_of(#[trigger] s[j]) != k,
    ensures
        find_key_from(s, k, a) == find_key_from(s, k, i),
    decreases i - a,
{
    if a < i {
        assert(key_of(s[a]) != k);
        lemma_find_key_skip_step(s, k, a + 1, i);
    }
}

/// Where `find_key_from` lands, when it does.
proof fn lemma_find_key_found(s: Seq<WatchItem>, k: (usize, u64), i: int)
    requires
        0 <= i,
    ensures
        match find_key_from(s, k, i) {
            Some(p) => i <= p < s.len() && key_of(s[p]) == k && forall|j: int|
                i <= j < p ==> key_of(#[trigger] s[j]) != k,
            None => forall|j: int| i <= j < s.len() ==> key_of(#[trigger] s[j]) != k,
        },
    decreases s.len() - i,
{
    if i < s.len() && key_of(s[i]) != k {
        lemma_find_key_found(s, k, i + 1);
    }
}

/// Records progress on a title: the record goes first, replacing the first
/// earlier record of the same title.
pub fn upsert_watch_item(items: &mut Vec<WatchItem>, item: WatchItem)
    ensures
        final(items)@ == upserted(old(items)@, item),
{
    let ghost s = items@;
    let mut found = false;
    let mut i: usize = 0;
    while i < items.len() && !found
        invariant
            items@ == s,
            i <= s.len(),
            found ==> i < s.len() && key_of(s[i as int]) == key_of(item),
            forall|j: int| 0 <= j < i ==> key_of(#[trigger] s[j]) != key_of(item),
        decreases s.len() - i + (if found {
            0int
        } else {
            1int
        }),
    {
        if items[i].entry.provider == item.entry.provider && items[i].entry.id == item.entry.id {
            found = true;
        } else {
            i = i + 1;
        }
    }
    proof {
        lemma_find_key_skip(s, key_of(item), i as int);
        lemma_find_key_found(s, key_of(item), i as int);
    }
    if found {
        assert(find_key(s, key_of(item)) == Some(i as int));
        items.remove(i);
    } else {
        assert(find_key(s, key_of(item)) == None::<int>);
    }
    items.insert(0, item);
}

proof fn lemma_without_key_push(s: Seq<WatchItem>, x: WatchItem, k: (usize, u64))
    ensures
        without_key(s.push(x), k) == (if key_of(x) != k {
            without_key(s, k).push(x)
        } else {
            without_key(s, k)
        }),
{
    reveal(Seq::filter);
    assert(s.push(x).drop_last() =~= s);
}

/// Forgets every record of a title.
pub fn remove_watch_item(items: &mut Vec<WatchItem>, provider: usize, id: u64)
    ensures
        final(items)@ == without_key(old(items)@, (provider, id)),
{
    let ghost s = items@;
    let ghost k = (provider, id);
    let mut kept: Vec<WatchItem> = Vec::new();
    let mut i: usize = 0;
    let n0 = items.len();
    assert(s.len() == n0);
    assert(items@ =~= s.skip(0));
    while items.len() > 0
        invariant
            i + items@.len() == s.len(),
            s.len() <= usize::MAX,
            k == (provider, id),
            items@ =~= s.skip(i as int),
            kept@ == without_key(s.take(i as int), k),
        decreases items@.len(),
    {
        let it = items.remove(0);
        assert(it == s[i as int]);
        let ghost before = kept@;
        if it.entry.provider != provider || it.entry.id != id {
            kept.push(it);
            assert(kept@ == before.push(s[i as int]));
        }
        proof {
            assert(s.take(i + 1) =~= s.take(i as int).push(s[i as int]));
            lemma_without_key_push(s.take(i as int), s[i as int], k);
        }
        i = i + 1;
        assert(items@ =~= s.skip(i as int));
    }
    assert(s.take(s.len() as int) =~= s);
    *items = kept;
}

/// `i` is where watching goes on after episode `cur`: the first of the
/// episodes with the smallest number above `cur`.
pub open spec fn is_next_episode(eps: Seq<Episode>, cur: u32, i: int) -> bool {
    &&& 0 <= i < eps.len()
    &&& eps[i].number > cur
    &&& forall|j: int| 0 <= j < eps.len() && #[trigger] eps[j].number > cur ==> eps[i].number <= eps[j].number
    &&& forall|j: int| 0 <= j < i && #[trigger] eps[j].number > cur ==> eps[i].number < eps[j].number
}

/// Some episode has a number above `cur`.
pub open spec fn has_later_episode(eps: Seq<Episode>, cur: u32) -> bool {
    exists|j: int| 0 <= j < eps.len() && #[trigger] eps[j].number > cur
}

/// `bits` is the length in seconds an episode reports, or 0 when it
/// reports none.
pub open spec fn duration_holds(bits: u64, d: Option<u32>) -> bool {
    match d {
        Some(n) => f64_holds(bits, n as nat),
        None => bits == 0,
    }
}

/// The record that starts `ep` of `entry` from the beginning.
pub open spec fn starts_episode(it: WatchItem, entry: MediaEntry, ep: Episode, season: u32) -> bool {
    &&& it.entry == entry
    &&& it.current_time == 0
    &&& duration_holds(it.duration, ep.duration)
    &&& it.season == Some(season)
    &&& it.episode matches Some(e) && same_episode(e, ep)
}

/// The index of the episode that follows episode `cur`, if any.
pub fn next_episode_index(episodes: &[Episode], cur: u32) -> (r: Option<usize>)
    ensures
        match r {
            Some(i) => is_next_episode(episodes@, cur, i as int),
            None => !has_later_episode(episodes@, cur),
        },
{
    let mut best: Option<usize> = None;
    let mut i: usize = 0;
    while i < episodes.len()
        invariant
            i <= episodes@.len(),
            match best {
                Some(b) => is_next_episode(episodes@.take(i as int), cur, b as int),
                None => !has_later_episode(episodes@.take(i as int), cur),
            },
        decreases episodes@.len() - i,
    {
        let n = episodes[i].number;
        let ghost pre = episodes@.take(i as int);
        let ghost post = episodes@.take(i + 1);
        assert(post =~= pre.push(episodes@[i as int]));
        if n > cur {
            match best {
                Some(b) => {
                    if n < episodes[b].number {
                        best = Some(i);
                        assert(is_next_episode(post, cur, i as int)) by {
                            assert forall|j: int| 0 <= j < post.len() && #[trigger] post[j].number > cur implies post[i as int].number <= post[j].number by {
                                if j < i {
                                    assert(pre[j].number > cur);
                                }
                            }
                            assert forall|j: int| 0 <= j < i && #[trigger] post[j].number > cur implies post[i as int].number < post[j].number by {
                                assert(pre[j].number > cur);
                            }
                        }
                    } else {
                        assert(is_next_episode(post, cur, b as int)) by {
                            assert forall|j: int| 0 <= j < post.len() && #[trigger] post[j].number > cur implies post[b as int].number <= post[j].number by {
                                if j < i {
                                    assert(pre[j].number > cur);
                                }
                            }
                            assert forall|j: int| 0 <= j < b && #[trigger] post[j].number > cur implies post[b as int].number < post[j].number by {
                                assert(pre[j].number > cur);
                            }
                        }
                    }
                },
                None => {
                    best = Some(i);
                    assert(is_next_episode(post, cur, i as int)) by {
                        assert forall|j: int| 0 <= j < post.len() && #[trigger] post[j].number > cur implies post[i as int].number <= post[j].number by {
                            if j < i {
                                assert(pre[j].number > cur);
                            }
                        }
                        assert forall|j: int| 0 <= j < i && #[trigger] post[j].number > cur implies post[i as int].number < post[j].number by {
                            assert(pre[j].number > cur);
                        }
                    }
                },
            }
        } else {
            match best {
                Some(b) => {
                    assert(is_next_episode(post, cur, b as int)) by {
                        assert forall|j: int| 0 <= j < post.len() && #[trigger] post[j].number > cur implies post[b as int].number <= post[j].number by {
                            if j < i {
                                assert(pre[j].number > cur);
                            }
                        }
                        assert forall|j: int| 0 <= j < b && #[trigger] post[j].number > cur implies post[b as int].number < post[j].number by {
                            assert(pre[j].number > cur);
                        }
                    }
                },
                None => {
                    assert(!has_later_episode(post, cur)) by {
                        if has_later_episode(post, cur) {
                            let j = choose|j: int| 0 <= j < post.len() && #[trigger] post[j].number > cur;
                            if j < i {
                                assert(pre[j].number > cur);
                            }
                        }
                    }
                },
            }
        }
        i = i + 1;
    }
    assert(episodes@.take(episodes@.len() as int) =~= episodes@);
    best
}

/// Moves the record of a show on to the episode after `cur_ep`, from its
/// start; says whether there was such an episode (the list is unchanged
/// when there is none).
pub fn advance_watch_item(
    items: &mut Vec<WatchItem>,
    entry: MediaEntry,
    episodes: &[Episode],
    cur_ep: u32,
    season: u32,
) -> (r: bool)
    ensures
        r == has_later_episode(episodes@, cur_ep),
        !r ==> final(items)@ == old(items)@,
        r ==> exists|i: int, it: WatchItem|
            #![trigger is_next_episode(episodes@, cur_ep, i), upserted(old(items)@, it)]
            is_next_episode(episodes@, cur_ep, i) && starts_episode(
                it,
                entry,
                episodes@[i],
                season,
            ) && final(items)@ == upserted(old(items)@, it),
{
    match next_episode_index(episodes, cur_ep) {
        Some(i) => {
            let next = &episodes[i];
            let duration = match next.duration {
                Some(d) => f64_bits_of_u32(d),
                None => 0,
            };
            let item = WatchItem {
                entry,
                current_time: 0,
                duration,
                season: Some(season),
                episode: Some(next.duplicate()),
            };
            assert(is_next_episode(episodes@, cur_ep, i as int));
            assert(has_later_episode(episodes@, cur_ep));
            let ghost old_items = items@;
            upsert_watch_item(items, item);
            assert(starts_episode(item, entry, episodes@[i as int], season));
            assert(items@ == upserted(old_items, item));
            true
        },
        None => false,
    }
}

/// After progress is recorded, the record is first, and the list grew by
/// one exactly when the title was not there before.
pub proof fn law_upsert_puts_item_first(s: Seq<WatchItem>, item: WatchItem)
    ensures
        upserted(s, item)[0] == item,
        upserted(s, item).len() == s.len() + (if find_key(s, key_of(item)) is Some {
            0int
        } else {
            1int
        }),
{
    lemma_find_key_found(s, key_of(item), 0);
}

/// Recording progress never lists a title twice, if it was listed at most
/// once before.
pub proof fn law_upsert_keeps_titles_unique(s: Seq<WatchItem>, item: WatchItem)
    requires
        unique_keys(s),
    ensures
        unique_keys(upserted(s, item)),
{
    let k = key_of(item);
    lemma_find_key_found(s, k, 0);
    let u = upserted(s, item);
    match find_key(s, k) {
        Some(p) => {
            let rest = s.remove(p);
            assert forall|a: int, b: int| 0 <= a < b < u.len() implies key_of(#[trigger] u[a])
                != key_of(#[trigger] u[b]) by {
                if a == 0 {
                    let jb = if b - 1 < p { b - 1 } else { b };
                    assert(u[b] == s[jb]);
                    assert(jb != p);
                } else {
                    let ja = if a - 1 < p { a - 1 } else { a };
                    let jb = if b - 1 < p { b - 1 } else { b };
                    assert(u[a] == s[ja]);
                    assert(u[b] == s[jb]);
                }
            }
        },
        None => {
            assert forall|a: int, b: int| 0 <= a < b < u.len() implies key_of(#[trigger] u[a])
                != key_of(#[trigger] u[b]) by {
                assert(u[b] == s[b - 1]);
                if a > 0 {
                    assert(u[a] == s[a - 1]);
                }
            }
        },
    }
}

/// Recording the same progress twice is the same as recording it once.
pub proof fn law_upsert_twice_is_once(s: Seq<WatchItem>, item: WatchItem)
    ensures
        upserted(upserted(s, item), item) == upserted(s, item),
{
    let u = upserted(s, item);
    lemma_find_key_found(s, key_of(item), 0);
    assert(find_key(u, key_of(item)) == Some(0int));
    assert(seq![item] + u.remove(0) =~= u);
}

proof fn lemma_without_key_remove(s: Seq<WatchItem>, p: int, k: (usize, u64))
    requires
        0 <= p < s.len(),
        key_of(s[p]) == k,
    ensures
        without_key(s.remove(p), k) == without_key(s, k),
{
    broadcast use Seq::filter_distributes_over_add;
    let pred = |i: WatchItem| key_of(i) != k;
    assert(s =~= s.take(p) + seq![s[p]] + s.skip(p + 1));
    assert(s.remove(p) =~= s.take(p) + s.skip(p + 1));
    reveal(Seq::filter);
    assert(seq![s[p]].filter(pred) =~= Seq::<WatchItem>::empty()) by {
        reveal_with_fuel(Seq::filter, 2);
        assert(seq![s[p]].drop_last() =~= Seq::<WatchItem>::empty());
    }
    assert((s.take(p) + seq![s[p]]).filter(pred) == s.take(p).filter(pred) + seq![s[p]].filter(
        pred,
    ));
    assert(s.take(p).filter(pred) + Seq::<WatchItem>::empty() =~= s.take(p).filter(pred));
}

/// Forgetting a title right after recording progress on it leaves what
/// forgetting it would have left before.
pub proof fn law_remove_undoes_upsert(s: Seq<WatchItem>, item: WatchItem)
    ensures
        without_key(upserted(s, item), key_of(item)) == without_key(s, key_of(item)),
{
    broadcast use Seq::filter_distributes_over_add;
    let k = key_of(item);
    let pred = |i: WatchItem| key_of(i) != k;
    lemma_find_key_found(s, k, 0);
    reveal(Seq::filter);
    assert(seq![item].filter(pred) =~= Seq::<WatchItem>::empty()) by {
        reveal_with_fuel(Seq::filter, 2);
        assert(seq![item].drop_last() =~= Seq::<WatchItem>::empty());
    }
    match find_key(s, k) {
        Some(p) => {
            lemma_without_key_remove(s, p, k);
            assert((seq![item] + s.remove(p)).filter(pred) == seq![item].filter(pred) + s.remove(
                p,
            ).filter(pred));
            assert(Seq::<WatchItem>::empty() + s.remove(p).filter(pred) =~= s.remove(p).filter(
                pred,
            ));
        },
        None => {
            assert((seq![item] + s).filter(pred) == seq![item].filter(pred) + s.filter(pred));
            assert(Seq::<WatchItem>::empty() + s.filter(pred) =~= s.filter(pred));
        },
    }
}

/// After a title is forgotten no record of it is left, and titles stay
/// listed at most once.
pub proof fn law_remove_forgets_title(s: Seq<WatchItem>, k: (usize, u64))
    ensures
        forall|i: int|
            0 <= i < without_key(s, k).len() ==> key_of(#[trigger] without_key(s, k)[i]) != k,
        unique_keys(s) ==> unique_keys(without_key(s, k)),
    decreases s.len(),
{
    broadcast use Seq::lemma_filter_pred;
    let pred = |i: WatchItem| key_of(i) != k;
    assert forall|i: int| 0 <= i < without_key(s, k).len() implies key_of(
        #[trigger] without_key(s, k)[i],
    ) != k by {
        assert(pred(s.filter(pred)[i]));
    }
    if s.len() > 0 {
        let r = s.drop_last();
        law_remove_forgets_title(r, k);
        assert(s =~= r.push(s.last()));
        lemma_without_key_push(r, s.last(), k);
        if unique_keys(s) {
            assert(unique_keys(r)) by {
                assert forall|a: int, b: int| 0 <= a < b < r.len() implies key_of(#[trigger] r[a])
                    != key_of(#[trigger] r[b]) by {
                    assert(s[a] == r[a]);
                    assert(s[b] == r[b]);
                }
            }
            let w = without_key(r, k);
            if key_of(s.last()) != k {
                assert forall|a: int| 0 <= a < w.len() implies key_of(#[trigger] w[a]) != key_of(
                    s.last(),
                ) by {
                    assert(w.contains(w[a]));
                    r.lemma_filter_contains_rev(pred, w[a]);
                    let j = choose|j: int| 0 <= j < r.len() && r[j] == w[a];
                    assert(s[j] == r[j]);
                    assert(key_of(s[j]) != key_of(s[s.len() - 1]));
                }
                let ws = w.push(s.last());
                assert forall|a: int, b: int| 0 <= a < b < ws.len() implies key_of(
                    #[trigger] ws[a],
                ) != key_of(#[trigger] ws[b]) by {
                    if b == ws.len() - 1 {
                        assert(ws[a] == w[a]);
                    } else {
                        assert(ws[a] == w[a]);
                        assert(ws[b] == w[b]);
                    }
                }
            }
        }
    }
}

/// Player preferences: the preferred audio and subtitle languages, whether
/// subtitles are on, and the playback speed (the bit pattern of a double).
#[derive(Debug, Clone)]
pub struct PlayerPrefs {
    pub audio_lang: String,
    pub subtitle_lang: String,
    pub subtitles_on: bool,
    pub speed: u64,
}

/// The values a set of preferences holds.
pub struct PrefsView {
    pub audio_lang: Seq<char>,
    pub subtitle_lang: Seq<char>,
    pub subtitles_on: bool,
    pub speed: u64,
}

impl View for PlayerPrefs {
    type V = PrefsView;

    open spec fn view(&self) -> PrefsView {
        PrefsView {
            audio_lang: self.audio_lang@,
            subtitle_lang: self.subtitle_lang@,
            subtitles_on: self.subtitles_on,
            speed: self.speed,
        }
    }
}

/// Two sets of preferences are equal: the same languages and subtitle
/// choice, and speeds equal as numbers.
pub open spec fn prefs_view_eq(a: PrefsView, b: PrefsView) -> bool {
    &&& a.audio_lang == b.audio_lang
    &&& a.subtitle_lang == b.subtitle_lang
    &&& a.subtitles_on == b.subtitles_on
    &&& f64_bits_eq(a.speed, b.speed)
}

/// The preferences of a user who never set any: no languages, subtitles
/// off, speed zero.
pub open spec fn default_prefs() -> PrefsView {
    PrefsView {
        audio_lang: Seq::empty(),
        subtitle_lang: Seq::empty(),
        subtitles_on: false,
        speed: 0,
    }
}

impl Default for PlayerPrefs {
    fn default() -> (r: Self)
        ensures
            r@ == default_prefs(),
    {
        PlayerPrefs {
            audio_lang: String::new(),
            subtitle_lang: String::new(),
            subtitles_on: false,
            speed: 0,
        }
    }
}

impl PlayerPrefs {
    /// A copy holding the same values.
    pub fn duplicate(&self) -> (r: PlayerPrefs)
        ensures
            r@ == self@,
    {
        PlayerPrefs {
            audio_lang: self.audio_lang.clone(),
            subtitle_lang: self.subtitle_lang.clone(),
            subtitles_on: self.subtitles_on,
            speed: self.speed,
        }
    }

    /// Whether two sets of preferences are equal (speeds compared as
    /// numbers).
    pub fn same_as(&self, other: &PlayerPrefs) -> (r: bool)
        ensures
            r == prefs_view_eq(self@, other@),
    {
        self.audio_lang == other.audio_lang && self.subtitle_lang == other.subtitle_lang
            && self.subtitles_on == other.subtitles_on && f64_bits_equal(self.speed, other.speed)
    }
}

impl AppConfig {
    /// A copy holding the same values.
    pub fn duplicate(&self) -> (r: AppConfig)
        ensures
            r == *self,
    {
        AppConfig {
            output: OutputConfig {
                root_path: self.output.root_path.clone(),
                movie_folder_name: self.output.movie_folder_name.clone(),
                serie_folder_name: self.output.serie_folder_name.clone(),
                map_episode_name: self.output.map_episode_name.clone(),
            },
            download: DownloadConfig {
                thread_count: self.download.thread_count,
                retry_count: self.download.retry_count,
                concurrent_download: self.download.concurrent_download,
                max_speed: self.download.max_speed.clone(),
                select_video: self.download.select_video.clone(),
                select_audio: self.download.select_audio.clone(),
                select_subtitle: self.download.select_subtitle.clone(),
            },
            process: ProcessConfig {
                use_gpu: self.process.use_gpu,
                merge_audio: self.process.merge_audio,
                merge_subtitle: self.process.merge_subtitle,
                extension: self.process.extension.clone(),
            },
            requests: RequestsConfig {
                timeout: self.requests.timeout,
                max_retry: self.requests.max_retry,
                use_proxy: self.requests.use_proxy,
                proxy_url: self.requests.proxy_url.clone(),
            },
        }
    }
}

} // verus!
