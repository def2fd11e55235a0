//! Downloads: where files go, how they are named, and the decisions taken
//! around the external downloader and muxer.
use crate::config::{media_dir_text, opt_path, platform_home_dir, AppConfig};
use crate::order::{sort_by_weight_desc, stably_sorted_desc};
use crate::providers::models::texts;
use crate::text::{
    chars_of, contains, contains_exec, decimal, decimal_chars, extend_chars, extend_str,
    first_n, has_prefix, join_chars, join_path, joined, last_n, lines_of, occurs_at_exec, pad2,
    pad2_chars, path_join, replace_all, replace_all_exec, string_of, text_lines, trim_chars,
    trimmed,
};
use vstd::prelude::*;

verus! {

/// Characters that file systems refuse in a file name.
pub open spec fn is_unsafe_in_name(c: char) -> bool {
    c == '/' || c == '\\' || c == ':' || c == '*' || c == '?' || c == '"' || c == '<' || c == '>'
        || c == '|'
}

/// A name with every such character replaced by `_`.
pub open spec fn sanitized(name: Seq<char>) -> Seq<char> {
    name.map_values(|c: char| if is_unsafe_in_name(c) { '_' } else { c })
}

/// Makes a title usable as a file name.
pub fn sanitize_filename(name: &str) -> (r: String)
    ensures
        r@ == sanitized(name@),
{
    let v = chars_of(name);
    let mut out: Vec<char> = Vec::new();
    let mut i: usize = 0;
    while i < v.len()
        invariant
            i <= v@.len(),
            v@ == name@,
            out@ =~= sanitized(v@.take(i as int)),
        decreases v@.len() - i,
    {
        let c = v[i];
        let safe = if c == '/' || c == '\\' || c == ':' || c == '*' || c == '?' || c == '"' || c
            == '<' || c == '>' || c == '|' {
            '_'
        } else {
            c
        };
        out.push(safe);
        assert(v@.take(i + 1) =~= v@.take(i as int).push(c));
        i = i + 1;
    }
    assert(v@.take(v@.len() as int) =~= v@);
    string_of(&out)
}

/// Where a tool may be installed besides the application's own folder, in
/// the order they are tried.
pub open spec fn binary_candidate_paths(name: Seq<char>, home: Option<Seq<char>>) -> Seq<Seq<char>> {
    seq![
        "/opt/homebrew/bin/"@ + name,
        "/usr/local/bin/"@ + name,
        "/usr/bin/"@ + name,
        path_join(path_join(match home {
            Some(h) => h,
            None => Seq::empty(),
        }, ".local/bin"@), name),
    ]
}

/// Where a tool may be installed, given the home directory.
pub fn binary_candidates(name: &str, home: &Option<String>) -> (r: Vec<String>)
    ensures
        texts(r@) == binary_candidate_paths(name@, opt_path(*home)),
{
    let mut v: Vec<String> = Vec::new();
    let mut a = chars_of("/opt/homebrew/bin/");
    extend_str(&mut a, name);
    let mut b = chars_of("/usr/local/bin/");
    extend_str(&mut b, name);
    let mut c = chars_of("/usr/bin/");
    extend_str(&mut c, name);
    let h = match home {
        Some(h) => h.clone(),
        None => String::new(),
    };
    let local = join_path(h.as_str(), ".local/bin");
    let d = join_path(local.as_str(), name);
    push_text(&mut v, string_of(&a).as_str());
    push_text(&mut v, string_of(&b).as_str());
    push_text(&mut v, string_of(&c).as_str());
    push_text(&mut v, d.as_str());
    assert(texts(v@) =~= binary_candidate_paths(name@, opt_path(*home)));
    v
}

/// Where a download stands.
#[derive(Debug, Clone)]
pub enum DownloadStatus {
    Queued,
    Downloading,
    Muxing,
    Completed,
    Failed(String),
}

/// A download as the user sees it; `id` is the request's UUID as a number.
#[derive(Debug, Clone)]
pub struct DownloadProgress {
    pub id: u128,
    pub title: String,
    pub status: DownloadStatus,
}

impl DownloadProgress {
    /// A download that has not started yet.
    pub fn new(id: u128, title: String) -> (r: DownloadProgress)
        ensures
            r.id == id,
            r.title == title,
            r.status is Queued,
    {
        DownloadProgress { id, title, status: DownloadStatus::Queued }
    }
}

/// What to download and where.
#[derive(Debug, Clone)]
pub struct DownloadRequest {
    pub id: u128,
    pub title: String,
    pub stream_url: String,
    pub output_dir: String,
    pub filename: String,
    pub headers: Vec<(String, String)>,
}

/// Downloads streams with the user's settings.
pub struct DownloadEngine {
    pub config: AppConfig,
}

/// The episode file name: the user's pattern with `%(episode_name)`,
/// `%(season)`, `%(episode)` and `%(show_name)` filled in, in that order,
/// numbers zero-padded to two digits.
pub open spec fn episode_file_name(
    pattern: Seq<char>,
    show: Seq<char>,
    season: u32,
    ep: u32,
    ep_name: Seq<char>,
) -> Seq<char> {
    let a = replace_all(pattern, "%(episode_name)"@, ep_name);
    let b = replace_all(a, "%(season)"@, pad2(season as nat));
    let c = replace_all(b, "%(episode)"@, pad2(ep as nat));
    replace_all(c, "%(show_name)"@, show)
}

/// The folder a title is downloaded into.
pub open spec fn output_path_text(
    home: Option<Seq<char>>,
    c: AppConfig,
    title: Seq<char>,
    is_movie: bool,
) -> Seq<char> {
    let folder = if is_movie {
        c.output.movie_folder_name@
    } else {
        c.output.serie_folder_name@
    };
    path_join(media_dir_text(home, c.output.root_path@, folder), sanitized(title))
}

/// The season folder of a show.
pub open spec fn season_path_text(
    home: Option<Seq<char>>,
    c: AppConfig,
    show: Seq<char>,
    season: u32,
) -> Seq<char> {
    path_join(
        path_join(
            media_dir_text(home, c.output.root_path@, c.output.serie_folder_name@),
            sanitized(show),
        ),
        seq!['S'] + pad2(season as nat),
    )
}

impl DownloadEngine {
    /// An engine using the given settings.
    pub fn new(config: AppConfig) -> (r: DownloadEngine)
        ensures
            r.config == config,
    {
        DownloadEngine { config }
    }

    /// The folder a title is downloaded into, under the given home
    /// directory.
    pub fn build_output_path_in(&self, home: &Option<String>, title: &str, is_movie: bool) -> (r:
        String)
        ensures
            r@ == output_path_text(opt_path(*home), self.config, title@, is_movie),
    {
        let base = if is_movie {
            self.config.movie_dir_in(home)
        } else {
            self.config.serie_dir_in(home)
        };
        let name = sanitize_filename(title);
        join_path(base.as_str(), name.as_str())
    }

    /// The folder a title is downloaded into.
    pub fn build_output_path(&self, title: &str, is_movie: bool) -> (r: String)
        ensures
            exists|home: Option<Seq<char>>| r@ == output_path_text(home, self.config, title@, is_movie),
    {
        let home = platform_home_dir();
        let r = self.build_output_path_in(&home, title, is_movie);
        assert(r@ == output_path_text(opt_path(home), self.config, title@, is_movie));
        r
    }

    /// The season folder of a show, under the given home directory.
    pub fn build_series_episode_path_in(&self, home: &Option<String>, show: &str, season: u32) -> (r:
        String)
        ensures
            r@ == season_path_text(opt_path(*home), self.config, show@, season),
    {
        let base = self.config.serie_dir_in(home);
        let name = sanitize_filename(show);
        let show_dir = join_path(base.as_str(), name.as_str());
        let mut v: Vec<char> = Vec::new();
        v.push('S');
        let digits = pad2_chars(season as u64);
        extend_chars(&mut v, &digits);
        assert(v@ =~= seq!['S'] + pad2(season as nat));
        let part = string_of(&v);
        join_path(show_dir.as_str(), part.as_str())
    }

    /// The season folder of a show: `S` and the zero-padded season number,
    /// in the show's folder.
    pub fn build_series_episode_path(&self, show: &str, season: u32) -> (r: String)
        ensures
            exists|home: Option<Seq<char>>| r@ == season_path_text(home, self.config, show@, season),
    {
        let home = platform_home_dir();
        let r = self.build_series_episode_path_in(&home, show, season);
        assert(r@ == season_path_text(opt_path(home), self.config, show@, season));
        r
    }

    /// The file name of an episode, from the user's naming pattern.
    pub fn format_episode_name(&self, show: &str, season: u32, ep: u32, ep_name: &str) -> (r:
        String)
        ensures
            r@ == episode_file_name(self.config.output.map_episode_name@, show@, season, ep, ep_name@),
    {
        Self::format_with(&self.config, show, season, ep, ep_name)
    }

    /// The file name of an episode, from the naming pattern of some settings.
    pub(crate) fn format_with(config: &AppConfig, show: &str, season: u32, ep: u32, ep_name: &str) -> (r:
        String)
        ensures
            r@ == episode_file_name(config.output.map_episode_name@, show@, season, ep, ep_name@),
    {
        let pattern = chars_of(config.output.map_episode_name.as_str());
        let k1 = chars_of("%(episode_name)");
        let k2 = chars_of("%(season)");
        let k3 = chars_of("%(episode)");
        let k4 = chars_of("%(show_name)");
        proof {
            reveal_strlit("%(episode_name)");
            reveal_strlit("%(season)");
            reveal_strlit("%(episode)");
            reveal_strlit("%(show_name)");
        }
        let a = replace_all_exec(&pattern, &k1, &chars_of(ep_name));
        let b = replace_all_exec(&a, &k2, &pad2_chars(season as u64));
        let c = replace_all_exec(&b, &k3, &pad2_chars(ep as u64));
        let d = replace_all_exec(&c, &k4, &chars_of(show));
        string_of(&d)
    }
}

/// Appends a copy of a text to a list of texts.
fn push_text(v: &mut Vec<String>, s: &str)
    ensures
        texts(final(v)@) == texts(old(v)@).push(s@),
{
    let ghost before = v@;
    v.push(s.to_owned());
    assert(texts(v@) =~= texts(before).push(s@));
}

/// `args` when `b` holds, else nothing.
pub open spec fn args_if(b: bool, args: Seq<Seq<char>>) -> Seq<Seq<char>> {
    if b {
        args
    } else {
        Seq::empty()
    }
}

/// One `--header` argument pair per request header, `name: value`.
pub open spec fn header_args(h: Seq<(String, String)>) -> Seq<Seq<char>>
    decreases h.len(),
{
    if h.len() == 0 {
        Seq::empty()
    } else {
        header_args(h.drop_last()) + seq!["--header"@, h.last().0@ + ": "@ + h.last().1@]
    }
}

/// The command line of the downloader (after the program) for a request.
pub open spec fn downloader_args_text(c: AppConfig, req: DownloadRequest, ffmpeg: Seq<char>) -> Seq<
    Seq<char>,
> {
    seq![
        req.stream_url@,
        "--save-name"@,
        sanitized(req.filename@),
        "--save-dir"@,
        req.output_dir@,
        "--tmp-dir"@,
        req.output_dir@,
        "--ffmpeg-binary-path"@,
        ffmpeg,
        "--no-log"@,
        "--write-meta-json"@,
        "false"@,
        "--binary-merge"@,
        "--del-after-done"@,
        "--auto-subtitle-fix"@,
        "false"@,
        "--check-segments-count"@,
        "true"@,
        "--force-ansi-console"@,
        "--no-ansi-color"@,
    ] + args_if(c.download.concurrent_download, seq!["--concurrent-download"@]) + seq![
        "--thread-count"@,
        decimal(c.download.thread_count as nat),
        "--download-retry-count"@,
        decimal(c.download.retry_count as nat),
    ] + args_if(c.download.max_speed@.len() > 0, seq!["--max-speed"@, c.download.max_speed@])
        + seq![
        "--select-video"@,
        c.download.select_video@,
        "--select-audio"@,
        c.download.select_audio@,
        "--select-subtitle"@,
        c.download.select_subtitle@,
    ] + args_if(!c.process.merge_audio, seq!["--drop-audio"@, "all"@]) + header_args(req.headers@)
}

/// A line of the downloader's output announces muxing.
pub open spec fn muxing_line(line: Seq<char>) -> bool {
    contains(line, "Muxing"@) || contains(line, "muxing"@) || contains(line, "MUX"@)
}

/// A line of the downloader's error output worth showing: not blank, not
/// a stack frame (`at ...`) and not a separator (`---...`).
pub open spec fn is_error_line(l: Seq<char>) -> bool {
    trimmed(l).len() > 0 && !has_prefix(trimmed(l), "at "@) && !has_prefix(trimmed(l), "---"@)
}

/// A line of the muxer's error output worth showing: not blank and not a
/// progress line (`frame=...`).
pub open spec fn is_mux_error_line(l: Seq<char>) -> bool {
    trimmed(l).len() > 0 && !has_prefix(trimmed(l), "frame="@)
}

/// Why the downloader failed: its exit status and the first five error
/// lines worth showing, on lines of their own.
pub open spec fn downloader_failure_text(exit: Seq<char>, stderr: Seq<char>) -> Seq<char> {
    let shown = joined(first_n(lines_of(stderr).filter(|l: Seq<char>| is_error_line(l)), 5), "\n"@);
    if shown.len() == 0 {
        "N_m3u8DL-RE exited: "@ + exit
    } else {
        "N_m3u8DL-RE exited: "@ + exit + "\n"@ + shown
    }
}

/// Why the muxer failed: its exit status and the last five error lines
/// worth showing.
pub open spec fn mux_failure_text(status: Seq<char>, stderr: Seq<char>) -> Seq<char> {
    "ffmpeg exited: "@ + status + "\n"@ + joined(
        last_n(lines_of(stderr).filter(|l: Seq<char>| is_mux_error_line(l)), 5),
        "\n"@,
    )
}

/// What to do once the downloader has exited.
#[derive(Debug, Clone)]
pub enum AfterExit {
    /// Mux the downloaded segments.
    Mux,
    /// Report the failure.
    Fail(String),
}

/// Lines of a text that satisfy a filter, in order.
fn kept_lines(ls: &Vec<Vec<char>>, mux: bool) -> (r: Vec<Vec<char>>)
    ensures
        r@.map_values(|l: Vec<char>| l@) == (if mux {
            ls@.map_values(|l: Vec<char>| l@).filter(|l: Seq<char>| is_mux_error_line(l))
        } else {
            ls@.map_values(|l: Vec<char>| l@).filter(|l: Seq<char>| is_error_line(l))
        }),
{
    let ghost v = ls@.map_values(|l: Vec<char>| l@);
    let ghost pred = if mux {
        |l: Seq<char>| is_mux_error_line(l)
    } else {
        |l: Seq<char>| is_error_line(l)
    };
    let at = chars_of("at ");
    let dashes = chars_of("---");
    let frame = chars_of("frame=");
    let mut out: Vec<Vec<char>> = Vec::new();
    let mut i: usize = 0;
    while i < ls.len()
        invariant
            i <= ls@.len(),
            v == ls@.map_values(|l: Vec<char>| l@),
            pred == (if mux {
                |l: Seq<char>| is_mux_error_line(l)
            } else {
                |l: Seq<char>| is_error_line(l)
            }),
            at@ == "at "@,
            dashes@ == "---"@,
            frame@ == "frame="@,
            out@.map_values(|l: Vec<char>| l@) == v.take(i as int).filter(pred),
        decreases ls@.len() - i,
    {
        let t = trim_chars(&ls[i]);
        let keep = if mux {
            t.len() > 0 && !occurs_at_exec(&t, &frame, 0)
        } else {
            t.len() > 0 && !occurs_at_exec(&t, &at, 0) && !occurs_at_exec(&t, &dashes, 0)
        };
        assert(keep == pred(v[i as int]));
        let ghost before = out@;
        if keep {
            let mut copy: Vec<char> = Vec::new();
            extend_chars(&mut copy, &ls[i]);
            assert(copy@ =~= ls@[i as int]@);
            out.push(copy);
        }
        proof {
            assert(v.take(i + 1) =~= v.take(i as int).push(v[i as int]));
            reveal(Seq::filter);
            assert(v.take(i + 1).drop_last() =~= v.take(i as int));
            if keep {
                assert(out@.map_values(|l: Vec<char>| l@) =~= before.map_values(|l: Vec<char>| l@).push(v[i as int]));
            } else {
                assert(out@.map_values(|l: Vec<char>| l@) =~= before.map_values(|l: Vec<char>| l@));
            }
        }
        i = i + 1;
    }
    assert(v.take(ls@.len() as int) =~= v);
    out
}

/// The lines of a text, as a list of character lists.
fn lines_view(s: &str) -> (r: Vec<Vec<char>>)
    ensures
        r@.map_values(|l: Vec<char>| l@) == lines_of(s@),
{
    let r = text_lines(&chars_of(s));
    assert(r@.map_values(|l: Vec<char>| l@) =~= lines_of(s@));
    r
}

/// Whether a line of the downloader's output announces muxing.
pub fn signals_muxing(line: &str) -> (r: bool)
    ensures
        r == muxing_line(line@),
{
    let l = chars_of(line);
    let a = chars_of("Muxing");
    let b = chars_of("muxing");
    let c = chars_of("MUX");
    contains_exec(&l, &a) || contains_exec(&l, &b) || contains_exec(&l, &c)
}

/// The failure message once the downloader has exited unsuccessfully
/// with nothing to mux; `exit` is its exit status as text.
pub fn downloader_failure(exit: &str, stderr: &str) -> (r: String)
    ensures
        r@ == downloader_failure_text(exit@, stderr@),
{
    let lines = lines_view(stderr);
    let kept = kept_lines(&lines, false);
    let mut first: Vec<Vec<char>> = Vec::new();
    let mut i: usize = 0;
    while i < kept.len() && i < 5
        invariant
            i <= kept@.len(),
            i <= 5,
            first@.map_values(|l: Vec<char>| l@) =~= kept@.map_values(|l: Vec<char>| l@).take(
                i as int,
            ),
        decreases 5 - i,
    {
        let mut copy: Vec<char> = Vec::new();
        extend_chars(&mut copy, &kept[i]);
        assert(copy@ =~= kept@[i as int]@);
        let ghost before = first@;
        first.push(copy);
        assert(first@.map_values(|l: Vec<char>| l@) =~= before.map_values(|l: Vec<char>| l@).push(
            kept@[i as int]@,
        ));
        i = i + 1;
    }
    let ghost kv = kept@.map_values(|l: Vec<char>| l@);
    assert(first@.map_values(|l: Vec<char>| l@) =~= first_n(kv, 5));
    let nl = chars_of("\n");
    let shown = join_chars(&first, &nl);
    let mut msg = chars_of("N_m3u8DL-RE exited: ");
    extend_str(&mut msg, exit);
    if shown.len() > 0 {
        extend_chars(&mut msg, &nl);
        extend_chars(&mut msg, &shown);
    }
    string_of(&msg)
}

/// The failure message of the muxer; `status` is its exit status as text.
pub fn mux_failure(status: &str, stderr: &str) -> (r: String)
    ensures
        r@ == mux_failure_text(status@, stderr@),
{
    let lines = lines_view(stderr);
    let kept = kept_lines(&lines, true);
    let n = kept.len();
    let start: usize = if n > 5 {
        n - 5
    } else {
        0
    };
    let mut last: Vec<Vec<char>> = Vec::new();
    let mut i: usize = start;
    while i < n
        invariant
            start <= i <= n,
            n == kept@.len(),
            last@.map_values(|l: Vec<char>| l@) =~= kept@.map_values(|l: Vec<char>| l@).subrange(
                start as int,
                i as int,
            ),
        decreases n - i,
    {
        let mut copy: Vec<char> = Vec::new();
        extend_chars(&mut copy, &kept[i]);
        assert(copy@ =~= kept@[i as int]@);
        let ghost before = last@;
        last.push(copy);
        assert(last@.map_values(|l: Vec<char>| l@) =~= before.map_values(|l: Vec<char>| l@).push(
            kept@[i as int]@,
        ));
        i = i + 1;
    }
    let ghost kv = kept@.map_values(|l: Vec<char>| l@);
    assert(last@.map_values(|l: Vec<char>| l@) =~= last_n(kv, 5));
    let nl = chars_of("\n");
    let tail = join_chars(&last, &nl);
    let mut msg = chars_of("ffmpeg exited: ");
    extend_str(&mut msg, status);
    extend_chars(&mut msg, &nl);
    extend_chars(&mut msg, &tail);
    string_of(&msg)
}

/// What follows the downloader's exit: muxing when it succeeded or left
/// segments (`.ts` files) behind, else the failure.
pub fn after_downloader_exit(success: bool, has_segments: bool, exit: &str, stderr: &str) -> (r:
    AfterExit)
    ensures
        (success || has_segments) ==> r is Mux,
        !(success || has_segments) ==> (r matches AfterExit::Fail(m) && m@
            == downloader_failure_text(exit@, stderr@)),
{
    if success || has_segments {
        AfterExit::Mux
    } else {
        AfterExit::Fail(downloader_failure(exit, stderr))
    }
}

/// Appends `-i file` for each file.
pub open spec fn input_args(files: Seq<String>) -> Seq<Seq<char>>
    decreases files.len(),
{
    if files.len() == 0 {
        Seq::empty()
    } else {
        input_args(files.drop_last()) + seq!["-i"@, files.last()@]
    }
}

/// `-map i:a?` for every input `i` from 1 below `n`: the audio of each
/// further segment file.
pub open spec fn audio_maps(n: nat) -> Seq<Seq<char>>
    decreases n,
{
    if n <= 1 {
        Seq::empty()
    } else {
        audio_maps((n - 1) as nat) + seq!["-map"@, decimal((n - 1) as nat) + ":a?"@]
    }
}

/// `-map i:s?` for the `n` inputs from `base` on: the subtitle files.
pub open spec fn subtitle_maps(base: nat, n: nat) -> Seq<Seq<char>>
    decreases n,
{
    if n == 0 {
        Seq::empty()
    } else {
        subtitle_maps(base, (n - 1) as nat) + seq!["-map"@, decimal((base + n - 1) as nat) + ":s?"@]
    }
}

/// The subtitle codec for a container: SubRip in `mkv`, else `mov_text`.
pub open spec fn subtitle_codec(ext: Seq<char>) -> Seq<char> {
    if ext == "mkv"@ {
        "srt"@
    } else {
        "mov_text"@
    }
}

/// The muxer's command line: every segment and subtitle file as an input
/// (subtitles only when they are to be merged), the first video stream,
/// every audio stream, every subtitle, copied, into the output file.
pub open spec fn mux_args_text(c: AppConfig, ts: Seq<String>, vtt: Seq<String>, out: Seq<char>) -> Seq<
    Seq<char>,
> {
    let subs = if c.process.merge_subtitle {
        vtt
    } else {
        Seq::empty()
    };
    seq!["-y"@] + input_args(ts) + input_args(subs) + seq!["-map"@, "0:v:0"@, "-map"@, "0:a?"@]
        + audio_maps(ts.len()) + subtitle_maps(ts.len(), subs.len()) + seq![
        "-c:v"@,
        "copy"@,
        "-c:a"@,
        "copy"@,
    ] + args_if(subs.len() > 0, seq!["-c:s"@, subtitle_codec(c.process.extension@)]) + seq![out]
}

/// Appends the texts of `v` as arguments: `-i` before each.
fn push_inputs(args: &mut Vec<String>, files: &Vec<String>)
    ensures
        texts(final(args)@) == texts(old(args)@) + input_args(files@),
{
    let mut i: usize = 0;
    while i < files.len()
        invariant
            i <= files@.len(),
            texts(args@) == texts(old(args)@) + input_args(files@.take(i as int)),
        decreases files@.len() - i,
    {
        push_text(args, "-i");
        push_text(args, files[i].as_str());
        assert(files@.take(i + 1).drop_last() =~= files@.take(i as int));
        i = i + 1;
    }
    assert(files@.take(files@.len() as int) =~= files@);
}

/// `n` followed by a suffix, as text.
fn numbered(n: u64, suffix: &str) -> (r: String)
    ensures
        r@ == decimal(n as nat) + suffix@,
{
    let mut v = decimal_chars(n);
    extend_str(&mut v, suffix);
    string_of(&v)
}

impl DownloadEngine {
    /// The downloader's command line (after the program) for a request;
    /// `ffmpeg` is the muxer it is told to use.
    #[verifier::rlimit(40)]
    pub fn downloader_args(&self, req: &DownloadRequest, ffmpeg: &str) -> (r: Vec<String>)
        ensures
            texts(r@) == downloader_args_text(self.config, *req, ffmpeg@),
    {
        let mut a: Vec<String> = Vec::new();
        let save = sanitize_filename(req.filename.as_str());
        push_text(&mut a, req.stream_url.as_str());
        push_text(&mut a, "--save-name");
        push_text(&mut a, save.as_str());
        push_text(&mut a, "--save-dir");
        push_text(&mut a, req.output_dir.as_str());
        push_text(&mut a, "--tmp-dir");
        push_text(&mut a, req.output_dir.as_str());
        push_text(&mut a, "--ffmpeg-binary-path");
        push_text(&mut a, ffmpeg);
        push_text(&mut a, "--no-log");
        push_text(&mut a, "--write-meta-json");
        push_text(&mut a, "false");
        push_text(&mut a, "--binary-merge");
        push_text(&mut a, "--del-after-done");
        push_text(&mut a, "--auto-subtitle-fix");
        push_text(&mut a, "false");
        push_text(&mut a, "--check-segments-count");
        push_text(&mut a, "true");
        push_text(&mut a, "--force-ansi-console");
        push_text(&mut a, "--no-ansi-color");
        let ghost p1 = seq![
            req.stream_url@,
            "--save-name"@,
            sanitized(req.filename@),
            "--save-dir"@,
            req.output_dir@,
            "--tmp-dir"@,
            req.output_dir@,
            "--ffmpeg-binary-path"@,
            ffmpeg@,
            "--no-log"@,
            "--write-meta-json"@,
            "false"@,
            "--binary-merge"@,
            "--del-after-done"@,
            "--auto-subtitle-fix"@,
            "false"@,
            "--check-segments-count"@,
            "true"@,
            "--force-ansi-console"@,
            "--no-ansi-color"@,
        ];
        assert(texts(a@) =~= p1);
        let d = &self.config.download;
        if d.concurrent_download {
            push_text(&mut a, "--concurrent-download");
        }
        let ghost p2 = p1 + args_if(d.concurrent_download, seq!["--concurrent-download"@]);
        assert(texts(a@) =~= p2);
        push_text(&mut a, "--thread-count");
        let tc = numbered(d.thread_count as u64, "");
        push_text(&mut a, tc.as_str());
        push_text(&mut a, "--download-retry-count");
        let rc = numbered(d.retry_count as u64, "");
        push_text(&mut a, rc.as_str());
        proof {
            reveal_strlit("");
            assert(tc@ =~= decimal(d.thread_count as nat));
            assert(rc@ =~= decimal(d.retry_count as nat));
        }
        let ghost p3 = p2 + seq![
            "--thread-count"@,
            decimal(d.thread_count as nat),
            "--download-retry-count"@,
            decimal(d.retry_count as nat),
        ];
        assert(texts(a@) =~= p3);
        if !d.max_speed.as_str().is_empty() {
            push_text(&mut a, "--max-speed");
            push_text(&mut a, d.max_speed.as_str());
        }
        let ghost p4 = p3 + args_if(d.max_speed@.len() > 0, seq!["--max-speed"@, d.max_speed@]);
        assert(texts(a@) =~= p4);
        push_text(&mut a, "--select-video");
        push_text(&mut a, d.select_video.as_str());
        push_text(&mut a, "--select-audio");
        push_text(&mut a, d.select_audio.as_str());
        push_text(&mut a, "--select-subtitle");
        push_text(&mut a, d.select_subtitle.as_str());
        let ghost p5 = p4 + seq![
            "--select-video"@,
            d.select_video@,
            "--select-audio"@,
            d.select_audio@,
            "--select-subtitle"@,
            d.select_subtitle@,
        ];
        assert(texts(a@) =~= p5);
        if !self.config.process.merge_audio {
            push_text(&mut a, "--drop-audio");
            push_text(&mut a, "all");
        }
        let ghost p6 = p5 + args_if(!self.config.process.merge_audio, seq!["--drop-audio"@, "all"@]);
        assert(texts(a@) =~= p6);
        let ghost after_drop = texts(a@);
        let mut i: usize = 0;
        while i < req.headers.len()
            invariant
                i <= req.headers@.len(),
                texts(a@) == after_drop + header_args(req.headers@.take(i as int)),
            decreases req.headers@.len() - i,
        {
            let (k, v) = &req.headers[i];
            let mut h = chars_of(k.as_str());
            extend_str(&mut h, ": ");
            extend_str(&mut h, v.as_str());
            let hs = string_of(&h);
            push_text(&mut a, "--header");
            push_text(&mut a, hs.as_str());
            assert(req.headers@.take(i + 1).drop_last() =~= req.headers@.take(i as int));
            assert(hs@ =~= k@ + ": "@ + v@);
            i = i + 1;
        }
        assert(req.headers@.take(req.headers@.len() as int) =~= req.headers@);
        assert(p6 + header_args(req.headers@) == downloader_args_text(self.config, *req, ffmpeg@));
        a
    }

    /// The muxer's command line (after the program), or why there is
    /// nothing to mux: `ts` are the downloaded segment files, `vtt` the
    /// subtitle files found beside them, `out` the file to write.
    pub fn mux_args(&self, ts: &Vec<String>, vtt: &Vec<String>, out: &str) -> (r: Result<
        Vec<String>,
        String,
    >)
        requires
            ts@.len() + vtt@.len() <= usize::MAX,
        ensures
            ts@.len() == 0 ==> (r matches Err(m) && m@ == "No .ts files found after download"@),
            ts@.len() > 0 ==> (r matches Ok(a) && texts(a@) == mux_args_text(
                self.config,
                ts@,
                vtt@,
                out@,
            )),
    {
        if ts.len() == 0 {
            return Err("No .ts files found after download".to_owned());
        }
        let empty: Vec<String> = Vec::new();
        let subs: &Vec<String> = if self.config.process.merge_subtitle {
            vtt
        } else {
            &empty
        };
        let mut a: Vec<String> = Vec::new();
        push_text(&mut a, "-y");
        push_inputs(&mut a, ts);
        push_inputs(&mut a, subs);
        push_text(&mut a, "-map");
        push_text(&mut a, "0:v:0");
        push_text(&mut a, "-map");
        push_text(&mut a, "0:a?");
        let ghost before_maps = texts(a@);
        let mut i: usize = 1;
        while i < ts.len()
            invariant
                1 <= i <= ts@.len(),
                texts(a@) == before_maps + audio_maps(i as nat),
            decreases ts@.len() - i,
        {
            push_text(&mut a, "-map");
            let m = numbered(i as u64, ":a?");
            push_text(&mut a, m.as_str());
            i = i + 1;
        }
        let ghost before_subs = texts(a@);
        let n = ts.len();
        let mut j: usize = 0;
        while j < subs.len()
            invariant
                j <= subs@.len(),
                subs@.len() <= vtt@.len(),
                n + vtt@.len() <= usize::MAX,
                n == ts@.len(),
                texts(a@) == before_subs + subtitle_maps(n as nat, j as nat),
            decreases subs@.len() - j,
        {
            push_text(&mut a, "-map");
            let m = numbered((n + j) as u64, ":s?");
            push_text(&mut a, m.as_str());
            j = j + 1;
        }
        push_text(&mut a, "-c:v");
        push_text(&mut a, "copy");
        push_text(&mut a, "-c:a");
        push_text(&mut a, "copy");
        let ghost before_codec = texts(a@);
        if subs.len() > 0 {
            push_text(&mut a, "-c:s");
            let ext = chars_of(self.config.process.extension.as_str());
            let mkv = chars_of("mkv");
            proof {
                reveal_strlit("mkv");
            }
            if crate::text::chars_equal(&ext, &mkv) {
                push_text(&mut a, "srt");
            } else {
                push_text(&mut a, "mov_text");
            }
        }
        push_text(&mut a, out);
        assert(texts(a@) =~= mux_args_text(self.config, ts@, vtt@, out@));
        Ok(a)
    }

    /// The file the muxer writes: the save name with the configured
    /// extension, in the output folder.
    pub fn mux_output_file(&self, output_dir: &str, save_name: &str) -> (r: String)
        ensures
            r@ == path_join(output_dir@, save_name@ + "."@ + self.config.process.extension@),
    {
        let mut v = chars_of(save_name);
        extend_str(&mut v, ".");
        extend_str(&mut v, self.config.process.extension.as_str());
        let name = string_of(&v);
        join_path(output_dir, name.as_str())
    }
}

/// Orders files by size, largest first; files of equal size keep their
/// order.
pub fn largest_first(files: Vec<(String, u64)>) -> (r: Vec<(String, u64)>)
    ensures
        exists|p: Seq<int>| stably_sorted_desc(r@, files@, p),
{
    sort_by_weight_desc(files)
}

/// Where a download stands, as values.
pub enum StatusV {
    Queued,
    Downloading,
    Muxing,
    Completed,
    Failed(Seq<char>),
}

/// The values of a download's status.
pub open spec fn status_v(s: DownloadStatus) -> StatusV {
    match s {
        DownloadStatus::Queued => StatusV::Queued,
        DownloadStatus::Downloading => StatusV::Downloading,
        DownloadStatus::Muxing => StatusV::Muxing,
        DownloadStatus::Completed => StatusV::Completed,
        DownloadStatus::Failed(m) => StatusV::Failed(m@),
    }
}

/// What happens to a running download.
#[derive(Debug, Clone)]
pub enum DownloadEvent {
    /// The output folder could not be made (the error's message).
    DirFailed(String),
    /// The download began.
    Started,
    /// The downloader could not be launched (the error's message).
    SpawnFailed(String),
    /// The downloader printed a line.
    Line(String),
    /// The downloader exited, with what follows.
    Exited(AfterExit),
    /// Waiting for the downloader failed (the error's message).
    WaitFailed(String),
    /// Muxing succeeded.
    Muxed,
    /// Muxing failed (the muxer's error).
    MuxFailed(String),
}

/// A download's status after an event. A finished download (completed or
/// failed) stays as it is; it starts downloading when launched, shows
/// muxing when the downloader says so or exits with segments to mux, and
/// completes only when muxing succeeds.
pub open spec fn status_after(s: StatusV, e: DownloadEvent) -> StatusV {
    match s {
        StatusV::Completed => s,
        StatusV::Failed(_) => s,
        _ => match e {
            DownloadEvent::DirFailed(m) => StatusV::Failed("Cannot create output dir: "@ + m@),
            DownloadEvent::Started => if s is Queued {
                StatusV::Downloading
            } else {
                s
            },
            DownloadEvent::SpawnFailed(m) => StatusV::Failed("Failed to start N_m3u8DL-RE: "@ + m@),
            DownloadEvent::Line(l) => if s is Downloading && muxing_line(l@) {
                StatusV::Muxing
            } else {
                s
            },
            DownloadEvent::Exited(AfterExit::Mux) => StatusV::Muxing,
            DownloadEvent::Exited(AfterExit::Fail(m)) => StatusV::Failed(m@),
            DownloadEvent::WaitFailed(m) => StatusV::Failed("Process error: "@ + m@),
            DownloadEvent::Muxed => if s is Muxing {
                StatusV::Completed
            } else {
                s
            },
            DownloadEvent::MuxFailed(m) => StatusV::Failed("Mux failed: "@ + m@),
        },
    }
}

fn failed_with(prefix: &str, m: &String) -> (r: DownloadStatus)
    ensures
        status_v(r) == StatusV::Failed(prefix@ + m@),
{
    let mut v = chars_of(prefix);
    extend_str(&mut v, m.as_str());
    DownloadStatus::Failed(string_of(&v))
}

/// A download's status after an event.
pub fn next_status(s: &DownloadStatus, e: &DownloadEvent) -> (r: DownloadStatus)
    ensures
        status_v(r) == status_after(status_v(*s), *e),
{
    match s {
        DownloadStatus::Completed => return DownloadStatus::Completed,
        DownloadStatus::Failed(m) => return DownloadStatus::Failed(m.clone()),
        _ => {},
    }
    let same = match s {
        DownloadStatus::Queued => DownloadStatus::Queued,
        DownloadStatus::Downloading => DownloadStatus::Downloading,
        _ => DownloadStatus::Muxing,
    };
    match e {
        DownloadEvent::DirFailed(m) => failed_with("Cannot create output dir: ", m),
        DownloadEvent::Started => match s {
            DownloadStatus::Queued => DownloadStatus::Downloading,
            _ => same,
        },
        DownloadEvent::SpawnFailed(m) => failed_with("Failed to start N_m3u8DL-RE: ", m),
        DownloadEvent::Line(l) => match s {
            DownloadStatus::Downloading => if signals_muxing(l.as_str()) {
                DownloadStatus::Muxing
            } else {
                same
            },
            _ => same,
        },
        DownloadEvent::Exited(AfterExit::Mux) => DownloadStatus::Muxing,
        DownloadEvent::Exited(AfterExit::Fail(m)) => DownloadStatus::Failed(m.clone()),
        DownloadEvent::WaitFailed(m) => failed_with("Process error: ", m),
        DownloadEvent::Muxed => match s {
            DownloadStatus::Muxing => DownloadStatus::Completed,
            _ => same,
        },
        DownloadEvent::MuxFailed(m) => failed_with("Mux failed: ", m),
    }
}

/// A finished download stays finished: no event changes a completed or
/// failed status.
pub proof fn law_finished_download_stays(s: StatusV, e: DownloadEvent)
    requires
        s is Completed || s is Failed,
    ensures
        status_after(s, e) == s,
{
}

/// A download completes only from muxing, when muxing succeeds.
pub proof fn law_completes_only_after_mux(s: StatusV, e: DownloadEvent)
    requires
        !(s is Completed),
        status_after(s, e) is Completed,
    ensures
        s is Muxing,
        e is Muxed,
{
}


} // verus!
