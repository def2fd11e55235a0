//! The downloader command for a request, and how its end is reported.
use crate::config::{opt_path, platform_home_dir, AppConfig};
use crate::download::progress::{DownloadProgress, DownloadStatus};
use crate::providers::models::texts;
use crate::util::{episode_file_name, output_path_text, sanitize_filename};
use crate::text::{chars_of, decimal, decimal_chars, extend_str, join_path, path_join, string_of};
use vstd::prelude::*;

verus! {

/// What to download and where.
#[derive(Debug, Clone)]
pub struct DownloadRequest {
    pub id: u128,
    pub title: String,
    pub stream_url: String,
    pub output_dir: String,
    pub filename: String,
    pub headers: Vec<(String, String)>,
}

/// Downloads streams with the user's settings.
pub struct DownloadEngine {
    pub config: AppConfig,
}

/// Where a tool may be installed, in the order they are tried.
pub open spec fn candidate_paths(name: Seq<char>, home: Option<Seq<char>>) -> Seq<Seq<char>> {
    seq![
        "/usr/local/bin/"@ + name,
        "/opt/homebrew/bin/"@ + name,
        "/usr/bin/"@ + name,
        path_join(path_join(match home {
            Some(h) => h,
            None => Seq::empty(),
        }, ".local/bin"@), name),
    ]
}

/// `--flag value` when `b`, else nothing.
pub open spec fn when(b: bool, args: Seq<Seq<char>>) -> Seq<Seq<char>> {
    if b {
        args
    } else {
        Seq::empty()
    }
}

/// The `--header` arguments of a request, one pair per header.
pub open spec fn header_args(h: Seq<(String, String)>) -> Seq<Seq<char>>
    decreases h.len(),
{
    if h.len() == 0 {
        Seq::empty()
    } else {
        header_args(h.drop_last()) + seq!["--header"@, h.last().0@ + ": "@ + h.last().1@]
    }
}

/// The downloader's arguments for a request.
pub open spec fn downloader_args_text(c: AppConfig, req: DownloadRequest, ffmpeg: Seq<char>) -> Seq<Seq<char>> {
    let d = c.download;
    seq![
        req.stream_url@,
        "--save-name"@,
        req.filename@,
        "--save-dir"@,
        req.output_dir@,
        "--tmp-dir"@,
        path_join(req.output_dir@, "tmp"@),
        "--ffmpeg-binary-path"@,
        ffmpeg,
        "--no-log"@,
        "--binary-merge"@,
        "--del-after-done"@,
        "--auto-subtitle-fix"@,
        "false"@,
        "--check-segments-count"@,
        if d.concurrent_download {
            "true"@
        } else {
            "false"@
        },
    ] + when(d.concurrent_download, seq!["--concurrent-download"@]) + seq![
        "--thread-count"@,
        decimal(d.thread_count as nat),
        "--download-retry-count"@,
        decimal(d.retry_count as nat),
    ] + when(d.max_speed@.len() > 0, seq!["--max-speed"@, d.max_speed@]) + when(
        d.select_video@ != "best"@,
        seq!["--select-video"@, d.select_video@],
    ) + seq!["--select-audio"@, d.select_audio@, "--select-subtitle"@, d.select_subtitle@]
        + header_args(req.headers@)
}

/// How the downloader ended.
#[derive(Debug, Clone)]
pub enum ExitOutcome {
    Success,
    Failure(String),
    Error(String),
}

/// Appends a copy of a text to a list of texts.
fn push_text(v: &mut Vec<String>, s: &str)
    ensures
        texts(final(v)@) == texts(old(v)@).push(s@),
{
    let ghost before = v@;
    v.push(s.to_string());
    assert(texts(v@) =~= texts(before).push(s@));
}

impl DownloadEngine {
    /// An engine using the given settings.
    pub fn new(config: AppConfig) -> (r: DownloadEngine)
        ensures
            r.config == config,
    {
        DownloadEngine { config }
    }

    /// Where a tool may be installed, given the home directory.
    pub fn binary_candidates(name: &str, home: &Option<String>) -> (r: Vec<String>)
        ensures
            texts(r@) == candidate_paths(name@, opt_path(*home)),
    {
        let mut v: Vec<String> = Vec::new();
        let mut a = chars_of("/usr/local/bin/");
        extend_str(&mut a, name);
        let mut b = chars_of("/opt/homebrew/bin/");
        extend_str(&mut b, name);
        let mut c = chars_of("/usr/bin/");
        extend_str(&mut c, name);
        let h = match home {
            Some(h) => h.clone(),
            None => String::new(),
        };
        let local = join_path(h.as_str(), ".local/bin");
        let d = join_path(local.as_str(), name);
        push_text(&mut v, string_of(&a).as_str());
        push_text(&mut v, string_of(&b).as_str());
        push_text(&mut v, string_of(&c).as_str());
        push_text(&mut v, d.as_str());
        assert(texts(v@) =~= candidate_paths(name@, opt_path(*home)));
        v
    }

    /// The downloader's arguments for a request, with the muxer at `ffmpeg`.
    #[verifier::rlimit(40)]
    pub fn downloader_args(&self, req: &DownloadRequest, ffmpeg: &str) -> (r: Vec<String>)
        ensures
            texts(r@) == downloader_args_text(self.config, *req, ffmpeg@),
    {
        let d = &self.config.download;
        let mut v: Vec<String> = Vec::new();
        push_text(&mut v, req.stream_url.as_str());
        push_text(&mut v, "--save-name");
        push_text(&mut v, req.filename.as_str());
        push_text(&mut v, "--save-dir");
        push_text(&mut v, req.output_dir.as_str());
        push_text(&mut v, "--tmp-dir");
        let tmp = join_path(req.output_dir.as_str(), "tmp");
        push_text(&mut v, tmp.as_str());
        push_text(&mut v, "--ffmpeg-binary-path");
        push_text(&mut v, ffmpeg);
        push_text(&mut v, "--no-log");
        push_text(&mut v, "--binary-merge");
        push_text(&mut v, "--del-after-done");
        push_text(&mut v, "--auto-subtitle-fix");
        push_text(&mut v, "false");
        push_text(&mut v, "--check-segments-count");
        push_text(&mut v, if d.concurrent_download {
            "true"
        } else {
            "false"
        });
        let ghost head = texts(v@);
        if d.concurrent_download {
            push_text(&mut v, "--concurrent-download");
        }
        assert(texts(v@) =~= head + when(d.concurrent_download, seq!["--concurrent-download"@]));
        push_text(&mut v, "--thread-count");
        push_text(&mut v, string_of(&decimal_chars(d.thread_count as u64)).as_str());
        push_text(&mut v, "--download-retry-count");
        push_text(&mut v, string_of(&decimal_chars(d.retry_count as u64)).as_str());
        let ghost mid = texts(v@);
        if !d.max_speed.as_str().is_empty() {
            push_text(&mut v, "--max-speed");
            push_text(&mut v, d.max_speed.as_str());
        }
        assert(texts(v@) =~= mid + when(d.max_speed@.len() > 0, seq!["--max-speed"@, d.max_speed@]));
        let ghost mid2 = texts(v@);
        let best = crate::text::chars_equal(&chars_of(d.select_video.as_str()), &chars_of("best"));
        if !best {
            push_text(&mut v, "--select-video");
            push_text(&mut v, d.select_video.as_str());
        }
        assert(texts(v@) =~= mid2 + when(d.select_video@ != "best"@, seq!["--select-video"@, d.select_video@]));
        push_text(&mut v, "--select-audio");
        push_text(&mut v, d.select_audio.as_str());
        push_text(&mut v, "--select-subtitle");
        push_text(&mut v, d.select_subtitle.as_str());
        let ghost base = texts(v@);
        let mut i: usize = 0;
        while i < req.headers.len()
            invariant
                i <= req.headers@.len(),
                texts(v@) == base + header_args(req.headers@.take(i as int)),
            decreases req.headers@.len() - i,
        {
            let (k, val) = &req.headers[i];
            assert(req.headers@.take(i + 1).drop_last() =~= req.headers@.take(i as int));
            assert(req.headers@.take(i + 1).last() == req.headers@[i as int]);
            let mut h = chars_of(k.as_str());
            extend_str(&mut h, ": ");
            extend_str(&mut h, val.as_str());
            push_text(&mut v, "--header");
            push_text(&mut v, string_of(&h).as_str());
            i = i + 1;
        }
        assert(req.headers@.take(req.headers@.len() as int) =~= req.headers@);
        assert(texts(v@) =~= downloader_args_text(self.config, *req, ffmpeg@));
        v
    }

    /// The folder a title is downloaded into, under the given home
    /// directory: the film or show folder, then the title made safe.
    pub fn build_output_path_in(&self, home: &Option<String>, title: &str, is_movie: bool) -> (r: String)
        ensures
            r@ == output_path_text(opt_path(*home), self.config, title@, is_movie),
    {
        let base = if is_movie {
            self.config.movie_dir_in(home)
        } else {
            self.config.serie_dir_in(home)
        };
        join_path(base.as_str(), sanitize_filename(title).as_str())
    }

    /// The folder a title is downloaded into.
    pub fn build_output_path(&self, title: &str, is_movie: bool) -> (r: String)
        ensures
            exists|home: Option<Seq<char>>| r@ == output_path_text(home, self.config, title@, is_movie),
    {
        let home = platform_home_dir();
        let r = self.build_output_path_in(&home, title, is_movie);
        assert(r@ == output_path_text(opt_path(home), self.config, title@, is_movie));
        r
    }

    /// The file name of an episode, from the user's naming pattern.
    pub fn format_episode_name(&self, show_name: &str, season: u32, episode: u32, episode_name: &str) -> (r: String)
        ensures
            r@ == episode_file_name(self.config.output.map_episode_name@, show_name@, season, episode, episode_name@),
    {
        crate::util::DownloadEngine::format_with(&self.config, show_name, season, episode, episode_name)
    }
}

impl DownloadProgress {
    /// Takes a line of the downloader's output: what it reports, and that
    /// the download is running.
    pub fn take_output_line(&mut self, line: &str)
        ensures
            final(self).id == old(self).id,
            final(self).title == old(self).title,
            final(self).status is Downloading,
            final(self).percent@ == crate::download::progress::found_or(
                crate::providers::regex_group(crate::download::progress::PERCENT_PATTERN@, line@, 1),
                old(self).percent@,
            ),
            final(self).speed@ == crate::download::progress::found_or(
                crate::providers::regex_group(crate::download::progress::SPEED_PATTERN@, line@, 1),
                old(self).speed@,
            ),
    {
        self.parse_n_m3u8dl_line(line);
        self.status = DownloadStatus::Downloading;
    }

    /// Records how the downloader ended: completed (all of it done), or
    /// failed with its exit status or the error that stopped it.
    pub fn finish(&mut self, outcome: ExitOutcome)
        ensures
            final(self).id == old(self).id,
            final(self).title == old(self).title,
            final(self).speed == old(self).speed,
            match outcome {
                ExitOutcome::Success => final(self).status is Completed && final(self).percent@ == "100"@,
                ExitOutcome::Failure(code) => (final(self).status matches DownloadStatus::Failed(m) && m@
                    == "N_m3u8DL-RE exited with code: "@ + code@) && final(self).percent == old(self).percent,
                ExitOutcome::Error(e) => (final(self).status matches DownloadStatus::Failed(m) && m@
                    == "Process error: "@ + e@) && final(self).percent == old(self).percent,
            },
    {
        match outcome {
            ExitOutcome::Success => {
                self.status = DownloadStatus::Completed;
                self.percent = "100".to_string();
            },
            ExitOutcome::Failure(code) => {
                let mut m = chars_of("N_m3u8DL-RE exited with code: ");
                extend_str(&mut m, code.as_str());
                self.status = DownloadStatus::Failed(string_of(&m));
            },
            ExitOutcome::Error(e) => {
                let mut m = chars_of("Process error: ");
                extend_str(&mut m, e.as_str());
                self.status = DownloadStatus::Failed(string_of(&m));
            },
        }
    }

    /// Records that the downloader could not be started.
    pub fn start_failed(&mut self, error: &str)
        ensures
            final(self).id == old(self).id,
            final(self).title == old(self).title,
            final(self).status matches DownloadStatus::Failed(m) && m@ == "Failed to start N_m3u8DL-RE: "@ + error@,
    {
        let mut m = chars_of("Failed to start N_m3u8DL-RE: ");
        extend_str(&mut m, error);
        self.status = DownloadStatus::Failed(string_of(&m));
    }
}

} // verus!
