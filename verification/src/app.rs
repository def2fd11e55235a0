//! The web interface's decisions: whether a newer release exists, what a
//! search asks, how catalogue shares and provider tags are given, what the
//! player shows, and what watching progress does to the resume list.
use crate::config::{key_of, starts_episode, f64_bits_of_u32, WatchItem};
use crate::gui::app::{find_download, first_download};
use crate::gui::Screen;
use crate::util::DownloadProgress;
use crate::providers::models::{entry_views, episode_title_text, display_title_text, EntryView};
use crate::providers::{Episode, MediaEntry, MediaType, Season};
use crate::text::{
    chars_of, extend_chars, has_prefix, is_space, lines_of, occurs_at_exec, pad2, pad2_chars,
    string_of, text_lines, trim_chars, trimmed,
};
use vstd::prelude::*;

verus! {

/// `s` without the leading characters that are spaces or `=`.
pub open spec fn skip_assign(s: Seq<char>) -> Seq<char>
    decreases s.len(),
{
    if s.len() > 0 && (s[0] == ' ' || s[0] == '=') {
        skip_assign(s.drop_first())
    } else {
        s
    }
}

/// `s` without leading double quotes.
pub open spec fn skip_quotes_start(s: Seq<char>) -> Seq<char>
    decreases s.len(),
{
    if s.len() > 0 && s[0] == '"' {
        skip_quotes_start(s.drop_first())
    } else {
        s
    }
}

/// `s` without trailing double quotes.
pub open spec fn skip_quotes_end(s: Seq<char>) -> Seq<char>
    decreases s.len(),
{
    if s.len() > 0 && s.last() == '"' {
        skip_quotes_end(s.drop_last())
    } else {
        s
    }
}

/// The version a manifest line declares, when it is a `version` line:
/// after the key, a space or `=`; the value without the spaces and `=`
/// before it, surrounding whitespace, or surrounding quotes.
pub open spec fn line_version(l: Seq<char>) -> Option<Seq<char>> {
    let t = trimmed(l);
    if has_prefix(t, "version"@) && t.len() > 7 && (t[7] == ' ' || t[7] == '=') {
        Some(skip_quotes_end(skip_quotes_start(trimmed(skip_assign(t.skip(7))))))
    } else {
        None
    }
}

/// The version of the first `version` line of a manifest.
pub open spec fn first_version(lines: Seq<Seq<char>>) -> Option<Seq<char>>
    decreases lines.len(),
{
    if lines.len() == 0 {
        None
    } else if line_version(lines[0]) is Some {
        line_version(lines[0])
    } else {
        first_version(lines.drop_first())
    }
}

/// Drops leading characters while they match.
fn skip_while_assign(v: &Vec<char>) -> (r: Vec<char>)
    ensures
        r@ == skip_assign(v@),
{
    let mut i: usize = 0;
    assert(v@.skip(0) =~= v@);
    while i < v.len() && (v[i] == ' ' || v[i] == '=')
        invariant
            i <= v@.len(),
            skip_assign(v@) == skip_assign(v@.skip(i as int)),
        decreases v@.len() - i,
    {
        assert(v@.skip(i as int).drop_first() =~= v@.skip(i + 1));
        i = i + 1;
    }
    let mut out: Vec<char> = Vec::new();
    let mut j: usize = i;
    while j < v.len()
        invariant
            i <= j <= v@.len(),
            out@ == v@.subrange(i as int, j as int),
        decreases v@.len() - j,
    {
        out.push(v[j]);
        j = j + 1;
        assert(out@ =~= v@.subrange(i as int, j as int));
    }
    assert(out@ =~= v@.skip(i as int));
    out
}

/// Removes surrounding double quotes.
fn strip_quotes(v: &Vec<char>) -> (r: Vec<char>)
    ensures
        r@ == skip_quotes_end(skip_quotes_start(v@)),
{
    let mut a: usize = 0;
    assert(v@.skip(0) =~= v@);
    while a < v.len() && v[a] == '"'
        invariant
            a <= v@.len(),
            skip_quotes_start(v@) == skip_quotes_start(v@.skip(a as int)),
        decreases v@.len() - a,
    {
        assert(v@.skip(a as int).drop_first() =~= v@.skip(a + 1));
        a = a + 1;
    }
    let ghost s = v@.skip(a as int);
    let mut b: usize = v.len();
    assert(v@.subrange(a as int, b as int) =~= s);
    while b > a && v[b - 1] == '"'
        invariant
            a <= b <= v@.len(),
            s == v@.skip(a as int),
            skip_quotes_end(s) == skip_quotes_end(v@.subrange(a as int, b as int)),
        decreases b - a,
    {
        assert(v@.subrange(a as int, b as int).drop_last() =~= v@.subrange(a as int, b - 1));
        b = b - 1;
    }
    let mut out: Vec<char> = Vec::new();
    let mut j: usize = a;
    while j < b
        invariant
            a <= j <= b,
            b <= v@.len(),
            out@ == v@.subrange(a as int, j as int),
        decreases b - j,
    {
        out.push(v[j]);
        j = j + 1;
        assert(out@ =~= v@.subrange(a as int, j as int));
    }
    out
}

/// The version a manifest declares in its first `version` line.
pub fn remote_version(manifest: &str) -> (r: Option<String>)
    ensures
        match r {
            Some(v) => first_version(lines_of(manifest@)) == Some(v@),
            None => first_version(lines_of(manifest@)) is None,
        },
{
    let lines = text_lines(&chars_of(manifest));
    let ghost ls = lines_of(manifest@);
    let key = chars_of("version");
    proof {
        reveal_strlit("version");
    }
    let mut i: usize = 0;
    assert(ls.skip(0) =~= ls);
    while i < lines.len()
        invariant
            i <= lines@.len(),
            ls == lines_of(manifest@),
            lines@.len() == ls.len(),
            forall|k: int| 0 <= k < lines@.len() ==> #[trigger] lines@[k]@ == ls[k],
            key@ == "version"@,
            first_version(ls) == first_version(ls.skip(i as int)),
        decreases lines@.len() - i,
    {
        assert(ls.skip(i as int)[0] == ls[i as int]);
        assert(ls.skip(i as int).drop_first() =~= ls.skip(i + 1));
        let t = trim_chars(&lines[i]);
        if occurs_at_exec(&t, &key, 0) && t.len() > 7 && (t[7] == ' ' || t[7] == '=') {
            let mut rest: Vec<char> = Vec::new();
            let mut j: usize = 7;
            while j < t.len()
                invariant
                    7 <= j <= t@.len(),
                    rest@ == t@.subrange(7, j as int),
                decreases t@.len() - j,
            {
                rest.push(t[j]);
                j = j + 1;
                assert(rest@ =~= t@.subrange(7, j as int));
            }
            assert(rest@ =~= t@.skip(7));
            let value = strip_quotes(&trim_chars(&skip_while_assign(&rest)));
            return Some(string_of(&value));
        }
        i = i + 1;
    }
    None
}

/// Whether the manifest declares a version other than the running one.
pub fn update_available(manifest: &str, current: &str) -> (r: bool)
    ensures
        r == (first_version(lines_of(manifest@)) matches Some(v) && v != current@),
{
    match remote_version(manifest) {
        Some(v) => !crate::text::chars_equal(&chars_of(v.as_str()), &chars_of(current)),
        None => false,
    }
}

/// The query a search runs: the typed text trimmed; nothing when only
/// whitespace was typed.
pub fn search_query(typed: &str) -> (r: Option<String>)
    ensures
        match r {
            Some(q) => q@ == trimmed(typed@) && q@.len() > 0,
            None => trimmed(typed@).len() == 0,
        },
{
    let t = trim_chars(&chars_of(typed));
    if t.len() == 0 {
        None
    } else {
        Some(string_of(&t))
    }
}

/// How many catalogue titles each of the providers is asked for.
pub fn catalog_share(providers: usize) -> (r: usize)
    requires
        providers > 0,
    ensures
        r == 100usize / providers,
{
    100 / providers
}

/// Entries marked as found by the provider at position `provider`.
pub fn tag_entries(entries: Vec<MediaEntry>, provider: usize) -> (r: Vec<MediaEntry>)
    ensures
        entry_views(r@) == entry_views(entries@).map_values(|e: EntryView| EntryView { provider, ..e }),
{
    let ghost orig = entry_views(entries@);
    let mut rest = entries;
    let mut out: Vec<MediaEntry> = Vec::new();
    let n = rest.len();
    let mut i: usize = 0;
    while i < n
        invariant
            n == orig.len(),
            i <= n,
            entry_views(rest@) == orig.skip(i as int),
            entry_views(out@) == orig.take(i as int).map_values(|e: EntryView| EntryView { provider, ..e }),
        decreases n - i,
    {
        assert(entry_views(rest@).len() == rest@.len());
        let ghost old_rest = rest@;
        let mut e = rest.remove(0);
        assert(e@ == orig[i as int]) by {
            assert(entry_views(old_rest)[0] == old_rest[0]@);
            assert(orig.skip(i as int)[0] == orig[i as int]);
        }
        assert(entry_views(rest@) =~= orig.skip(i + 1)) by {
            assert forall|t: int| 0 <= t < rest@.len() implies entry_views(rest@)[t] == orig.skip(i + 1)[t] by {
                assert(rest@[t] == old_rest[t + 1]);
                assert(entry_views(old_rest)[t + 1] == old_rest[t + 1]@);
                assert(orig.skip(i as int)[t + 1] == orig.skip(i + 1)[t]);
            }
        }
        e.provider = provider;
        let ghost before = out@;
        out.push(e);
        assert(entry_views(out@) =~= orig.take(i + 1).map_values(|e: EntryView| EntryView { provider, ..e })) by {
            assert(entry_views(out@) =~= entry_views(before).push(e@));
        }
        i = i + 1;
    }
    assert(orig.take(n as int) =~= orig);
    out
}

/// The title the player shows for an episode: from the episode when it is
/// known, else from its numbers.
pub fn playing_title(entry: &MediaEntry, season: u32, ep_number: u32, episode: Option<&Episode>) -> (r: String)
    ensures
        r@ == match episode {
            Some(ep) => episode_title_text(entry.name@, season, ep.number, ep.name@),
            None => entry.name@ + seq![' ', 'S'] + pad2(season as nat) + seq!['E'] + pad2(ep_number as nat),
        },
{
    match episode {
        Some(ep) => entry.episode_title(season, ep),
        None => {
            let mut v = chars_of(entry.name.as_str());
            v.push(' ');
            v.push('S');
            extend_chars(&mut v, &pad2_chars(season as u64));
            v.push('E');
            extend_chars(&mut v, &pad2_chars(ep_number as u64));
            string_of(&v)
        },
    }
}

/// The title the player shows when a record is resumed: its episode's, or
/// the entry's.
pub fn resume_title(item: &WatchItem) -> (r: String)
    ensures
        r@ == match (item.season, item.episode) {
            (Some(s), Some(ep)) => episode_title_text(item.entry.name@, s, ep.number, ep.name@),
            _ => display_title_text(item.entry.name@, item.entry.year),
        },
{
    match (&item.season, &item.episode) {
        (Some(s), Some(ep)) => item.entry.episode_title(*s, ep),
        _ => item.entry.display_title(),
    }
}

/// What a report of playing progress does to the resume list.
#[derive(Debug, Clone, Copy, PartialEq, Eq, Structural)]
pub enum ProgressStep {
    /// Nothing.
    Ignore,
    /// Record where playing is.
    Save,
    /// Forget the title.
    Forget,
    /// Move the show's record on from this episode of this season.
    Advance { episode: u32, season: u32 },
}

/// The first record of a title in the list.
pub open spec fn first_with_key(items: Seq<WatchItem>, k: (usize, u64)) -> Option<int>
    decreases items.len(),
{
    if items.len() == 0 {
        None
    } else if key_of(items[0]) == k {
        Some(0)
    } else {
        match first_with_key(items.drop_first(), k) {
            Some(i) => Some(i + 1),
            None => None,
        }
    }
}

/// The step a progress report takes: reports before ten seconds (or of an
/// unknown length) change nothing; far from the end, the position is
/// recorded; near the end of a title already listed for the episode being
/// played, a show moves on to its next episode and anything else is
/// forgotten.
pub open spec fn progress_rule(
    counts: bool,
    far_from_end: bool,
    items: Seq<WatchItem>,
    entry: MediaEntry,
    season: Option<u32>,
    episode: Option<u32>,
) -> ProgressStep {
    if !counts {
        ProgressStep::Ignore
    } else if far_from_end {
        ProgressStep::Save
    } else {
        match first_with_key(items, (entry.provider, entry.id)) {
            None => ProgressStep::Ignore,
            Some(i) => {
                let stored = match items[i].episode {
                    Some(e) => Some(e.number),
                    None => None,
                };
                if stored != episode {
                    ProgressStep::Ignore
                } else {
                    match (episode, season) {
                        (Some(ep), Some(s)) => if entry.media_type == MediaType::Series {
                            ProgressStep::Advance { episode: ep, season: s }
                        } else {
                            ProgressStep::Forget
                        },
                        _ => ProgressStep::Forget,
                    }
                }
            },
        }
    }
}

/// The step a progress report takes; `counts` says the report is past ten
/// seconds of a known length, `far_from_end` that more than twenty seconds
/// remain.
pub fn progress_step(
    counts: bool,
    far_from_end: bool,
    items: &Vec<WatchItem>,
    entry: &MediaEntry,
    season: Option<u32>,
    episode: Option<u32>,
) -> (r: ProgressStep)
    ensures
        r == progress_rule(counts, far_from_end, items@, *entry, season, episode),
{
    if !counts {
        return ProgressStep::Ignore;
    }
    if far_from_end {
        return ProgressStep::Save;
    }
    let k = (entry.provider, entry.id);
    let mut i: usize = 0;
    assert(items@.skip(0) =~= items@);
    while i < items.len()
        invariant
            i <= items@.len(),
            counts && !far_from_end,
            k == (entry.provider, entry.id),
            first_with_key(items@, k) == match first_with_key(items@.skip(i as int), k) {
                Some(j) => Some(j + i),
                None => None,
            },
        decreases items@.len() - i,
    {
        assert(items@.skip(i as int)[0] == items@[i as int]);
        assert(items@.skip(i as int).drop_first() =~= items@.skip(i + 1));
        if items[i].entry.provider == k.0 && items[i].entry.id == k.1 {
            assert(key_of(items@[i as int]) == k);
            assert(first_with_key(items@.skip(i as int), k) == Some(0int));
            assert(first_with_key(items@, k) == Some(i as int));
            let stored = match &items[i].episode {
                Some(e) => Some(e.number),
                None => None,
            };
            let same = match (stored, episode) {
                (Some(a), Some(b)) => a == b,
                (None, None) => true,
                _ => false,
            };
            if !same {
                return ProgressStep::Ignore;
            }
            return match (episode, season) {
                (Some(ep), Some(s)) => if entry.media_type == MediaType::Series {
                    ProgressStep::Advance { episode: ep, season: s }
                } else {
                    ProgressStep::Forget
                },
                _ => ProgressStep::Forget,
            };
        }
        i = i + 1;
    }
    assert(items@.skip(i as int) =~= Seq::<WatchItem>::empty());
    ProgressStep::Ignore
}

/// The episode and season a finished show moves on from; nothing when what
/// ended is a film or its episode is unknown (the title is then forgotten).
pub fn ended_from(entry: &MediaEntry, season: Option<u32>, episode: Option<u32>) -> (r: Option<(u32, u32)>)
    ensures
        r == match (episode, season) {
            (Some(ep), Some(s)) => if entry.media_type == MediaType::Series {
                Some((ep, s))
            } else {
                None
            },
            _ => None,
        },
{
    match (episode, season) {
        (Some(ep), Some(s)) => if entry.media_type == MediaType::Series {
            Some((ep, s))
        } else {
            None
        },
        _ => None,
    }
}

/// The season after `cur`: the smallest number above it (the first listed
/// of equal ones).
pub fn next_season_number(seasons: &Vec<Season>, cur: u32) -> (r: Option<u32>)
    ensures
        match r {
            Some(n) => n > cur && (exists|i: int| 0 <= i < seasons@.len() && (#[trigger] seasons@[i]).number == n)
                && forall|j: int| 0 <= j < seasons@.len() && (#[trigger] seasons@[j]).number > cur ==> n <= seasons@[j].number,
            None => forall|j: int| 0 <= j < seasons@.len() ==> (#[trigger] seasons@[j]).number <= cur,
        },
{
    let mut best: Option<u32> = None;
    let mut i: usize = 0;
    while i < seasons.len()
        invariant
            i <= seasons@.len(),
            match best {
                Some(n) => n > cur && (exists|k: int| 0 <= k < i && (#[trigger] seasons@[k]).number == n)
                    && forall|j: int| 0 <= j < i && (#[trigger] seasons@[j]).number > cur ==> n <= seasons@[j].number,
                None => forall|j: int| 0 <= j < i ==> (#[trigger] seasons@[j]).number <= cur,
            },
        decreases seasons@.len() - i,
    {
        let n = seasons[i].number;
        if n > cur {
            match best {
                Some(b) => if n < b {
                    best = Some(n);
                },
                None => {
                    best = Some(n);
                },
            }
        }
        i = i + 1;
    }
    best
}

/// The first episode of a season: the smallest number (the first listed of
/// equal ones).
pub fn first_episode(eps: &Vec<Episode>) -> (r: Option<usize>)
    ensures
        match r {
            Some(i) => i < eps@.len() && (forall|j: int| 0 <= j < eps@.len() ==> eps@[i as int].number <= (#[trigger] eps@[j]).number)
                && forall|j: int| 0 <= j < i ==> eps@[i as int].number < (#[trigger] eps@[j]).number,
            None => eps@.len() == 0,
        },
{
    if eps.len() == 0 {
        return None;
    }
    let mut best: usize = 0;
    let mut i: usize = 1;
    while i < eps.len()
        invariant
            1 <= i <= eps@.len(),
            best < i,
            forall|j: int| 0 <= j < i ==> eps@[best as int].number <= (#[trigger] eps@[j]).number,
            forall|j: int| 0 <= j < best ==> eps@[best as int].number < (#[trigger] eps@[j]).number,
        decreases eps@.len() - i,
    {
        if eps[i].number < eps[best].number {
            best = i;
        }
        i = i + 1;
    }
    Some(best)
}

/// The record that starts an episode of a season from its beginning.
pub fn season_start_item(entry: MediaEntry, season: u32, ep: &Episode) -> (r: WatchItem)
    ensures
        starts_episode(r, entry, *ep, season),
{
    let duration = match ep.duration {
        Some(d) => f64_bits_of_u32(d),
        None => 0,
    };
    WatchItem { entry, current_time: 0, duration, season: Some(season), episode: Some(ep.duplicate()) }
}

/// Where the interface stands: the screen shown and the screens to go back
/// to, the most recent last.
pub struct Navigation {
    pub screen: Screen,
    pub history: Vec<Screen>,
}

/// The screen and history after opening a screen: the one shown is
/// remembered.
pub open spec fn after_open(screen: Screen, history: Seq<Screen>, target: Screen) -> (Screen, Seq<Screen>) {
    (target, history.push(screen))
}

/// The screen and history after going back: the last remembered screen, or
/// the home screen when none is.
pub open spec fn after_back(screen: Screen, history: Seq<Screen>) -> (Screen, Seq<Screen>) {
    if history.len() > 0 {
        (history.last(), history.drop_last())
    } else {
        (Screen::Home, history)
    }
}

impl Navigation {
    /// The home screen with nothing to go back to.
    pub fn new() -> (r: Navigation)
        ensures
            r.screen == Screen::Home,
            r.history@.len() == 0,
    {
        Navigation { screen: Screen::Home, history: Vec::new() }
    }

    /// Shows a screen, remembering the one shown.
    pub fn open(&mut self, target: Screen)
        ensures
            (final(self).screen, final(self).history@) == after_open(old(self).screen, old(self).history@, target),
    {
        self.history.push(self.screen);
        self.screen = target;
    }

    /// A navigation link: shows the screen unless it is already shown.
    pub fn switch_to(&mut self, target: Screen)
        ensures
            old(self).screen != target ==> (final(self).screen, final(self).history@) == after_open(
                old(self).screen,
                old(self).history@,
                target,
            ),
            old(self).screen == target ==> final(self).screen == old(self).screen && final(self).history@
                == old(self).history@,
    {
        if self.screen != target {
            self.open(target);
        }
    }

    /// Goes back to the last remembered screen, or home.
    pub fn back(&mut self)
        ensures
            (final(self).screen, final(self).history@) == after_back(old(self).screen, old(self).history@),
    {
        match self.history.pop() {
            Some(prev) => {
                self.screen = prev;
            },
            None => {
                self.screen = Screen::Home;
            },
        }
    }
}

/// Going back after opening a screen returns to the screen that was shown,
/// with the history as it was.
pub proof fn law_back_undoes_open(screen: Screen, history: Seq<Screen>, target: Screen)
    ensures
        ({
            let (s, h) = after_open(screen, history, target);
            after_back(s, h) == (screen, history)
        }),
{
    assert(history.push(screen).drop_last() =~= history);
}

/// The episode after `cur`: the one with the smallest number above it (the
/// first listed of equal ones).
pub fn next_episode(eps: &Vec<Episode>, cur: u32) -> (r: Option<usize>)
    ensures
        match r {
            Some(i) => i < eps@.len() && eps@[i as int].number > cur
                && (forall|j: int| 0 <= j < eps@.len() && (#[trigger] eps@[j]).number > cur ==> eps@[i as int].number <= eps@[j].number)
                && forall|j: int| 0 <= j < i && (#[trigger] eps@[j]).number > cur ==> eps@[i as int].number < eps@[j].number,
            None => forall|j: int| 0 <= j < eps@.len() ==> (#[trigger] eps@[j]).number <= cur,
        },
{
    let mut best: Option<usize> = None;
    let mut i: usize = 0;
    while i < eps.len()
        invariant
            i <= eps@.len(),
            match best {
                Some(b) => b < i && eps@[b as int].number > cur
                    && (forall|j: int| 0 <= j < i && (#[trigger] eps@[j]).number > cur ==> eps@[b as int].number <= eps@[j].number)
                    && forall|j: int| 0 <= j < b && (#[trigger] eps@[j]).number > cur ==> eps@[b as int].number < eps@[j].number,
                None => forall|j: int| 0 <= j < i ==> (#[trigger] eps@[j]).number <= cur,
            },
        decreases eps@.len() - i,
    {
        let n = eps[i].number;
        if n > cur {
            match best {
                Some(b) => if n < eps[b].number {
                    best = Some(i);
                },
                None => {
                    best = Some(i);
                },
            }
        }
        i = i + 1;
    }
    best
}

/// Whether the player offers a next episode: one is playing and a later
/// one is listed.
pub fn has_next_episode(eps: &Vec<Episode>, cur: Option<u32>) -> (r: bool)
    ensures
        r == match cur {
            Some(c) => exists|j: int| 0 <= j < eps@.len() && (#[trigger] eps@[j]).number > c,
            None => false,
        },
{
    match cur {
        Some(c) => match next_episode(eps, c) {
            Some(i) => {
                assert(eps@[i as int].number > c);
                true
            },
            None => false,
        },
        None => false,
    }
}

/// One of several pending provider requests finished: how many remain, and
/// whether this was the last.
pub fn finish_one(pending: usize) -> (r: (usize, bool))
    ensures
        r.0 == (if pending > 0 {
            pending - 1
        } else {
            0
        }),
        r.1 == (pending <= 1),
{
    (pending.saturating_sub(1), pending <= 1)
}

/// A download reported progress: the first download with its id takes the
/// report; a report for no listed download is dropped.
pub fn record_progress(downloads: &mut Vec<DownloadProgress>, p: DownloadProgress)
    ensures
        match first_download(old(downloads)@, p.id) {
            Some(i) => final(downloads)@ == old(downloads)@.update(i, p),
            None => final(downloads)@ == old(downloads)@,
        },
{
    match find_download(downloads, p.id) {
        Some(i) => {
            downloads.set(i, p);
        },
        None => {},
    }
}

} // verus!
