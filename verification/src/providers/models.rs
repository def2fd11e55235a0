//! Catalogue entries as every provider reports them.
use crate::order::{sort_by_weight_desc, stably_sorted_desc};
use crate::text::{chars_of, extend_chars, extend_str, pad2, pad2_chars, string_of};
use vstd::prelude::*;

verus! {

/// Whether an entry is a single film or an episodic show.
#[derive(Debug, Clone, Copy, PartialEq, Eq, Structural)]
pub enum MediaType {
    Movie,
    Series,
}

/// One title of a provider's catalogue.
#[derive(Debug, Clone)]
pub struct MediaEntry {
    pub id: u64,
    pub name: String,
    pub slug: String,
    pub provider: usize,
    pub language: String,
    pub media_type: MediaType,
    pub alternative_names: Vec<String>,
    pub year: Option<String>,
    pub score: Option<String>,
    pub image_url: Option<String>,
    pub description: Option<String>,
}

/// A season of a show.
#[derive(Debug, Clone)]
pub struct Season {
    pub id: u64,
    pub number: u32,
    pub name: Option<String>,
}

/// An episode of a season.
#[derive(Debug, Clone)]
pub struct Episode {
    pub id: u64,
    pub number: u32,
    pub name: String,
    pub duration: Option<u32>,
    pub image_url: Option<String>,
}

/// A playable stream and the headers its requests need.
#[derive(Debug, Clone)]
pub struct StreamUrl {
    pub url: String,
    pub headers: Vec<(String, String)>,
}

/// The year as shown to users: empty when unknown.
pub open spec fn year_text(year: Option<String>) -> Seq<char> {
    match year {
        Some(y) => y@,
        None => Seq::empty(),
    }
}

/// `name (year)`, or the bare name when the year is unknown.
pub open spec fn display_title_text(name: Seq<char>, year: Option<String>) -> Seq<char> {
    match year {
        Some(y) => name + seq![' ', '('] + y@ + seq![')'],
        None => name,
    }
}

/// `name SxxEyy`, followed by ` - episode name` when the episode has one.
pub open spec fn episode_title_text(name: Seq<char>, season: u32, ep_number: u32, ep_name: Seq<char>) -> Seq<char> {
    let base = name + seq![' ', 'S'] + pad2(season as nat) + seq!['E'] + pad2(ep_number as nat);
    if ep_name.len() == 0 {
        base
    } else {
        base + seq![' ', '-', ' '] + ep_name
    }
}

/// The contents of an optional text.
pub open spec fn opt_text(o: Option<String>) -> Option<Seq<char>> {
    match o {
        Some(s) => Some(s@),
        None => None,
    }
}

/// The contents of a list of texts.
pub open spec fn texts(v: Seq<String>) -> Seq<Seq<char>> {
    v.map_values(|s: String| s@)
}

/// The values an entry holds.
pub struct EntryView {
    pub id: u64,
    pub name: Seq<char>,
    pub slug: Seq<char>,
    pub provider: usize,
    pub language: Seq<char>,
    pub media_type: MediaType,
    pub alternative_names: Seq<Seq<char>>,
    pub year: Option<Seq<char>>,
    pub score: Option<Seq<char>>,
    pub image_url: Option<Seq<char>>,
    pub description: Option<Seq<char>>,
}

impl View for MediaEntry {
    type V = EntryView;

    open spec fn view(&self) -> EntryView {
        EntryView {
            id: self.id,
            name: self.name@,
            slug: self.slug@,
            provider: self.provider,
            language: self.language@,
            media_type: self.media_type,
            alternative_names: texts(self.alternative_names@),
            year: opt_text(self.year),
            score: opt_text(self.score),
            image_url: opt_text(self.image_url),
            description: opt_text(self.description),
        }
    }
}

/// The values an episode holds.
pub struct EpisodeView {
    pub id: u64,
    pub number: u32,
    pub name: Seq<char>,
    pub duration: Option<u32>,
    pub image_url: Option<Seq<char>>,
}

impl View for Episode {
    type V = EpisodeView;

    open spec fn view(&self) -> EpisodeView {
        EpisodeView {
            id: self.id,
            number: self.number,
            name: self.name@,
            duration: self.duration,
            image_url: opt_text(self.image_url),
        }
    }
}

/// The values the entries hold.
pub open spec fn entry_views(s: Seq<MediaEntry>) -> Seq<EntryView> {
    s.map_values(|e: MediaEntry| e@)
}

/// The values the episodes hold.
pub open spec fn episode_views(s: Seq<Episode>) -> Seq<EpisodeView> {
    s.map_values(|e: Episode| e@)
}

/// `r` holds the episodes of `v` reordered by `p` (the position in `v` of
/// each element of `r`): by ascending number, episodes of equal number in
/// their order in `v`.
pub open spec fn by_number(r: Seq<Episode>, v: Seq<EpisodeView>, p: Seq<int>) -> bool {
    &&& r.len() == v.len()
    &&& p.len() == v.len()
    &&& forall|i: int| 0 <= i < r.len() ==> 0 <= #[trigger] p[i] < v.len() && r[i]@ == v[p[i]]
    &&& forall|i: int, j: int|
        0 <= i < j < r.len() ==> (#[trigger] r[i]).number < (#[trigger] r[j]).number || (
        r[i].number == r[j].number && p[i] < p[j])
}

/// Orders episodes by ascending number; episodes of equal number keep their
/// order.
pub fn order_by_number(eps: Vec<Episode>) -> (r: Vec<Episode>)
    ensures
        exists|p: Seq<int>| by_number(r@, episode_views(eps@), p),
{
    let ghost orig = eps@;
    let mut rest = eps;
    let mut cands: Vec<(Episode, u64)> = Vec::new();
    let n = rest.len();
    let mut i: usize = 0;
    while i < n
        invariant
            n == orig.len(),
            i <= n,
            rest@ == orig.skip(i as int),
            cands@.len() == i,
            forall|k: int|
                0 <= k < i ==> (#[trigger] cands@[k]).0 == orig[k] && cands@[k].1 == 0xFFFF_FFFF
                    - orig[k].number,
        decreases n - i,
    {
        assert(rest@.len() > 0);
        let e = rest.remove(0);
        assert(e == orig[i as int]);
        let w: u64 = 0xFFFF_FFFF - e.number as u64;
        cands.push((e, w));
        i = i + 1;
        assert(rest@ =~= orig.skip(i as int));
    }
    let ghost all = cands@;
    let sorted = sort_by_weight_desc(cands);
    let ghost p = choose|p: Seq<int>| stably_sorted_desc(sorted@, all, p);
    let ghost sv = sorted@;
    let mut sorted = sorted;
    let mut out: Vec<Episode> = Vec::new();
    let mut j: usize = 0;
    while j < n
        invariant
            n == sv.len(),
            j <= n,
            sorted@ =~= sv.skip(j as int),
            out@.len() == j,
            forall|k: int| 0 <= k < j ==> #[trigger] out@[k] == sv[k].0,
        decreases n - j,
    {
        let (e, _) = sorted.remove(0);
        out.push(e);
        j = j + 1;
        assert(sorted@ =~= sv.skip(j as int));
    }
    let ghost views = episode_views(orig);
    assert forall|a: int, b: int| 0 <= a < b < out@.len() implies (#[trigger] out@[a]).number < (
    #[trigger] out@[b]).number || (out@[a].number == out@[b].number && p[a] < p[b]) by {
        assert(sv[a] == all[p[a]] && sv[b] == all[p[b]]);
    }
    assert forall|a: int| 0 <= a < out@.len() implies 0 <= #[trigger] p[a] < views.len() && out@[a]@
        == views[p[a]] by {
        assert(sv[a] == all[p[a]]);
    }
    assert(by_number(out@, views, p));
    out
}

/// Whether some entry has the identifier.
pub open spec fn has_entry_id(r: Seq<EntryView>, id: u64) -> bool {
    exists|k: int| 0 <= k < r.len() && (#[trigger] r[k]).id == id
}

/// The entries with the first of each identifier, in order.
pub open spec fn first_of_each(s: Seq<EntryView>) -> Seq<EntryView>
    decreases s.len(),
{
    if s.len() == 0 {
        Seq::empty()
    } else {
        let r = first_of_each(s.drop_last());
        if has_entry_id(r, s.last().id) {
            r
        } else {
            r.push(s.last())
        }
    }
}

pub proof fn lemma_first_of_each_prefix(s: Seq<EntryView>, k: int)
    requires
        0 <= k <= s.len(),
    ensures
        first_of_each(s.take(k)).len() <= first_of_each(s).len(),
        first_of_each(s).take(first_of_each(s.take(k)).len() as int) == first_of_each(s.take(k)),
    decreases s.len(),
{
    if k == s.len() {
        assert(s.take(k) =~= s);
        assert(first_of_each(s).take(first_of_each(s).len() as int) =~= first_of_each(s));
    } else {
        let d = s.drop_last();
        assert(s.take(k) =~= d.take(k));
        lemma_first_of_each_prefix(d, k);
        let a = first_of_each(d.take(k));
        let b = first_of_each(d);
        assert(first_of_each(s).take(a.len() as int) =~= b.take(a.len() as int));
    }
}

/// Whether an entry of the list has the identifier.
pub fn has_id(v: &Vec<MediaEntry>, id: u64) -> (r: bool)
    ensures
        r == has_entry_id(entry_views(v@), id),
{
    let mut i: usize = 0;
    while i < v.len()
        invariant
            i <= v@.len(),
            forall|k: int| 0 <= k < i ==> v@[k].id != id,
        decreases v@.len() - i,
    {
        if v[i].id == id {
            assert(entry_views(v@)[i as int].id == id);
            return true;
        }
        i = i + 1;
    }
    assert forall|k: int| 0 <= k < entry_views(v@).len() implies (#[trigger] entry_views(v@)[k]).id != id by {
        assert(entry_views(v@)[k] == v@[k]@);
    }
    false
}

/// No two entries share an identifier.
pub open spec fn ids_distinct(s: Seq<EntryView>) -> bool {
    forall|a: int, b: int| 0 <= a < b < s.len() ==> (#[trigger] s[a]).id != (#[trigger] s[b]).id
}

/// Keeping the first entry of each identifier lists every title once, and
/// lists every title of the input.
pub proof fn law_first_of_each_lists_titles_once(s: Seq<EntryView>)
    ensures
        ids_distinct(first_of_each(s)),
        forall|i: int| 0 <= i < s.len() ==> has_entry_id(first_of_each(s), #[trigger] s[i].id),
        forall|i: int| 0 <= i < first_of_each(s).len() ==> s.contains(#[trigger] first_of_each(s)[i]),
    decreases s.len(),
{
    if s.len() > 0 {
        let d = s.drop_last();
        law_first_of_each_lists_titles_once(d);
        let r = first_of_each(d);
        let x = s.last();
        if !has_entry_id(r, x.id) {
            let n = r.push(x);
            assert forall|a: int, b: int| 0 <= a < b < n.len() implies (#[trigger] n[a]).id != (#[trigger] n[b]).id by {
                if b == n.len() - 1 {
                    assert(n[a] == r[a]);
                } else {
                    assert(n[a] == r[a] && n[b] == r[b]);
                }
            }
            assert forall|i: int| 0 <= i < s.len() implies has_entry_id(n, #[trigger] s[i].id) by {
                if i < s.len() - 1 {
                    assert(s[i] == d[i]);
                    let k = choose|k: int| 0 <= k < r.len() && (#[trigger] r[k]).id == s[i].id;
                    assert(n[k] == r[k]);
                } else {
                    assert(n[n.len() - 1] == x);
                }
            }
            assert forall|i: int| 0 <= i < n.len() implies s.contains(#[trigger] n[i]) by {
                if i < n.len() - 1 {
                    assert(n[i] == r[i]);
                    let k = choose|k: int| 0 <= k < d.len() && d[k] == r[i];
                    assert(s[k] == d[k]);
                } else {
                    assert(s[s.len() - 1] == x);
                }
            }
        } else {
            assert forall|i: int| 0 <= i < s.len() implies has_entry_id(r, #[trigger] s[i].id) by {
                if i < s.len() - 1 {
                    assert(s[i] == d[i]);
                }
            }
            assert forall|i: int| 0 <= i < r.len() implies s.contains(#[trigger] r[i]) by {
                let k = choose|k: int| 0 <= k < d.len() && d[k] == r[i];
                assert(s[k] == d[k]);
            }
        }
    }
}

/// Keeps the first entry of each identifier, in order.
pub fn unique_entries(v: Vec<MediaEntry>) -> (r: Vec<MediaEntry>)
    ensures
        entry_views(r@) == first_of_each(entry_views(v@)),
{
    let ghost views = entry_views(v@);
    let n = v.len();
    let mut rest = v;
    let mut out: Vec<MediaEntry> = Vec::new();
    let mut k: usize = 0;
    assert(views.take(0) =~= Seq::<EntryView>::empty());
    while k < n
        invariant
            n == views.len(),
            k <= n,
            entry_views(rest@) == views.skip(k as int),
            entry_views(out@) == first_of_each(views.take(k as int)),
        decreases n - k,
    {
        assert(entry_views(rest@).len() == rest@.len());
        let ghost old_rest = rest@;
        let e = rest.remove(0);
        assert(e@ == views[k as int]) by {
            assert(entry_views(old_rest)[0] == old_rest[0]@);
            assert(views.skip(k as int)[0] == views[k as int]);
        }
        assert(entry_views(rest@) =~= views.skip(k + 1)) by {
            assert forall|t: int| 0 <= t < rest@.len() implies entry_views(rest@)[t] == views.skip(k + 1)[t] by {
                assert(rest@[t] == old_rest[t + 1]);
                assert(entry_views(old_rest)[t + 1] == old_rest[t + 1]@);
                assert(views.skip(k as int)[t + 1] == views.skip(k + 1)[t]);
            }
        }
        assert(views.take(k + 1).drop_last() =~= views.take(k as int));
        assert(views.take(k + 1).last() == views[k as int]);
        let ghost before = out@;
        if !has_id(&out, e.id) {
            out.push(e);
            assert(entry_views(out@) =~= entry_views(before).push(views[k as int]));
        }
        k = k + 1;
    }
    assert(views.take(n as int) =~= views);
    out
}

/// Two entries hold the same values in every field.
pub open spec fn same_entry(a: MediaEntry, b: MediaEntry) -> bool {
    a@ == b@
}

/// Two episodes hold the same values in every field.
pub open spec fn same_episode(a: Episode, b: Episode) -> bool {
    a@ == b@
}

/// Copies an optional text.
pub fn copy_opt_text(o: &Option<String>) -> (r: Option<String>)
    ensures
        opt_text(r) == opt_text(*o),
{
    match o {
        Some(s) => Some(s.clone()),
        None => None,
    }
}

/// Whether two optional texts are equal.
pub fn opt_text_eq(a: &Option<String>, b: &Option<String>) -> (r: bool)
    ensures
        r == (opt_text(*a) == opt_text(*b)),
{
    match (a, b) {
        (Some(x), Some(y)) => *x == *y,
        (None, None) => true,
        _ => false,
    }
}

/// Copies a list of texts.
pub fn copy_texts(v: &Vec<String>) -> (r: Vec<String>)
    ensures
        texts(r@) == texts(v@),
{
    let mut out: Vec<String> = Vec::new();
    let mut i: usize = 0;
    while i < v.len()
        invariant
            i <= v@.len(),
            texts(out@) =~= texts(v@.take(i as int)),
        decreases v@.len() - i,
    {
        let c = v[i].clone();
        let ghost before = out@;
        out.push(c);
        assert(v@.take(i + 1) =~= v@.take(i as int).push(v@[i as int]));
        assert(out@ == before.push(c));
        assert(texts(out@) =~= texts(before).push(c@));
        assert(texts(v@.take(i + 1)) =~= texts(v@.take(i as int)).push(v@[i as int]@));
        i = i + 1;
    }
    assert(v@.take(v@.len() as int) =~= v@);
    out
}

/// Whether two lists of texts are equal.
pub fn texts_eq(a: &Vec<String>, b: &Vec<String>) -> (r: bool)
    ensures
        r == (texts(a@) == texts(b@)),
{
    if a.len() != b.len() {
        assert(texts(a@).len() != texts(b@).len());
        return false;
    }
    let mut i: usize = 0;
    while i < a.len()
        invariant
            i <= a@.len(),
            a@.len() == b@.len(),
            forall|k: int| 0 <= k < i ==> a@[k]@ == b@[k]@,
        decreases a@.len() - i,
    {
        if a[i] != b[i] {
            assert(texts(a@)[i as int] != texts(b@)[i as int]);
            return false;
        }
        i = i + 1;
    }
    assert(texts(a@) =~= texts(b@));
    true
}

impl MediaEntry {
    /// A copy holding the same values.
    pub fn duplicate(&self) -> (r: MediaEntry)
        ensures
            same_entry(r, *self),
    {
        MediaEntry {
            id: self.id,
            name: self.name.clone(),
            slug: self.slug.clone(),
            provider: self.provider,
            language: self.language.clone(),
            media_type: self.media_type,
            alternative_names: copy_texts(&self.alternative_names),
            year: copy_opt_text(&self.year),
            score: copy_opt_text(&self.score),
            image_url: copy_opt_text(&self.image_url),
            description: copy_opt_text(&self.description),
        }
    }

    /// Whether two entries hold the same values.
    pub fn same_as(&self, other: &MediaEntry) -> (r: bool)
        ensures
            r == same_entry(*self, *other),
    {
        self.id == other.id && self.name == other.name && self.slug == other.slug
            && self.provider == other.provider && self.language == other.language
            && self.media_type == other.media_type && texts_eq(
            &self.alternative_names,
            &other.alternative_names,
        ) && opt_text_eq(&self.year, &other.year) && opt_text_eq(&self.score, &other.score)
            && opt_text_eq(&self.image_url, &other.image_url) && opt_text_eq(
            &self.description,
            &other.description,
        )
    }
}

impl Episode {
    /// A copy holding the same values.
    pub fn duplicate(&self) -> (r: Episode)
        ensures
            same_episode(r, *self),
    {
        Episode {
            id: self.id,
            number: self.number,
            name: self.name.clone(),
            duration: self.duration,
            image_url: copy_opt_text(&self.image_url),
        }
    }

    /// Whether two episodes hold the same values.
    pub fn same_as(&self, other: &Episode) -> (r: bool)
        ensures
            r == same_episode(*self, *other),
    {
        self.id == other.id && self.number == other.number && self.name == other.name
            && self.duration == other.duration && opt_text_eq(&self.image_url, &other.image_url)
    }
}

impl MediaEntry {
    /// Whether the entry is a film.
    pub fn is_movie(&self) -> (r: bool)
        ensures
            r == (self.media_type == MediaType::Movie),
    {
        self.media_type == MediaType::Movie
    }

    /// The release year, or an empty string when unknown.
    pub fn year_display(&self) -> (r: &str)
        ensures
            r@ == year_text(self.year),
    {
        match &self.year {
            Some(y) => y.as_str(),
            None => {
                let e = "";
                proof {
                    reveal_strlit("");
                }
                e
            },
        }
    }

    /// The title followed by the year in brackets, when known.
    pub fn display_title(&self) -> (r: String)
        ensures
            r@ == display_title_text(self.name@, self.year),
    {
        match &self.year {
            Some(y) => {
                let mut v = chars_of(self.name.as_str());
                v.push(' ');
                v.push('(');
                extend_str(&mut v, y.as_str());
                v.push(')');
                assert(v@ =~= self.name@ + seq![' ', '('] + y@ + seq![')']);
                string_of(&v)
            },
            None => self.name.clone(),
        }
    }

    /// The title of an episode of this show, as shown in the player.
    pub fn episode_title(&self, season: u32, ep: &Episode) -> (r: String)
        ensures
            r@ == episode_title_text(self.name@, season, ep.number, ep.name@),
    {
        let mut v = chars_of(self.name.as_str());
        v.push(' ');
        v.push('S');
        let s = pad2_chars(season as u64);
        extend_chars(&mut v, &s);
        v.push('E');
        let e = pad2_chars(ep.number as u64);
        extend_chars(&mut v, &e);
        let ghost base = v@;
        assert(base =~= self.name@ + seq![' ', 'S'] + pad2(season as nat) + seq!['E'] + pad2(
            ep.number as nat,
        ));
        let ep_name = chars_of(ep.name.as_str());
        if ep_name.len() > 0 {
            v.push(' ');
            v.push('-');
            v.push(' ');
            extend_chars(&mut v, &ep_name);
            assert(v@ =~= base + seq![' ', '-', ' '] + ep.name@);
        }
        string_of(&v)
    }
}

} // verus!
