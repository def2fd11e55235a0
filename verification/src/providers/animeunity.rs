//! AnimeUnity: session cookies and the compact slugs that carry a title's
//! id and episode count.
use crate::order::{sort_by_weight_desc, stably_sorted_desc};
use crate::providers::models::{entry_views, first_of_each, texts, unique_entries, EntryView, EpisodeView};
use crate::providers::streaming_community::{key_text, text_of};
use crate::providers::{Episode, MediaEntry, MediaType, ProviderError, StreamUrl};
use crate::text::{
    chars_of, decimal, decimal_chars, extend_chars, extend_str, find_first, has_prefix, occurs_at, occurs_at_exec,
    parse_u64, parse_u64_exec, replace_all, replace_all_exec, split_char, split_char_exec,
    string_of, trim_chars, trimmed,
};
use vstd::prelude::*;
use vstd::string::StringSliceAdditionalSpecFns;

verus! {

/// An ASCII hexadecimal digit.
pub open spec fn is_hex_byte(b: u8) -> bool {
    (48 <= b && b <= 57) || (65 <= b && b <= 70) || (97 <= b && b <= 102)
}

pub open spec fn hex_value(b: u8) -> nat {
    if 48 <= b && b <= 57 {
        (b - 48) as nat
    } else if 65 <= b && b <= 70 {
        (b - 55) as nat
    } else {
        (b - 87) as nat
    }
}

/// What `u8::from_str_radix(text, 16)` gives for a two-byte text: two hex
/// digits, or a `+` sign followed by one.
pub open spec fn hex_pair(b1: u8, b2: u8) -> Option<u8> {
    if is_hex_byte(b1) && is_hex_byte(b2) {
        Some((hex_value(b1) * 16 + hex_value(b2)) as u8)
    } else if b1 == 43 && is_hex_byte(b2) {
        Some(hex_value(b2) as u8)
    } else {
        None
    }
}

/// A UTF-8 continuation byte: no character starts there.
pub open spec fn is_continuation(b: u8) -> bool {
    128 <= b && b < 192
}

/// Bytes of `b` from position `i` on, with each `%` that is followed by a hex
/// pair replaced by the byte the pair encodes.
pub open spec fn percent_decoded(b: Seq<u8>, i: int) -> Seq<u8>
    decreases b.len() - i,
{
    if i < 0 || i >= b.len() {
        Seq::empty()
    } else if b[i] == 37 && i + 2 < b.len() && hex_pair(b[i + 1], b[i + 2]) is Some {
        seq![hex_pair(b[i + 1], b[i + 2])->0] + percent_decoded(b, i + 3)
    } else {
        seq![b[i]] + percent_decoded(b, i + 1)
    }
}

/// Whether decoding from position `i` would slice the text inside a
/// character (a `%` whose two-byte window ends before a continuation byte).
pub open spec fn percent_decode_splits_char(b: Seq<u8>, i: int) -> bool
    decreases b.len() - i,
{
    if i < 0 || i >= b.len() {
        false
    } else if b[i] == 37 && i + 2 < b.len() {
        (i + 3 < b.len() && is_continuation(b[i + 3])) || if hex_pair(b[i + 1], b[i + 2]) is Some {
            percent_decode_splits_char(b, i + 3)
        } else {
            percent_decode_splits_char(b, i + 1)
        }
    } else {
        percent_decode_splits_char(b, i + 1)
    }
}

/// `String::from_utf8_lossy`: the characters of `b`, with each invalid
/// sequence replaced by U+FFFD.
pub uninterp spec fn utf8_lossy(b: Seq<u8>) -> Seq<char>;

/// `String::from_utf8_lossy` followed by `to_string`. Its documentation says
/// that valid UTF-8 is decoded unchanged; what replaces invalid sequences is
/// left to the name.
#[verifier::external_body]
pub(crate) fn string_from_utf8_lossy(b: &[u8]) -> (s: String)
    ensures
        s@ == utf8_lossy(b@),
        vstd::utf8::valid_utf8(b@) ==> s@ == vstd::utf8::decode_utf8(b@),
{
    String::from_utf8_lossy(b).to_string()
}

fn hex_value_exec(b: u8) -> (r: Option<u8>)
    ensures
        r is Some <==> is_hex_byte(b),
        r is Some ==> r->0 == hex_value(b) && r->0 < 16,
{
    if 48 <= b && b <= 57 {
        Some(b - 48)
    } else if 65 <= b && b <= 70 {
        Some(b - 55)
    } else if 97 <= b && b <= 102 {
        Some(b - 87)
    } else {
        None
    }
}

fn hex_pair_exec(b1: u8, b2: u8) -> (r: Option<u8>)
    ensures
        r == hex_pair(b1, b2),
{
    match (hex_value_exec(b1), hex_value_exec(b2)) {
        (Some(h1), Some(h2)) => Some(h1 * 16 + h2),
        (None, Some(h2)) => {
            if b1 == 43 {
                Some(h2)
            } else {
                None
            }
        },
        _ => None,
    }
}

/// Decodes `%XX` escapes in a cookie value.
pub fn percent_decode(input: &str) -> (r: String)
    requires
        !percent_decode_splits_char(input.spec_bytes(), 0),
    ensures
        r@ == utf8_lossy(percent_decoded(input.spec_bytes(), 0)),
        vstd::utf8::valid_utf8(percent_decoded(input.spec_bytes(), 0)) ==> r@ == vstd::utf8::decode_utf8(
            percent_decoded(input.spec_bytes(), 0),
        ),
{
    let b = input.as_bytes();
    let ghost bs = b@;
    let mut out: Vec<u8> = Vec::new();
    let mut i: usize = 0;
    while i < b.len()
        invariant
            bs == b@,
            i <= bs.len(),
            percent_decoded(bs, 0) == out@ + percent_decoded(bs, i as int),
            !percent_decode_splits_char(bs, i as int),
        decreases bs.len() - i,
    {
        if b[i] == 37 && b.len() - i > 2 {
            match hex_pair_exec(b[i + 1], b[i + 2]) {
                Some(v) => {
                    let ghost prev = out@;
                    out.push(v);
                    assert(prev + (seq![v] + percent_decoded(bs, i + 3)) =~= out@
                        + percent_decoded(bs, i + 3));
                    i = i + 3;
                    continue;
                },
                None => {},
            }
        }
        let ghost prev = out@;
        out.push(b[i]);
        assert(prev + (seq![bs[i as int]] + percent_decoded(bs, i + 1)) =~= out@
            + percent_decoded(bs, i + 1));
        i = i + 1;
    }
    assert(out@ + percent_decoded(bs, i as int) =~= out@);
    string_from_utf8_lossy(out.as_slice())
}

/// The media id (first `:`-separated field) and episode count (third field)
/// of a slug, each 0 when absent or not a number.
pub open spec fn slug_fields(slug: Seq<char>) -> (u64, u64) {
    let parts = split_char(slug, ':');
    let id = match parse_u64(parts[0]) {
        Some(v) => v,
        None => 0,
    };
    let count = if parts.len() > 2 {
        match parse_u64(parts[2]) {
            Some(v) => v,
            None => 0,
        }
    } else {
        0
    };
    (id, count)
}

/// Reads the media id and episode count back out of an `id:slug:count` slug.
pub fn parse_slug(slug: &str) -> (r: (u64, u64))
    ensures
        r == slug_fields(slug@),
{
    let v = chars_of(slug);
    let parts = split_char_exec(&v, ':');
    proof {
        crate::text::lemma_split_char_nonempty(v@, ':');
    }
    let id = match parse_u64_exec(&parts[0]) {
        Some(x) => x,
        None => 0,
    };
    let count = if parts.len() > 2 {
        match parse_u64_exec(&parts[2]) {
            Some(x) => x,
            None => 0,
        }
    } else {
        0
    };
    (id, count)
}

/// The fields of an AnimeUnity record (each `None` when absent or not of
/// the expected JSON type; a numeric score comes as its text with one
/// decimal).
#[derive(Debug, Clone)]
pub struct AnimeRecord {
    pub id: Option<u64>,
    pub slug: Option<String>,
    pub title_eng: Option<String>,
    pub title: Option<String>,
    pub title_it: Option<String>,
    pub kind: Option<String>,
    pub episodes_count: Option<u64>,
    pub date: Option<String>,
    pub imageurl: Option<String>,
    pub plot: Option<String>,
    pub score: Option<String>,
}

/// A title, when present and not empty.
pub open spec fn nonempty(o: Option<String>) -> Option<Seq<char>> {
    match o {
        Some(s) => if s@.len() > 0 {
            Some(s@)
        } else {
            None
        },
        None => None,
    }
}

/// The name of a record: its English title, else its title, else its
/// Italian title (the first that is not empty).
pub open spec fn anime_name(r: AnimeRecord) -> Option<Seq<char>> {
    if nonempty(r.title_eng) is Some {
        nonempty(r.title_eng)
    } else if nonempty(r.title) is Some {
        nonempty(r.title)
    } else {
        nonempty(r.title_it)
    }
}

/// The other non-empty titles of a record, in that order.
pub open spec fn anime_alternatives(r: AnimeRecord, name: Seq<char>) -> Seq<Seq<char>> {
    let one = |o: Option<Seq<char>>|
        match o {
            Some(t) => if t != name {
                seq![t]
            } else {
                Seq::<Seq<char>>::empty()
            },
            None => Seq::<Seq<char>>::empty(),
        };
    one(nonempty(r.title_eng)) + one(nonempty(r.title)) + one(nonempty(r.title_it))
}

/// The entry of a record, when it has an id and a title: the slug packs
/// the id, the site's slug and the episode count as `id:slug:count`; the
/// year is the date up to its first `-`.
pub open spec fn anime_view(r: AnimeRecord) -> Option<EntryView> {
    match (r.id, anime_name(r)) {
        (Some(id), Some(name)) => Some(EntryView {
            id,
            name,
            slug: decimal(id as nat) + seq![':'] + key_text(r.slug) + seq![':'] + decimal(
                (match r.episodes_count {
                    Some(c) => c,
                    None => 0,
                }) as nat,
            ),
            provider: 0,
            language: "ja"@,
            media_type: if text_of(r.kind) == Some("Movie"@) || text_of(r.kind) == Some("Film"@) {
                MediaType::Movie
            } else {
                MediaType::Series
            },
            alternative_names: anime_alternatives(r, name),
            year: match r.date {
                Some(d) => Some(split_char(d@, '-')[0]),
                None => None,
            },
            score: text_of(r.score),
            image_url: text_of(r.imageurl),
            description: nonempty(r.plot),
        }),
        _ => None,
    }
}

/// The text, when present and not empty.
fn nonempty_exec(o: &Option<String>) -> (r: Option<String>)
    ensures
        text_of(r) == nonempty(*o),
{
    match o {
        Some(s) => if !s.as_str().is_empty() {
            Some(s.clone())
        } else {
            None
        },
        None => None,
    }
}

/// Whether an optional text is the given text.
fn is_text(o: &Option<String>, lit: &str) -> (r: bool)
    ensures
        r == (text_of(*o) == Some(lit@)),
{
    match o {
        Some(s) => crate::text::chars_equal(&chars_of(s.as_str()), &chars_of(lit)),
        None => false,
    }
}

/// Adds a title to the alternatives unless it is absent or the name.
fn push_alternative(v: &mut Vec<String>, t: &Option<String>, name: &String)
    ensures
        texts(final(v)@) == texts(old(v)@) + (match text_of(*t) {
            Some(x) => if x != name@ {
                seq![x]
            } else {
                Seq::<Seq<char>>::empty()
            },
            None => Seq::<Seq<char>>::empty(),
        }),
{
    let ghost before = v@;
    if let Some(x) = t {
        if !(*x == *name) {
            v.push(x.clone());
            assert(texts(v@) =~= texts(before) + seq![x@]);
            return;
        }
    }
    assert(texts(v@) =~= texts(before) + Seq::<Seq<char>>::empty());
}

/// The catalogue entry of a record, when it has an id and a title.
pub fn parse_record(r: &AnimeRecord) -> (e: Option<MediaEntry>)
    ensures
        match e {
            Some(x) => anime_view(*r) == Some(x@),
            None => anime_view(*r) is None,
        },
{
    let id = match r.id {
        Some(i) => i,
        None => return None,
    };
    let eng = nonempty_exec(&r.title_eng);
    let plain = nonempty_exec(&r.title);
    let it = nonempty_exec(&r.title_it);
    let name = match (&eng, &plain, &it) {
        (Some(n), _, _) => n.clone(),
        (None, Some(n), _) => n.clone(),
        (None, None, Some(n)) => n.clone(),
        _ => return None,
    };
    let mut alternative_names: Vec<String> = Vec::new();
    push_alternative(&mut alternative_names, &eng, &name);
    push_alternative(&mut alternative_names, &plain, &name);
    push_alternative(&mut alternative_names, &it, &name);
    let mut slug = decimal_chars(id);
    slug.push(':');
    match &r.slug {
        Some(s) => extend_str(&mut slug, s.as_str()),
        None => {},
    }
    slug.push(':');
    let count = match r.episodes_count {
        Some(c) => c,
        None => 0,
    };
    let cd = decimal_chars(count);
    extend_chars(&mut slug, &cd);
    proof {
        assert(slug@ =~= decimal(id as nat) + seq![':'] + key_text(r.slug) + seq![':'] + decimal(
            count as nat,
        ));
    }
    let movie = is_text(&r.kind, "Movie") || is_text(&r.kind, "Film");
    let year = match &r.date {
        Some(d) => {
            let parts = split_char_exec(&chars_of(d.as_str()), '-');
            proof {
                crate::text::lemma_split_char_nonempty(d@, '-');
            }
            Some(string_of(&parts[0]))
        },
        None => None,
    };
    let e = MediaEntry {
        id,
        name,
        slug: string_of(&slug),
        provider: 0,
        language: "ja".to_owned(),
        media_type: if movie {
            MediaType::Movie
        } else {
            MediaType::Series
        },
        alternative_names,
        year,
        score: match &r.score {
            Some(s) => Some(s.clone()),
            None => None,
        },
        image_url: match &r.imageurl {
            Some(s) => Some(s.clone()),
            None => None,
        },
        description: nonempty_exec(&r.plot),
    };
    assert(texts(e.alternative_names@) =~= anime_alternatives(*r, e.name@));
    Some(e)
}

/// The episode windows requested for a show: `[start, end]` from 1 to
/// `total`, 120 episodes at a time.
pub open spec fn windows_from(start: nat, total: nat) -> Seq<(u64, u64)>
    decreases total + 1 - start,
{
    if start > total || start == 0 {
        Seq::empty()
    } else {
        let end = if start + 119 <= total {
            start + 119
        } else {
            total
        };
        seq![(start as u64, end as u64)] + windows_from(end + 1, total)
    }
}

/// The windows in which episodes are requested.
pub fn episode_windows(total: u64) -> (r: Vec<(u64, u64)>)
    requires
        total < u64::MAX,
    ensures
        r@ == windows_from(1, total as nat),
{
    let mut r: Vec<(u64, u64)> = Vec::new();
    let mut start: u64 = 1;
    while start <= total
        invariant
            1 <= start <= total + 1,
            total < u64::MAX,
            windows_from(1, total as nat) == r@ + windows_from(start as nat, total as nat),
        decreases total + 1 - start,
    {
        let end = if total - start >= 119 {
            start + 119
        } else {
            total
        };
        let ghost prev = r@;
        r.push((start, end));
        assert(prev + (seq![(start, end)] + windows_from((end + 1) as nat, total as nat)) =~= r@
            + windows_from((end + 1) as nat, total as nat));
        start = end + 1;
    }
    assert(r@ + windows_from(start as nat, total as nat) =~= r@);
    r
}

/// The windows cover the episodes from 1 to `total` in order, each window
/// holding at most 120 of them and starting where the previous one ended.
pub proof fn law_windows_cover_all(start: nat, total: nat)
    requires
        start >= 1,
        start <= total + 1,
        total < u64::MAX,
    ensures
        ({
            let w = windows_from(start, total);
            &&& forall|i: int| 0 <= i < w.len() ==> #[trigger] w[i].0 <= w[i].1 && w[i].1 - w[i].0 < 120
            &&& w.len() > 0 ==> w[0].0 == start && w.last().1 == total
            &&& forall|i: int, j: int|
                0 <= i && j == i + 1 && j < w.len() ==> (#[trigger] w[j]).0 == (#[trigger] w[i]).1 + 1
        }),
    decreases total + 1 - start,
{
    if start <= total {
        let end = if start + 119 <= total {
            start + 119
        } else {
            total
        };
        law_windows_cover_all(end + 1, total);
        let rest = windows_from(end + 1, total);
        let w = windows_from(start, total);
        assert(w == seq![(start as u64, end as u64)] + rest);
        assert forall|i: int, j: int| 0 <= i && j == i + 1 && j < w.len() implies (
        #[trigger] w[j]).0 == (#[trigger] w[i]).1 + 1 by {
            if i > 0 {
                assert(w[i] == rest[i - 1] && w[j] == rest[j - 1]);
            } else {
                assert(w[1] == rest[0]);
                assert(rest[0].0 == end + 1);
            }
        }
        assert forall|i: int| 0 <= i < w.len() implies #[trigger] w[i].0 <= w[i].1 && w[i].1 - w[i].0
            < 120 by {
            if i > 0 {
                assert(w[i] == rest[i - 1]);
            }
        }
        if rest.len() > 0 {
            assert(w.last() == rest.last());
        }
    }
}

/// The fields of an episode record; the number as the site gives it,
/// read as a whole number when it is one.
#[derive(Debug, Clone)]
pub struct AnimeEpisodeRecord {
    pub id: Option<u64>,
    pub number: Option<u32>,
    pub title: Option<String>,
    pub title_it: Option<String>,
    pub imageurl: Option<String>,
}

/// `Episode {n}`.
pub open spec fn episode_label(n: u32) -> Seq<char> {
    "Episode "@ + decimal(n as nat)
}

/// The episodes the records describe, in record order: those with an id;
/// an episode without a number takes its position (from 1); one without a
/// title (or with an empty one) is called `Episode {n}`.
pub open spec fn kept_anime_episodes(rs: Seq<AnimeEpisodeRecord>) -> Seq<EpisodeView>
    decreases rs.len(),
{
    if rs.len() == 0 {
        Seq::empty()
    } else {
        let rest = kept_anime_episodes(rs.drop_last());
        let r = rs.last();
        let number = match r.number {
            Some(n) => n,
            None => (rs.len() % 0x1_0000_0000) as u32,
        };
        let title = if r.title is Some {
            r.title
        } else {
            r.title_it
        };
        match r.id {
            Some(id) => rest.push(
                EpisodeView {
                    id,
                    number,
                    name: match nonempty(title) {
                        Some(t) => t,
                        None => episode_label(number),
                    },
                    duration: None,
                    image_url: text_of(r.imageurl),
                },
            ),
            None => rest,
        }
    }
}

/// `r` lists the kept episodes reordered by `p`: by ascending number,
/// keeping the record order among equal numbers.
pub open spec fn anime_episodes_ordered(r: Seq<Episode>, kept: Seq<EpisodeView>, p: Seq<int>) -> bool {
    &&& r.len() == kept.len()
    &&& p.len() == kept.len()
    &&& forall|i: int| 0 <= i < r.len() ==> 0 <= #[trigger] p[i] < kept.len() && r[i]@ == kept[p[i]]
    &&& forall|i: int, j: int|
        0 <= i < j < r.len() ==> (#[trigger] r[i]).number < (#[trigger] r[j]).number || (
        r[i].number == r[j].number && p[i] < p[j])
}

/// The episodes of a show, ordered by number.
pub fn anime_episodes(records: &Vec<AnimeEpisodeRecord>) -> (r: Vec<Episode>)
    ensures
        exists|p: Seq<int>| anime_episodes_ordered(r@, kept_anime_episodes(records@), p),
{
    let mut cands: Vec<(Episode, u64)> = Vec::new();
    let mut i: usize = 0;
    while i < records.len()
        invariant
            i <= records@.len(),
            cands@.len() == kept_anime_episodes(records@.take(i as int)).len(),
            forall|k: int|
                0 <= k < cands@.len() ==> (#[trigger] cands@[k]).0@ == kept_anime_episodes(
                    records@.take(i as int),
                )[k] && cands@[k].1 == 0xFFFF_FFFF - cands@[k].0.number,
        decreases records@.len() - i,
    {
        let rec = &records[i];
        assert(records@.take(i + 1).drop_last() =~= records@.take(i as int));
        assert(records@.take(i + 1).last() == *rec);
        if let Some(id) = rec.id {
            let number = match rec.number {
                Some(n) => n,
                None => {
                    let ip1: u64 = i as u64 + 1;
                    let pos = ip1 & 0xFFFF_FFFF;
                    assert(pos == ip1 % 0x1_0000_0000) by (bit_vector)
                        requires
                            pos == ip1 & 0xFFFF_FFFF,
                    ;
                    pos as u32
                },
            };
            let title = if rec.title.is_some() {
                &rec.title
            } else {
                &rec.title_it
            };
            let name = match nonempty_exec(title) {
                Some(t) => t,
                None => {
                    let mut v = chars_of("Episode ");
                    let d = decimal_chars(number as u64);
                    extend_chars(&mut v, &d);
                    string_of(&v)
                },
            };
            let ep = Episode {
                id,
                number,
                name,
                duration: None,
                image_url: match &rec.imageurl {
                    Some(s) => Some(s.clone()),
                    None => None,
                },
            };
            cands.push((ep, 0xFFFF_FFFF - number as u64));
        }
        i = i + 1;
    }
    assert(records@.take(records@.len() as int) =~= records@);
    let ghost all = cands@;
    let sorted = sort_by_weight_desc(cands);
    let ghost p = choose|p: Seq<int>| stably_sorted_desc(sorted@, all, p);
    let mut out: Vec<Episode> = Vec::new();
    let mut sorted = sorted;
    let ghost sv = sorted@;
    let mut j: usize = 0;
    let n = sorted.len();
    while j < n
        invariant
            n == sv.len(),
            j <= n,
            sorted@ =~= sv.skip(j as int),
            out@.len() == j,
            forall|k: int| 0 <= k < j ==> #[trigger] out@[k] == sv[k].0,
        decreases n - j,
    {
        let (e, _) = sorted.remove(0);
        out.push(e);
        j = j + 1;
        assert(sorted@ =~= sv.skip(j as int));
    }
    let ghost kept = kept_anime_episodes(records@);
    assert forall|a: int, b: int| 0 <= a < b < out@.len() implies (#[trigger] out@[a]).number < (
    #[trigger] out@[b]).number || (out@[a].number == out@[b].number && p[a] < p[b]) by {
        assert(sv[a] == all[p[a]] && sv[b] == all[p[b]]);
    }
    assert forall|a: int| 0 <= a < out@.len() implies 0 <= #[trigger] p[a] < kept.len() && out@[a]@
        == kept[p[a]] by {
        assert(sv[a] == all[p[a]]);
    }
    assert(anime_episodes_ordered(out@, kept, p));
    out
}

/// The direct video of an embed page, from the text of its second script:
/// what follows the first ` = `, without quotes, trimmed, when it is an
/// `http` address.
pub open spec fn direct_video(scripts: Seq<Seq<char>>) -> Option<Seq<char>> {
    if scripts.len() >= 2 {
        let parts = split_on(scripts[1], " = "@);
        if parts.len() >= 2 {
            let url = trimmed(replace_all(parts[1], seq!['\''], Seq::empty()));
            if has_prefix(url, "http"@) {
                Some(url)
            } else {
                None
            }
        } else {
            None
        }
    } else {
        None
    }
}

/// The pieces of `s` between occurrences of `sep` (what `str::split` with
/// a text separator yields).
pub open spec fn split_on(s: Seq<char>, sep: Seq<char>) -> Seq<Seq<char>>
    decreases s.len(),
{
    match crate::text::first_occurrence(s, sep) {
        Some(i) => if sep.len() > 0 && 0 <= i && i + sep.len() <= s.len() {
            seq![s.take(i)] + split_on(s.skip(i + sep.len()), sep)
        } else {
            seq![s]
        },
        None => seq![s],
    }
}

/// The characters from `i` on.
fn chars_from(v: &Vec<char>, i: usize) -> (r: Vec<char>)
    requires
        i <= v@.len(),
    ensures
        r@ == v@.skip(i as int),
{
    let mut out: Vec<char> = Vec::new();
    let mut k: usize = i;
    while k < v.len()
        invariant
            i <= k <= v@.len(),
            out@ =~= v@.subrange(i as int, k as int),
        decreases v@.len() - k,
    {
        out.push(v[k]);
        k = k + 1;
    }
    out
}

/// The first `n` characters.
fn chars_take(v: &Vec<char>, n: usize) -> (r: Vec<char>)
    requires
        n <= v@.len(),
    ensures
        r@ == v@.take(n as int),
{
    let mut out: Vec<char> = Vec::new();
    let mut k: usize = 0;
    while k < n
        invariant
            k <= n <= v@.len(),
            out@ =~= v@.take(k as int),
        decreases n - k,
    {
        out.push(v[k]);
        k = k + 1;
    }
    out
}

/// The address of the direct video named in an embed page's scripts (their
/// texts, in page order), if the second script names one.
pub fn direct_video_exec(scripts: &Vec<String>) -> (r: Option<String>)
    ensures
        text_of(r) == direct_video(texts(scripts@)),
{
    let ghost sv = texts(scripts@);
    if scripts.len() < 2 {
        return None;
    }
    let s = chars_of(scripts[1].as_str());
    assert(s@ == sv[1]);
    let sep = chars_of(" = ");
    proof {
        reveal_strlit(" = ");
    }
    let first = match find_first(&s, &sep) {
        Some(i) => i,
        None => {
            assert(split_on(s@, sep@) == seq![s@]);
            return None;
        },
    };
    assert(occurs_at(s@, sep@, first as int));
    let slen = s.len();
    assert(first + sep@.len() <= slen);
    let rest = chars_from(&s, first + sep.len());
    assert(split_on(s@, sep@) == seq![s@.take(first as int)] + split_on(rest@, sep@));
    let piece = match find_first(&rest, &sep) {
        Some(j) => {
            assert(split_on(rest@, sep@) == seq![rest@.take(j as int)] + split_on(
                rest@.skip(j + sep@.len()),
                sep@,
            ));
            chars_take(&rest, j)
        },
        None => {
            assert(split_on(rest@, sep@) == seq![rest@]);
            chars_take(&rest, rest.len())
        },
    };
    proof {
        assert(rest@.take(rest@.len() as int) =~= rest@);
        assert(split_on(s@, sep@)[1] == piece@);
    }
    let quote: Vec<char> = vec!['\''];
    let nothing: Vec<char> = Vec::new();
    let unquoted = replace_all_exec(&piece, &quote, &nothing);
    assert(quote@ =~= seq!['\'']);
    assert(nothing@ =~= Seq::<char>::empty());
    let url = trim_chars(&unquoted);
    let http = chars_of("http");
    if occurs_at_exec(&url, &http, 0) {
        Some(string_of(&url))
    } else {
        None
    }
}

/// Whether decoding would slice the text inside a character (where
/// `percent_decode` is not defined).
pub fn percent_decode_would_split(input: &str) -> (r: bool)
    ensures
        r == percent_decode_splits_char(input.spec_bytes(), 0),
{
    let b = input.as_bytes();
    let ghost bs = b@;
    let mut i: usize = 0;
    while i < b.len()
        invariant
            bs == b@,
            bs == input.spec_bytes(),
            i <= bs.len(),
            percent_decode_splits_char(bs, 0) == percent_decode_splits_char(bs, i as int),
        decreases bs.len() - i,
    {
        if b[i] == 37 && b.len() - i > 2 {
            if b.len() - i > 3 && 128 <= b[i + 3] && b[i + 3] < 192 {
                assert(is_continuation(bs[i + 3]));
                assert(percent_decode_splits_char(bs, i as int));
                return true;
            }
            match hex_pair_exec(b[i + 1], b[i + 2]) {
                Some(_) => {
                    i = i + 3;
                    continue;
                },
                None => {},
            }
        }
        i = i + 1;
    }
    false
}

/// The stream of an embed page, from its scripts' texts: the direct video
/// when the second script names one, else the playlist built from the
/// first script.
pub open spec fn embed_stream(scripts: Seq<Seq<char>>) -> Option<Seq<char>> {
    if direct_video(scripts) is Some {
        direct_video(scripts)
    } else if scripts.len() > 0 {
        crate::providers::vixcloud_url(scripts[0])
    } else {
        None
    }
}

/// The stream of an embed page, from its scripts' texts.
pub fn stream_from_scripts(scripts: &Vec<String>) -> (r: Option<String>)
    ensures
        text_of(r) == embed_stream(texts(scripts@)),
{
    let direct = direct_video_exec(scripts);
    if direct.is_some() {
        return direct;
    }
    if scripts.len() == 0 {
        return None;
    }
    assert(texts(scripts@)[0] == scripts@[0]@);
    crate::providers::parse_vixcloud_hls(scripts[0].as_str())
}

/// The entries of the records that have an id and a title, in order.
pub open spec fn anime_views(recs: Seq<AnimeRecord>) -> Seq<EntryView>
    decreases recs.len(),
{
    if recs.len() == 0 {
        Seq::empty()
    } else {
        let rest = anime_views(recs.drop_last());
        match anime_view(recs.last()) {
            Some(e) => rest.push(e),
            None => rest,
        }
    }
}

/// The entries of the records, in order.
pub fn anime_entries(records: &Vec<AnimeRecord>) -> (r: Vec<MediaEntry>)
    ensures
        entry_views(r@) == anime_views(records@),
{
    let mut out: Vec<MediaEntry> = Vec::new();
    let mut i: usize = 0;
    while i < records.len()
        invariant
            i <= records@.len(),
            entry_views(out@) == anime_views(records@.take(i as int)),
        decreases records@.len() - i,
    {
        assert(records@.take(i + 1).drop_last() =~= records@.take(i as int));
        assert(records@.take(i + 1).last() == records@[i as int]);
        let ghost before = out@;
        match parse_record(&records[i]) {
            Some(e) => {
                out.push(e);
                assert(entry_views(out@) =~= entry_views(before).push(e@));
            },
            None => {},
        }
        i = i + 1;
    }
    assert(records@.take(records@.len() as int) =~= records@);
    out
}

/// The search results: the entries of the live search's records, then of
/// the archive's, each title once (its first entry).
pub fn anime_search_results(live: &Vec<AnimeRecord>, archive: &Vec<AnimeRecord>) -> (r: Vec<MediaEntry>)
    ensures
        entry_views(r@) == first_of_each(anime_views(live@) + anime_views(archive@)),
{
    let mut all = anime_entries(live);
    let mut more = anime_entries(archive);
    let ghost a = all@;
    let ghost b = more@;
    all.append(&mut more);
    assert(entry_views(all@) =~= entry_views(a) + entry_views(b));
    unique_entries(all)
}

/// The first `limit` entries of a list (the first one when `limit` is 0).
pub open spec fn capped<A>(s: Seq<A>, limit: usize) -> Seq<A> {
    let cap: int = if limit == 0 {
        1
    } else {
        limit as int
    };
    if s.len() <= cap {
        s
    } else {
        s.take(cap)
    }
}

/// The catalogue: the entries of the archive's records, stopping once
/// `limit` are listed.
pub fn anime_catalog(records: &Vec<AnimeRecord>, limit: usize) -> (r: Vec<MediaEntry>)
    ensures
        entry_views(r@) == capped(anime_views(records@), limit),
{
    let mut out: Vec<MediaEntry> = Vec::new();
    let ghost cap: int = if limit == 0 {
        1
    } else {
        limit as int
    };
    let mut i: usize = 0;
    while i < records.len()
        invariant
            i <= records@.len(),
            entry_views(out@) == anime_views(records@.take(i as int)),
            out@.len() < cap,
            cap == if limit == 0 {
                1
            } else {
                limit as int
            },
        decreases records@.len() - i,
    {
        assert(records@.take(i + 1).drop_last() =~= records@.take(i as int));
        assert(records@.take(i + 1).last() == records@[i as int]);
        let ghost before = out@;
        match parse_record(&records[i]) {
            Some(e) => {
                out.push(e);
                assert(entry_views(out@) =~= entry_views(before).push(e@));
                if out.len() >= limit {
                    proof {
                        lemma_anime_views_prefix(records@, i + 1);
                        let all = anime_views(records@);
                        if all.len() <= cap {
                            assert(all.take(all.len() as int) =~= all);
                        }
                    }
                    return out;
                }
            },
            None => {},
        }
        i = i + 1;
    }
    assert(records@.take(records@.len() as int) =~= records@);
    out
}

proof fn lemma_anime_views_prefix(recs: Seq<AnimeRecord>, k: int)
    requires
        0 <= k <= recs.len(),
    ensures
        anime_views(recs.take(k)).len() <= anime_views(recs).len(),
        anime_views(recs).take(anime_views(recs.take(k)).len() as int) == anime_views(recs.take(k)),
    decreases recs.len(),
{
    if k == recs.len() {
        assert(recs.take(k) =~= recs);
        assert(anime_views(recs).take(anime_views(recs).len() as int) =~= anime_views(recs));
    } else {
        let d = recs.drop_last();
        assert(recs.take(k) =~= d.take(k));
        lemma_anime_views_prefix(d, k);
        let a = anime_views(d.take(k));
        let b = anime_views(d);
        assert(anime_views(recs).take(a.len() as int) =~= b.take(a.len() as int));
    }
}

/// The body of a live search request for a query.
pub fn search_form_body(query: &str) -> (r: String)
    ensures
        r@ == "title="@ + crate::providers::form_encoded(query.spec_bytes()),
{
    let mut v = chars_of("title=");
    extend_str(&mut v, crate::providers::form_urlencode(query).as_str());
    string_of(&v)
}

/// The embed page address of an episode, from the trimmed reply; an error
/// when it is not a web address.
pub fn embed_target(reply: &str) -> (r: Result<String, ProviderError>)
    ensures
        match r {
            Ok(u) => u@ == trimmed(reply@) && has_prefix(trimmed(reply@), "http"@),
            Err(e) => !has_prefix(trimmed(reply@), "http"@) && (e matches ProviderError::StreamExtraction(m)
                && m@ == "Empty embed URL"@),
        },
{
    let t = trim_chars(&chars_of(reply));
    if occurs_at_exec(&t, &chars_of("http"), 0) {
        Ok(string_of(&t))
    } else {
        Err(ProviderError::StreamExtraction("Empty embed URL".to_string()))
    }
}

/// The stream of an embed page: from the texts of the scripts of its body.
pub fn extract_stream(html: &str) -> (r: Option<String>)
    ensures
        text_of(r) == embed_stream(crate::providers::html_text_of(html@, "body script"@)),
{
    let scripts = crate::providers::html_text(html, "body script");
    stream_from_scripts(&scripts)
}

/// The stream of an embed page; an error when none can be found.
pub fn stream_of_embed(html: &str) -> (r: Result<StreamUrl, ProviderError>)
    ensures
        match r {
            Ok(s) => embed_stream(crate::providers::html_text_of(html@, "body script"@)) == Some(s.url@)
                && s.headers@.len() == 0,
            Err(e) => embed_stream(crate::providers::html_text_of(html@, "body script"@)) is None && (e matches ProviderError::StreamExtraction(m)
                && m@ == "Could not extract stream URL"@),
        },
{
    match extract_stream(html) {
        Some(url) => Ok(StreamUrl { url, headers: Vec::new() }),
        None => Err(ProviderError::StreamExtraction("Could not extract stream URL".to_string())),
    }
}

/// The only season of an AnimeUnity title.
pub fn anime_seasons() -> (r: Vec<crate::providers::Season>)
    ensures
        r@.len() == 1,
        r@[0].id == 1 && r@[0].number == 1 && text_of(r@[0].name) == Some("Season 1"@),
{
    let mut v: Vec<crate::providers::Season> = Vec::new();
    v.push(crate::providers::Season { id: 1, number: 1, name: Some("Season 1".to_string()) });
    v
}

/// The value of a cookie header after its name: up to the first `;`.
pub open spec fn cookie_value(header: Seq<char>, name_len: int) -> Seq<char> {
    split_char(header.skip(name_len), ';')[0]
}

/// What a cookie value decodes to.
pub open spec fn decoded_value(v: Seq<char>) -> Seq<char> {
    utf8_lossy(percent_decoded(vstd::utf8::encode_utf8(v), 0))
}

/// Whether the session cookies of the headers can be decoded: no escape in
/// them ends inside a multi-byte character.
pub open spec fn cookies_decodable(headers: Seq<Seq<char>>) -> bool {
    forall|i: int|
        0 <= i < headers.len() ==> {
            let h = #[trigger] headers[i];
            &&& has_prefix(h, "XSRF-TOKEN="@) ==> !percent_decode_splits_char(
                vstd::utf8::encode_utf8(cookie_value(h, 11)),
                0,
            )
            &&& has_prefix(h, "animeunity_session="@) ==> !percent_decode_splits_char(
                vstd::utf8::encode_utf8(cookie_value(h, 19)),
                0,
            )
        }
}

/// The XSRF token and session read from the cookie headers: the last of
/// each, decoded; empty when absent.
pub open spec fn session_cookies(headers: Seq<Seq<char>>) -> (Seq<char>, Seq<char>)
    decreases headers.len(),
{
    if headers.len() == 0 {
        (Seq::empty(), Seq::empty())
    } else {
        let (x, s) = session_cookies(headers.drop_last());
        let h = headers.last();
        if has_prefix(h, "XSRF-TOKEN="@) {
            (decoded_value(cookie_value(h, 11)), s)
        } else if has_prefix(h, "animeunity_session="@) {
            (x, decoded_value(cookie_value(h, 19)))
        } else {
            (x, s)
        }
    }
}

/// The value of a cookie header after a name of `name_len` characters.
fn cookie_value_exec(h: &Vec<char>, name_len: usize) -> (r: String)
    requires
        name_len <= h@.len(),
    ensures
        r@ == cookie_value(h@, name_len as int),
{
    let mut rest: Vec<char> = Vec::new();
    let mut i: usize = name_len;
    while i < h.len()
        invariant
            name_len <= i <= h@.len(),
            rest@ == h@.subrange(name_len as int, i as int),
        decreases h@.len() - i,
    {
        rest.push(h[i]);
        i = i + 1;
        assert(rest@ =~= h@.subrange(name_len as int, i as int));
    }
    assert(rest@ =~= h@.skip(name_len as int));
    let parts = split_char_exec(&rest, ';');
    proof {
        crate::text::lemma_split_char_nonempty(rest@, ';');
    }
    string_of(&parts[0])
}

/// The XSRF token and session of the site's cookie headers; an error when
/// no XSRF token is set.
pub fn auth_from_cookies(headers: &Vec<String>) -> (r: Result<(String, String), ProviderError>)
    requires
        cookies_decodable(texts(headers@)),
    ensures
        match r {
            Ok((x, s)) => x@ == session_cookies(texts(headers@)).0 && s@ == session_cookies(texts(headers@)).1
                && x@.len() > 0,
            Err(e) => session_cookies(texts(headers@)).0.len() == 0 && (e matches ProviderError::Network(m)
                && m@ == "Failed to get XSRF token"@),
        },
{
    let ghost hs = texts(headers@);
    let mut xsrf = String::new();
    let mut session = String::new();
    let x_name = chars_of("XSRF-TOKEN=");
    let s_name = chars_of("animeunity_session=");
    proof {
        reveal_strlit("XSRF-TOKEN=");
        reveal_strlit("animeunity_session=");
    }
    let mut i: usize = 0;
    while i < headers.len()
        invariant
            i <= headers@.len(),
            hs == texts(headers@),
            cookies_decodable(hs),
            x_name@ == "XSRF-TOKEN="@,
            s_name@ == "animeunity_session="@,
            x_name@.len() == 11,
            s_name@.len() == 19,
            (xsrf@, session@) == session_cookies(hs.take(i as int)),
        decreases headers@.len() - i,
    {
        let h = chars_of(headers[i].as_str());
        assert(hs[i as int] == h@);
        assert(hs.take(i + 1).drop_last() =~= hs.take(i as int));
        assert(hs.take(i + 1).last() == h@);
        if occurs_at_exec(&h, &x_name, 0) {
            let v = cookie_value_exec(&h, 11);
            xsrf = percent_decode(v.as_str());
        } else if occurs_at_exec(&h, &s_name, 0) {
            let v = cookie_value_exec(&h, 19);
            session = percent_decode(v.as_str());
        }
        i = i + 1;
    }
    assert(hs.take(headers@.len() as int) =~= hs);
    if xsrf.as_str().is_empty() {
        return Err(ProviderError::Network("Failed to get XSRF token".to_string()));
    }
    Ok((xsrf, session))
}

/// Whether decoding the session cookies of the headers would cut a
/// multi-byte character (which the decoder does not accept).
pub fn cookies_would_split(headers: &Vec<String>) -> (r: bool)
    ensures
        r == !cookies_decodable(texts(headers@)),
{
    let ghost hs = texts(headers@);
    let x_name = chars_of("XSRF-TOKEN=");
    let s_name = chars_of("animeunity_session=");
    proof {
        reveal_strlit("XSRF-TOKEN=");
        reveal_strlit("animeunity_session=");
    }
    let mut i: usize = 0;
    while i < headers.len()
        invariant
            i <= headers@.len(),
            hs == texts(headers@),
            x_name@ == "XSRF-TOKEN="@,
            s_name@ == "animeunity_session="@,
            x_name@.len() == 11,
            s_name@.len() == 19,
            forall|k: int|
                0 <= k < i ==> {
                    let h = #[trigger] hs[k];
                    &&& has_prefix(h, "XSRF-TOKEN="@) ==> !percent_decode_splits_char(
                        vstd::utf8::encode_utf8(cookie_value(h, 11)),
                        0,
                    )
                    &&& has_prefix(h, "animeunity_session="@) ==> !percent_decode_splits_char(
                        vstd::utf8::encode_utf8(cookie_value(h, 19)),
                        0,
                    )
                },
        decreases headers@.len() - i,
    {
        let h = chars_of(headers[i].as_str());
        assert(hs[i as int] == h@);
        if occurs_at_exec(&h, &x_name, 0) {
            let v = cookie_value_exec(&h, 11);
            if percent_decode_would_split(v.as_str()) {
                return true;
            }
        }
        if occurs_at_exec(&h, &s_name, 0) {
            let v = cookie_value_exec(&h, 19);
            if percent_decode_would_split(v.as_str()) {
                return true;
            }
        }
        i = i + 1;
    }
    false
}

} // verus!
