//! StreamingCommunity: turning the site's title records into catalogue
//! entries, seasons and episodes, and the URLs its pages live at. The
//! records hold, as plain values, the fields read from the site's JSON.
use crate::order::{sort_by_weight_desc, stably_sorted_desc};
use crate::providers::models::{entry_views, has_entry_id, texts, EntryView};
use crate::providers::models::EpisodeView;
use crate::providers::{Episode, MediaEntry, MediaType, ProviderError, Season, StreamUrl};
use crate::text::{
    byte_prefix, byte_prefix_exec, chars_of, decimal, decimal_chars, extend_chars, extend_str,
    replace_all, replace_all_exec, string_of, trim_chars, trimmed,
};
use vstd::prelude::*;

verus! {

/// The language titles are listed in unless a record says otherwise.
pub const LANG: &'static str = "it";

/// A `{key, value}` pair of a title's translations.
#[derive(Debug, Clone)]
pub struct Translation {
    pub key: Option<String>,
    pub value: Option<String>,
}

/// An image of a title: its kind and file name.
#[derive(Debug, Clone)]
pub struct ImageRecord {
    pub kind: Option<String>,
    pub filename: Option<String>,
}

/// The fields of a title record (each `None` when absent or not of the
/// expected JSON type); `translations` and `images` are `None` when not a
/// list.
#[derive(Debug, Clone)]
pub struct TitleRecord {
    pub id: Option<u64>,
    pub name: Option<String>,
    pub slug: Option<String>,
    pub kind: Option<String>,
    pub original_name: Option<String>,
    pub score: Option<String>,
    pub translations: Option<Vec<Translation>>,
    pub last_air_date: Option<String>,
    pub release_date: Option<String>,
    pub plot: Option<String>,
    pub description: Option<String>,
    pub overview: Option<String>,
    pub images: Option<Vec<ImageRecord>>,
}

/// The fields of a season record.
#[derive(Debug, Clone)]
pub struct SeasonRecord {
    pub id: Option<u64>,
    pub number: Option<u64>,
    pub name: Option<String>,
}

/// The fields of an episode record.
#[derive(Debug, Clone)]
pub struct EpisodeRecord {
    pub id: Option<u64>,
    pub number: Option<u64>,
    pub name: Option<String>,
    pub duration: Option<u64>,
    pub images: Option<Vec<ImageRecord>>,
}

/// The text held, if any.
pub open spec fn text_of(o: Option<String>) -> Option<Seq<char>> {
    match o {
        Some(s) => Some(s@),
        None => None,
    }
}

/// The year of a date: its first four bytes.
pub open spec fn year_of(date: Option<String>) -> Option<Seq<char>> {
    match date {
        Some(d) => byte_prefix(d@, 4),
        None => None,
    }
}

/// A translation's key, empty when absent.
pub open spec fn key_text(k: Option<String>) -> Seq<char> {
    match k {
        Some(s) => s@,
        None => Seq::empty(),
    }
}

/// The year from the translations: the first release or first-air date
/// whose first four bytes can be taken.
pub open spec fn translated_year(ts: Seq<Translation>) -> Option<Seq<char>>
    decreases ts.len(),
{
    if ts.len() == 0 {
        None
    } else {
        let t = ts[0];
        let k = key_text(t.key);
        if (k == "first_air_date"@ || k == "release_date"@) && year_of(t.value) is Some {
            year_of(t.value)
        } else {
            translated_year(ts.drop_first())
        }
    }
}

/// A title's year: from its translations, else its last air date, else its
/// release date.
pub open spec fn title_year(r: TitleRecord) -> Option<Seq<char>> {
    let from_translations = match r.translations {
        Some(ts) => translated_year(ts@),
        None => None,
    };
    if from_translations is Some {
        from_translations
    } else if year_of(r.last_air_date) is Some {
        year_of(r.last_air_date)
    } else {
        year_of(r.release_date)
    }
}

/// The description from the translations: the first description, overview
/// or plot that is more than whitespace, trimmed.
pub open spec fn translated_description(ts: Seq<Translation>) -> Option<Seq<char>>
    decreases ts.len(),
{
    if ts.len() == 0 {
        None
    } else {
        let t = ts[0];
        let k = key_text(t.key);
        if (k == "description"@ || k == "overview"@ || k == "plot"@) && t.value is Some && trimmed(
            t.value->0@,
        ).len() > 0 {
            Some(trimmed(t.value->0@))
        } else {
            translated_description(ts.drop_first())
        }
    }
}

/// A title's description: from its translations, else the first of its
/// plot, description and overview fields present, trimmed, unless that one
/// is only whitespace.
pub open spec fn title_description(r: TitleRecord) -> Option<Seq<char>> {
    let from_translations = match r.translations {
        Some(ts) => translated_description(ts@),
        None => None,
    };
    if from_translations is Some {
        from_translations
    } else {
        let first = if r.plot is Some {
            r.plot
        } else if r.description is Some {
            r.description
        } else {
            r.overview
        };
        match first {
            Some(s) => if trimmed(s@).len() > 0 {
                Some(trimmed(s@))
            } else {
                None
            },
            None => None,
        }
    }
}

/// The image host: the site's address with `stream` turned into
/// `cdn.stream`.
pub open spec fn cdn_of(base_url: Seq<char>) -> Seq<char> {
    replace_all(base_url, "stream"@, "cdn.stream"@)
}

/// The first image of the kind that has a file name.
pub open spec fn image_of_kind(imgs: Seq<ImageRecord>, kind: Seq<char>) -> Option<Seq<char>>
    decreases imgs.len(),
{
    if imgs.len() == 0 {
        None
    } else if text_of(imgs[0].kind) == Some(kind) && imgs[0].filename is Some {
        Some(imgs[0].filename->0@)
    } else {
        image_of_kind(imgs.drop_first(), kind)
    }
}

/// The file of a title's preferred image: a poster, else a cover, a mobile
/// cover or a background, else the first image's file.
pub open spec fn image_file(imgs: Seq<ImageRecord>) -> Option<Seq<char>> {
    if image_of_kind(imgs, "poster"@) is Some {
        image_of_kind(imgs, "poster"@)
    } else if image_of_kind(imgs, "cover"@) is Some {
        image_of_kind(imgs, "cover"@)
    } else if image_of_kind(imgs, "cover_mobile"@) is Some {
        image_of_kind(imgs, "cover_mobile"@)
    } else if image_of_kind(imgs, "background"@) is Some {
        image_of_kind(imgs, "background"@)
    } else if imgs.len() > 0 {
        text_of(imgs[0].filename)
    } else {
        None
    }
}

/// The address of a title's preferred image.
pub open spec fn image_url_of(images: Option<Vec<ImageRecord>>, base_url: Seq<char>) -> Option<
    Seq<char>,
> {
    match images {
        Some(imgs) => match image_file(imgs@) {
            Some(f) => Some(cdn_of(base_url) + "/images/"@ + f),
            None => None,
        },
        None => None,
    }
}

/// Films, movies and OVAs are films; everything else is a show.
pub open spec fn kind_media_type(kind: Option<String>) -> MediaType {
    match kind {
        Some(k) => if k@ == "film"@ || k@ == "movie"@ || k@ == "ova"@ {
            MediaType::Movie
        } else {
            MediaType::Series
        },
        None => MediaType::Series,
    }
}

/// The catalogue entry of a title record, when it has an id and a name;
/// `base_url` is the site's address (for image links).
pub open spec fn title_entry(r: TitleRecord, base_url: Seq<char>) -> Option<EntryView> {
    match (r.id, r.name) {
        (Some(id), Some(n)) => Some(EntryView {
            id,
            name: n@,
            slug: key_text(r.slug),
            provider: 0,
            language: Seq::empty(),
            media_type: kind_media_type(r.kind),
            alternative_names: match r.original_name {
                Some(o) => if o@.len() > 0 && o@ != n@ {
                    seq![o@]
                } else {
                    Seq::empty()
                },
                None => Seq::empty(),
            },
            year: title_year(r),
            score: text_of(r.score),
            image_url: image_url_of(r.images, base_url),
            description: title_description(r),
        }),
        _ => None,
    }
}

/// The text of an optional string, cloned.
fn copy_text(o: &Option<String>) -> (r: Option<String>)
    ensures
        text_of(r) == text_of(*o),
{
    match o {
        Some(s) => Some(s.clone()),
        None => None,
    }
}

/// Whether an optional text equals a given text.
fn text_is(o: &Option<String>, lit: &str) -> (r: bool)
    ensures
        r == (text_of(*o) == Some(lit@)),
        lit@.len() > 0 ==> r == (key_text(*o) == lit@),
{
    match o {
        Some(s) => {
            let a = chars_of(s.as_str());
            let b = chars_of(lit);
            crate::text::chars_equal(&a, &b)
        },
        None => false,
    }
}

/// The year of a date, if its first four bytes can be taken.
fn year_from(date: &Option<String>) -> (r: Option<String>)
    ensures
        text_of(r) == year_of(*date),
{
    match date {
        Some(d) => match byte_prefix_exec(&chars_of(d.as_str()), 4) {
            Some(v) => Some(string_of(&v)),
            None => None,
        },
        None => None,
    }
}

/// A title's year.
pub fn extract_year(r: &TitleRecord) -> (y: Option<String>)
    ensures
        text_of(y) == title_year(*r),
{
    if let Some(ts) = &r.translations {
        let mut i: usize = 0;
        assert(ts@.skip(0) =~= ts@);
        while i < ts.len()
            invariant
                i <= ts@.len(),
                r.translations == Some(*ts),
                translated_year(ts@) == translated_year(ts@.skip(i as int)),
            decreases ts@.len() - i,
        {
            let t = &ts[i];
            let ghost rest = ts@.skip(i as int);
            assert(rest[0] == *t);
            assert(rest.drop_first() =~= ts@.skip(i + 1));
            proof {
                reveal_strlit("first_air_date");
                reveal_strlit("release_date");
            }
            let wanted = text_is(&t.key, "first_air_date") || text_is(&t.key, "release_date");
            if wanted {
                let y = year_from(&t.value);
                if y.is_some() {
                    return y;
                }
            }
            i = i + 1;
        }
        assert(ts@.skip(i as int) =~= Seq::<Translation>::empty());
    }
    let a = year_from(&r.last_air_date);
    if a.is_some() {
        return a;
    }
    year_from(&r.release_date)
}

/// A text trimmed, if more than whitespace remains.
fn trimmed_text(s: &String) -> (r: Option<String>)
    ensures
        match r {
            Some(t) => trimmed(s@).len() > 0 && t@ == trimmed(s@),
            None => trimmed(s@).len() == 0,
        },
{
    let t = trim_chars(&chars_of(s.as_str()));
    if t.len() > 0 {
        Some(string_of(&t))
    } else {
        None
    }
}

/// A title's description.
pub fn extract_description(r: &TitleRecord) -> (d: Option<String>)
    ensures
        text_of(d) == title_description(*r),
{
    if let Some(ts) = &r.translations {
        let mut i: usize = 0;
        assert(ts@.skip(0) =~= ts@);
        while i < ts.len()
            invariant
                i <= ts@.len(),
                r.translations == Some(*ts),
                translated_description(ts@) == translated_description(ts@.skip(i as int)),
            decreases ts@.len() - i,
        {
            let t = &ts[i];
            let ghost rest = ts@.skip(i as int);
            assert(rest[0] == *t);
            assert(rest.drop_first() =~= ts@.skip(i + 1));
            proof {
                reveal_strlit("description");
                reveal_strlit("overview");
                reveal_strlit("plot");
            }
            let wanted = text_is(&t.key, "description") || text_is(&t.key, "overview") || text_is(
                &t.key,
                "plot",
            );
            if wanted {
                if let Some(v) = &t.value {
                    let d = trimmed_text(v);
                    if d.is_some() {
                        return d;
                    }
                }
            }
            i = i + 1;
        }
        assert(ts@.skip(i as int) =~= Seq::<Translation>::empty());
    }
    let first = if r.plot.is_some() {
        &r.plot
    } else if r.description.is_some() {
        &r.description
    } else {
        &r.overview
    };
    match first {
        Some(s) => trimmed_text(s),
        None => None,
    }
}

/// The first image of the kind that has a file name.
fn find_image(imgs: &Vec<ImageRecord>, kind: &str) -> (r: Option<String>)
    ensures
        text_of(r) == image_of_kind(imgs@, kind@),
{
    let mut i: usize = 0;
    assert(imgs@.skip(0) =~= imgs@);
    while i < imgs.len()
        invariant
            i <= imgs@.len(),
            image_of_kind(imgs@, kind@) == image_of_kind(imgs@.skip(i as int), kind@),
        decreases imgs@.len() - i,
    {
        let img = &imgs[i];
        let ghost rest = imgs@.skip(i as int);
        assert(rest[0] == *img);
        assert(rest.drop_first() =~= imgs@.skip(i + 1));
        if text_is(&img.kind, kind) {
            if let Some(f) = &img.filename {
                return Some(f.clone());
            }
        }
        i = i + 1;
    }
    assert(imgs@.skip(i as int) =~= Seq::<ImageRecord>::empty());
    None
}

/// The address of a title's preferred image, on the site's image host.
pub fn extract_image_url(images: &Option<Vec<ImageRecord>>, base_url: &str) -> (r: Option<String>)
    ensures
        text_of(r) == image_url_of(*images, base_url@),
{
    let imgs = match images {
        Some(v) => v,
        None => return None,
    };
    let mut file = find_image(imgs, "poster");
    if file.is_none() {
        file = find_image(imgs, "cover");
    }
    if file.is_none() {
        file = find_image(imgs, "cover_mobile");
    }
    if file.is_none() {
        file = find_image(imgs, "background");
    }
    if file.is_none() && imgs.len() > 0 {
        file = copy_text(&imgs[0].filename);
    }
    match file {
        Some(f) => {
            let from = chars_of("stream");
            proof {
                reveal_strlit("stream");
            }
            let cdn = replace_all_exec(&chars_of(base_url), &from, &chars_of("cdn.stream"));
            let mut v = cdn;
            extend_str(&mut v, "/images/");
            extend_str(&mut v, f.as_str());
            Some(string_of(&v))
        },
        None => None,
    }
}

/// The catalogue entry of a title record, when it has an id and a name;
/// `base_url` is the site's address (for image links).
pub fn parse_result(r: &TitleRecord, base_url: &str) -> (e: Option<MediaEntry>)
    ensures
        match e {
            Some(x) => title_entry(*r, base_url@) == Some(x@),
            None => title_entry(*r, base_url@) is None,
        },
{
    let id = match r.id {
        Some(i) => i,
        None => return None,
    };
    let name = match &r.name {
        Some(n) => n.clone(),
        None => return None,
    };
    let slug = match &r.slug {
        Some(s) => s.clone(),
        None => String::new(),
    };
    let movie = text_is(&r.kind, "film") || text_is(&r.kind, "movie") || text_is(&r.kind, "ova");
    let media_type = if movie {
        MediaType::Movie
    } else {
        MediaType::Series
    };
    let mut alternative_names: Vec<String> = Vec::new();
    if let Some(o) = &r.original_name {
        if !o.as_str().is_empty() && !(*o == name) {
            alternative_names.push(o.clone());
        }
    }
    proof {
        reveal_strlit("");
    }
    let e = MediaEntry {
        id,
        name,
        slug,
        provider: 0,
        language: String::new(),
        media_type,
        alternative_names,
        year: extract_year(r),
        score: copy_text(&r.score),
        image_url: extract_image_url(&r.images, base_url),
        description: extract_description(r),
    };
    assert(texts(e.alternative_names@) =~= (match r.original_name {
        Some(o) => if o@.len() > 0 && o@ != e.name@ {
            seq![o@]
        } else {
            Seq::<Seq<char>>::empty()
        },
        None => Seq::<Seq<char>>::empty(),
    }));
    Some(e)
}

/// The values a season holds: id, number and name.
pub open spec fn season_view(s: Season) -> (u64, u32, Option<Seq<char>>) {
    (s.id, s.number, text_of(s.name))
}

/// A number read from the site, cut to 32 bits as a cast does.
pub open spec fn low32(n: u64) -> u32 {
    (n % 0x1_0000_0000) as u32
}

pub(crate) fn low32_exec(n: u64) -> (r: u32)
    ensures
        r == low32(n),
{
    let m = n & 0xFFFF_FFFF;
    assert(m == n % 0x1_0000_0000) by (bit_vector)
        requires
            m == n & 0xFFFF_FFFF,
    ;
    m as u32
}

/// The seasons the records describe, in record order: those with an id and
/// a number.
pub open spec fn kept_seasons(rs: Seq<SeasonRecord>) -> Seq<(u64, u32, Option<Seq<char>>)>
    decreases rs.len(),
{
    if rs.len() == 0 {
        Seq::empty()
    } else {
        let rest = kept_seasons(rs.drop_last());
        let r = rs.last();
        match (r.id, r.number) {
            (Some(id), Some(n)) => rest.push((id, low32(n), text_of(r.name))),
            _ => rest,
        }
    }
}

/// `r` lists the kept seasons reordered by `p`: by ascending number,
/// keeping the record order among equal numbers.
pub open spec fn seasons_ordered(
    r: Seq<Season>,
    kept: Seq<(u64, u32, Option<Seq<char>>)>,
    p: Seq<int>,
) -> bool {
    &&& r.len() == kept.len()
    &&& p.len() == kept.len()
    &&& forall|i: int|
        0 <= i < r.len() ==> 0 <= #[trigger] p[i] < kept.len() && season_view(r[i]) == kept[p[i]]
    &&& forall|i: int, j: int|
        0 <= i < j < r.len() ==> (#[trigger] r[i]).number < (#[trigger] r[j]).number || (
        r[i].number == r[j].number && p[i] < p[j])
}

/// The seasons of a show, ordered by number: records without an id or a
/// number are skipped.
pub fn seasons_from(records: &Vec<SeasonRecord>) -> (r: Vec<Season>)
    ensures
        exists|p: Seq<int>| seasons_ordered(r@, kept_seasons(records@), p),
{
    let mut cands: Vec<(Season, u64)> = Vec::new();
    let mut i: usize = 0;
    while i < records.len()
        invariant
            i <= records@.len(),
            cands@.len() == kept_seasons(records@.take(i as int)).len(),
            forall|k: int|
                0 <= k < cands@.len() ==> season_view((#[trigger] cands@[k]).0) == kept_seasons(
                    records@.take(i as int),
                )[k] && cands@[k].1 == 0xFFFF_FFFF - cands@[k].0.number,
        decreases records@.len() - i,
    {
        let rec = &records[i];
        assert(records@.take(i + 1).drop_last() =~= records@.take(i as int));
        assert(records@.take(i + 1).last() == *rec);
        match (rec.id, rec.number) {
            (Some(id), Some(n)) => {
                let number = low32_exec(n);
                let name = copy_text(&rec.name);
                let s = Season { id, number, name };
                cands.push((s, 0xFFFF_FFFF - number as u64));
            },
            _ => {},
        }
        i = i + 1;
    }
    assert(records@.take(records@.len() as int) =~= records@);
    let ghost all = cands@;
    let sorted = sort_by_weight_desc(cands);
    let ghost p = choose|p: Seq<int>| stably_sorted_desc(sorted@, all, p);
    let mut out: Vec<Season> = Vec::new();
    let mut sorted = sorted;
    let ghost sv = sorted@;
    let mut j: usize = 0;
    let n = sorted.len();
    while j < n
        invariant
            n == sv.len(),
            j <= n,
            sorted@ =~= sv.skip(j as int),
            out@.len() == j,
            forall|k: int| 0 <= k < j ==> #[trigger] out@[k] == sv[k].0,
        decreases n - j,
    {
        let (s, _) = sorted.remove(0);
        out.push(s);
        j = j + 1;
        assert(sorted@ =~= sv.skip(j as int));
    }
    let ghost kept = kept_seasons(records@);
    assert forall|a: int, b: int| 0 <= a < b < out@.len() implies (#[trigger] out@[a]).number < (
    #[trigger] out@[b]).number || (out@[a].number == out@[b].number && p[a] < p[b]) by {
        assert(sv[a] == all[p[a]] && sv[b] == all[p[b]]);
    }
    assert forall|a: int| 0 <= a < out@.len() implies 0 <= #[trigger] p[a] < kept.len()
        && season_view(out@[a]) == kept[p[a]] by {
        assert(sv[a] == all[p[a]]);
    }
    assert(seasons_ordered(out@, kept, p));
    out
}

/// The episodes the records describe, in record order: those with an id
/// and a number; a missing name is empty.
pub open spec fn kept_episodes(rs: Seq<EpisodeRecord>, base_url: Seq<char>) -> Seq<EpisodeView>
    decreases rs.len(),
{
    if rs.len() == 0 {
        Seq::empty()
    } else {
        let rest = kept_episodes(rs.drop_last(), base_url);
        let r = rs.last();
        match (r.id, r.number) {
            (Some(id), Some(n)) => rest.push(
                EpisodeView {
                    id,
                    number: low32(n),
                    name: key_text(r.name),
                    duration: match r.duration {
                        Some(d) => Some(low32(d)),
                        None => None,
                    },
                    image_url: image_url_of(r.images, base_url),
                },
            ),
            _ => rest,
        }
    }
}

/// `r` lists the kept episodes reordered by `p`: by ascending number,
/// keeping the record order among equal numbers.
pub open spec fn episodes_ordered(r: Seq<Episode>, kept: Seq<EpisodeView>, p: Seq<int>) -> bool {
    &&& r.len() == kept.len()
    &&& p.len() == kept.len()
    &&& forall|i: int| 0 <= i < r.len() ==> 0 <= #[trigger] p[i] < kept.len() && r[i]@ == kept[p[i]]
    &&& forall|i: int, j: int|
        0 <= i < j < r.len() ==> (#[trigger] r[i]).number < (#[trigger] r[j]).number || (
        r[i].number == r[j].number && p[i] < p[j])
}

/// The episodes of a season, ordered by number: records without an id or
/// a number are skipped; `base_url` is the site's address (for images).
pub fn episodes_from(records: &Vec<EpisodeRecord>, base_url: &str) -> (r: Vec<Episode>)
    ensures
        exists|p: Seq<int>| episodes_ordered(r@, kept_episodes(records@, base_url@), p),
{
    let mut cands: Vec<(Episode, u64)> = Vec::new();
    let mut i: usize = 0;
    while i < records.len()
        invariant
            i <= records@.len(),
            cands@.len() == kept_episodes(records@.take(i as int), base_url@).len(),
            forall|k: int|
                0 <= k < cands@.len() ==> (#[trigger] cands@[k]).0@ == kept_episodes(
                    records@.take(i as int),
                    base_url@,
                )[k] && cands@[k].1 == 0xFFFF_FFFF - cands@[k].0.number,
        decreases records@.len() - i,
    {
        let rec = &records[i];
        assert(records@.take(i + 1).drop_last() =~= records@.take(i as int));
        assert(records@.take(i + 1).last() == *rec);
        match (rec.id, rec.number) {
            (Some(id), Some(n)) => {
                let number = low32_exec(n);
                let name = match &rec.name {
                    Some(x) => x.clone(),
                    None => String::new(),
                };
                let duration = match rec.duration {
                    Some(d) => Some(low32_exec(d)),
                    None => None,
                };
                let ep = Episode {
                    id,
                    number,
                    name,
                    duration,
                    image_url: extract_image_url(&rec.images, base_url),
                };
                cands.push((ep, 0xFFFF_FFFF - number as u64));
            },
            _ => {},
        }
        i = i + 1;
    }
    assert(records@.take(records@.len() as int) =~= records@);
    let ghost all = cands@;
    let sorted = sort_by_weight_desc(cands);
    let ghost p = choose|p: Seq<int>| stably_sorted_desc(sorted@, all, p);
    let mut out: Vec<Episode> = Vec::new();
    let mut sorted = sorted;
    let ghost sv = sorted@;
    let mut j: usize = 0;
    let n = sorted.len();
    while j < n
        invariant
            n == sv.len(),
            j <= n,
            sorted@ =~= sv.skip(j as int),
            out@.len() == j,
            forall|k: int| 0 <= k < j ==> #[trigger] out@[k] == sv[k].0,
        decreases n - j,
    {
        let (e, _) = sorted.remove(0);
        out.push(e);
        j = j + 1;
        assert(sorted@ =~= sv.skip(j as int));
    }
    let ghost kept = kept_episodes(records@, base_url@);
    assert forall|a: int, b: int| 0 <= a < b < out@.len() implies (#[trigger] out@[a]).number < (
    #[trigger] out@[b]).number || (out@[a].number == out@[b].number && p[a] < p[b]) by {
        assert(sv[a] == all[p[a]] && sv[b] == all[p[b]]);
    }
    assert forall|a: int| 0 <= a < out@.len() implies 0 <= #[trigger] p[a] < kept.len() && out@[a]@
        == kept[p[a]] by {
        assert(sv[a] == all[p[a]]);
    }
    assert(episodes_ordered(out@, kept, p));
    out
}

/// The language of an entry's pages: its own, or Italian when it has none.
pub open spec fn entry_lang_text(e: MediaEntry) -> Seq<char> {
    if e.language@.len() == 0 {
        LANG@
    } else {
        e.language@
    }
}

/// The language of an entry's pages.
pub fn entry_lang(e: &MediaEntry) -> (r: &str)
    ensures
        r@ == entry_lang_text(*e),
{
    if e.language.as_str().is_empty() {
        LANG
    } else {
        e.language.as_str()
    }
}

/// The page of a title: `{base}/{lang}/titles/{id}-{slug}`.
pub open spec fn title_url_text(base: Seq<char>, e: MediaEntry) -> Seq<char> {
    base + "/"@ + entry_lang_text(e) + "/titles/"@ + decimal(e.id as nat) + "-"@ + e.slug@
}

/// The page of a title.
pub fn title_url(base: &str, e: &MediaEntry) -> (r: String)
    ensures
        r@ == title_url_text(base@, *e),
{
    let mut v = chars_of(base);
    extend_str(&mut v, "/");
    extend_str(&mut v, entry_lang(e));
    extend_str(&mut v, "/titles/");
    let id = decimal_chars(e.id);
    extend_chars(&mut v, &id);
    extend_str(&mut v, "-");
    extend_str(&mut v, e.slug.as_str());
    string_of(&v)
}

/// The page of a season: the title's page and `/season-{n}`.
pub fn season_url(base: &str, e: &MediaEntry, season: u32) -> (r: String)
    ensures
        r@ == title_url_text(base@, *e) + "/season-"@ + decimal(season as nat),
{
    let t = title_url(base, e);
    let mut v = chars_of(t.as_str());
    extend_str(&mut v, "/season-");
    let n = decimal_chars(season as u64);
    extend_chars(&mut v, &n);
    string_of(&v)
}

/// The player frame of a title, or of one of its episodes.
pub fn iframe_url(base: &str, lang: &str, media_id: u64, episode_id: Option<u64>) -> (r: String)
    ensures
        r@ == base@ + "/"@ + lang@ + "/iframe/"@ + decimal(media_id as nat) + (match episode_id {
            Some(eid) => "?episode_id="@ + decimal(eid as nat) + "&next_episode=1"@,
            None => Seq::empty(),
        }),
{
    let mut v = chars_of(base);
    extend_str(&mut v, "/");
    extend_str(&mut v, lang);
    extend_str(&mut v, "/iframe/");
    let m = decimal_chars(media_id);
    extend_chars(&mut v, &m);
    let ghost head = v@;
    match episode_id {
        Some(eid) => {
            extend_str(&mut v, "?episode_id=");
            let e = decimal_chars(eid);
            extend_chars(&mut v, &e);
            extend_str(&mut v, "&next_episode=1");
        },
        None => {
            assert(v@ =~= head + Seq::<char>::empty());
        },
    }
    string_of(&v)
}

/// A catalogue being gathered: each title once, in the order first seen,
/// with the set of the ids listed.
pub struct Catalog {
    entries: Vec<MediaEntry>,
    seen: std::collections::HashSet<u64>,
}

/// The ids of the entries.
pub open spec fn ids_of(s: Seq<MediaEntry>) -> Seq<u64> {
    s.map_values(|e: MediaEntry| e.id)
}

impl Catalog {
    /// The entries gathered so far.
    pub closed spec fn items(&self) -> Seq<MediaEntry> {
        self.entries@
    }

    /// The set of ids holds exactly the ids of the entries.
    pub closed spec fn wf(&self) -> bool {
        forall|id: u64| self.seen@.contains(id) <==> ids_of(self.entries@).contains(id)
    }

    /// An empty catalogue.
    pub fn new() -> (r: Catalog)
        ensures
            r.items().len() == 0,
            r.wf(),
    {
        let r = Catalog { entries: Vec::new(), seen: std::collections::HashSet::new() };
        assert forall|id: u64| r.seen@.contains(id) <==> ids_of(r.entries@).contains(id) by {
            assert(ids_of(r.entries@).len() == 0);
        }
        r
    }

    /// Whether a title is already listed.
    pub fn has(&self, id: u64) -> (r: bool)
        requires
            self.wf(),
        ensures
            r == ids_of(self.items()).contains(id),
    {
        broadcast use vstd::std_specs::hash::group_hash_axioms;
        self.seen.contains(&id)
    }

    /// Lists an entry under the language it was found in, unless its title
    /// is already listed; says whether it was added.
    pub fn add(&mut self, e: MediaEntry, lang: &str) -> (added: bool)
        requires
            old(self).wf(),
        ensures
            final(self).wf(),
            added == !ids_of(old(self).items()).contains(e.id),
            added ==> final(self).items() == old(self).items().push(
                MediaEntry { language: final(self).items().last().language, ..e },
            ) && final(self).items().last().language@ == lang@,
            !added ==> final(self).items() == old(self).items(),
            ids_of(final(self).items()) == ids_after_add(ids_of(old(self).items()), e.id),
    {
        let ghost before = self.entries@;
        if self.has(e.id) {
            return false;
        }
        broadcast use vstd::std_specs::hash::group_hash_axioms;
        let ghost seen_before = self.seen@;
        let id = e.id;
        let mut e = e;
        e.language = lang.to_owned();
        self.entries.push(e);
        self.seen.insert(id);
        assert(ids_of(self.entries@) =~= ids_of(before).push(id));
        assert forall|x: u64| self.seen@.contains(x) <==> ids_of(self.entries@).contains(x) by {
            assert(self.seen@ == seen_before.insert(id));
            if x != id {
                if ids_of(self.entries@).contains(x) {
                    let k = choose|k: int| 0 <= k < ids_of(self.entries@).len() && ids_of(self.entries@)[k] == x;
                    assert(ids_of(before)[k] == x);
                }
                if ids_of(before).contains(x) {
                    let k = choose|k: int| 0 <= k < ids_of(before).len() && ids_of(before)[k] == x;
                    assert(ids_of(self.entries@)[k] == x);
                }
            } else {
                assert(ids_of(self.entries@)[ids_of(before).len() as int] == id);
            }
        }
        true
    }

    /// How many entries are listed.
    pub fn len(&self) -> (r: usize)
        ensures
            r == self.items().len(),
    {
        self.entries.len()
    }

    /// The first `limit` entries.
    pub fn finish(self, limit: usize) -> (r: Vec<MediaEntry>)
        ensures
            r@ == crate::text::first_n(self.items(), limit as nat),
    {
        let mut v = self.entries;
        v.truncate(limit);
        v
    }
}

/// The ids listed after offering a title: unchanged when it is listed,
/// else followed by its id.
pub open spec fn ids_after_add(ids: Seq<u64>, id: u64) -> Seq<u64> {
    if ids.contains(id) {
        ids
    } else {
        ids.push(id)
    }
}

/// No id occurs twice.
pub open spec fn ids_unique(ids: Seq<u64>) -> bool {
    forall|a: int, b: int| 0 <= a < b < ids.len() ==> ids[a] != ids[b]
}

/// Offering titles never lists one twice.
pub proof fn law_catalog_titles_unique(ids: Seq<u64>, id: u64)
    requires
        ids_unique(ids),
    ensures
        ids_unique(ids_after_add(ids, id)),
{
    if !ids.contains(id) {
        let n = ids.push(id);
        assert forall|a: int, b: int| 0 <= a < b < n.len() implies n[a] != n[b] by {
            if b == n.len() - 1 {
                assert(n[a] == ids[a]);
            } else {
                assert(n[a] == ids[a] && n[b] == ids[b]);
            }
        }
    }
}

/// The playable stream of a player page, from the text of its scripts
/// joined by newlines: the playlist address, requested with the browser
/// identity.
pub fn stream_from_script(script: &str) -> (r: Result<StreamUrl, ProviderError>)
    ensures
        match crate::providers::vixcloud_url(script@) {
            Some(u) => r matches Ok(s) && s.url@ == u && s.headers@.len() == 1
                && s.headers@[0].0@ == "User-Agent"@ && s.headers@[0].1@ == crate::providers::USER_AGENT@,
            None => r matches Err(ProviderError::StreamExtraction(m)) && m@
                == "No HLS params in script"@,
        },
{
    match crate::providers::parse_vixcloud_hls(script) {
        Some(url) => {
            let mut headers: Vec<(String, String)> = Vec::new();
            headers.push(("User-Agent".to_owned(), crate::providers::USER_AGENT.to_owned()));
            Ok(StreamUrl { url, headers })
        },
        None => Err(ProviderError::StreamExtraction("No HLS params in script".to_owned())),
    }
}

/// Finds the page data of a page whose `div#app` could not be read.
pub const DATA_PAGE_PATTERN: &'static str = "data-page\\s*=\\s*['\"]([^'\"]+)['\"]";

/// Finds the player frame of a page whose first frame names no source.
pub const IFRAME_PATTERN: &'static str = "<iframe[^>]+src=['\"]([^'\"]+)['\"]";

/// The page data of a site page: the `data-page` attribute of its
/// `div#app`, else the first `data-page=` value written in it.
pub open spec fn data_page_of(html: Seq<char>) -> Option<Seq<char>> {
    match crate::providers::html_first_attr_of(html, "div#app"@, "data-page"@) {
        Some(Some(d)) => Some(d),
        _ => crate::providers::regex_group(DATA_PAGE_PATTERN@, html, 1),
    }
}

/// The page data of a site page; an error when it has none.
pub fn data_page_text(html: &str) -> (r: Result<String, ProviderError>)
    ensures
        match data_page_of(html@) {
            Some(d) => r matches Ok(t) && t@ == d,
            None => r matches Err(ProviderError::Parse(m)) && m@ == "No data-page JSON found"@,
        },
{
    match crate::providers::html_first_attr(html, "div#app", "data-page") {
        Some(Some(d)) => return Ok(d),
        _ => {},
    }
    match crate::providers::capture_group(DATA_PAGE_PATTERN, html, 1) {
        Some(d) => Ok(d),
        None => Err(ProviderError::Parse("No data-page JSON found".to_string())),
    }
}

/// The asset version a site page declares in its page data, or why it
/// cannot be read (every failure is a parse error with this message).
pub open spec fn inertia_version_of(html: Seq<char>) -> Result<Seq<char>, Seq<char>> {
    match data_page_of(html) {
        None => Err("No data-page JSON found"@),
        Some(d) => match crate::json::json_of(d) {
            Err(e) => Err("Invalid JSON: "@ + e),
            Ok(p) => match crate::json::text_at(crate::json::field(Some(p), "version"@)) {
                None => Err("No version in data-page"@),
                Some(v) => Ok(v),
            },
        },
    }
}

/// The asset version a site page declares.
pub fn inertia_version(html: &str) -> (r: Result<String, ProviderError>)
    ensures
        match inertia_version_of(html@) {
            Ok(v) => r matches Ok(x) && x@ == v,
            Err(m) => r matches Err(ProviderError::Parse(x)) && x@ == m,
        },
{
    let data = match data_page_text(html) {
        Ok(d) => d,
        Err(e) => return Err(e),
    };
    match crate::json::parse_json(data.as_str()) {
        Ok(p) => match crate::json::text_in(crate::json::member(Some(&p), "version")) {
            Some(v) => Ok(v),
            None => Err(ProviderError::Parse("No version in data-page".to_string())),
        },
        Err(e) => {
            let mut m = chars_of("Invalid JSON: ");
            extend_str(&mut m, e.as_str());
            Err(ProviderError::Parse(string_of(&m)))
        },
    }
}

/// The player frame of a title page: the first frame's `src`, else its
/// `data-src`, else the first frame source written in the page.
pub open spec fn iframe_src_of(html: Seq<char>) -> Option<Seq<char>> {
    match crate::providers::html_first_attr_of(html, "iframe"@, "src"@) {
        Some(Some(s)) => Some(s),
        Some(None) => match crate::providers::html_first_attr_of(html, "iframe"@, "data-src"@) {
            Some(Some(d)) => Some(d),
            _ => crate::providers::regex_group(IFRAME_PATTERN@, html, 1),
        },
        None => crate::providers::regex_group(IFRAME_PATTERN@, html, 1),
    }
}

/// The player frame of a title page; an error when there is none.
pub fn iframe_src(html: &str) -> (r: Result<String, ProviderError>)
    ensures
        match iframe_src_of(html@) {
            Some(s) => r matches Ok(t) && t@ == s,
            None => r matches Err(ProviderError::Parse(m)) && m@ == "No iframe src found"@,
        },
{
    match crate::providers::html_first_attr(html, "iframe", "src") {
        Some(Some(s)) => return Ok(s),
        Some(None) => match crate::providers::html_first_attr(html, "iframe", "data-src") {
            Some(Some(d)) => return Ok(d),
            _ => {},
        },
        None => {},
    }
    match crate::providers::capture_group(IFRAME_PATTERN, html, 1) {
        Some(s) => Ok(s),
        None => Err(ProviderError::Parse("No iframe src found".to_string())),
    }
}

/// The scripts of a player page, joined by newlines.
pub fn player_script(html: &str) -> (r: String)
    ensures
        r@ == crate::text::joined(crate::providers::html_inner_of(html@, "script"@), seq!['\n']),
{
    let parts = crate::providers::html_inner(html, "script");
    let ghost pv = texts(parts@);
    let mut ls: Vec<Vec<char>> = Vec::new();
    let mut i: usize = 0;
    while i < parts.len()
        invariant
            i <= parts@.len(),
            pv == texts(parts@),
            ls@.len() == i,
            ls@.map_values(|l: Vec<char>| l@) == pv.take(i as int),
        decreases parts@.len() - i,
    {
        let ghost before = ls@;
        let c = chars_of(parts[i].as_str());
        ls.push(c);
        assert(pv[i as int] == parts@[i as int]@);
        assert forall|k: int| 0 <= k < i + 1 implies ls@.map_values(|l: Vec<char>| l@)[k] == #[trigger] pv.take(i + 1)[k] by {
            if k < i {
                assert(ls@[k] == before[k]);
                assert(before.map_values(|l: Vec<char>| l@)[k] == pv.take(i as int)[k]);
            }
        }
        assert(ls@.map_values(|l: Vec<char>| l@) =~= pv.take(i + 1));
        i = i + 1;
    }
    assert(pv.take(parts@.len() as int) =~= pv);
    let mut sep: Vec<char> = Vec::new();
    sep.push('\n');
    assert(sep@ =~= seq!['\n']);
    string_of(&crate::text::join_chars(&ls, &sep))
}

/// The playable stream of a player page.
pub fn stream_from_page(html: &str) -> (r: Result<StreamUrl, ProviderError>)
    ensures
        match crate::providers::vixcloud_url(crate::text::joined(
            crate::providers::html_inner_of(html@, "script"@),
            seq!['\n'],
        )) {
            Some(u) => r matches Ok(s) && s.url@ == u && s.headers@.len() == 1 && s.headers@[0].0@
                == "User-Agent"@ && s.headers@[0].1@ == crate::providers::USER_AGENT@,
            None => r matches Err(ProviderError::StreamExtraction(m)) && m@ == "No HLS params in script"@,
        },
{
    let script = player_script(html);
    stream_from_script(script.as_str())
}

/// An entry listed under a language.
pub open spec fn with_lang(e: EntryView, lang: Seq<char>) -> EntryView {
    EntryView { language: lang, ..e }
}

/// The entries of the title records that have an id and a name, listed
/// under a language, in order.
pub open spec fn title_views(recs: Seq<TitleRecord>, base_url: Seq<char>, lang: Seq<char>) -> Seq<EntryView>
    decreases recs.len(),
{
    if recs.len() == 0 {
        Seq::empty()
    } else {
        let rest = title_views(recs.drop_last(), base_url, lang);
        match title_entry(recs.last(), base_url) {
            Some(e) => rest.push(with_lang(e, lang)),
            None => rest,
        }
    }
}

/// The entries of a search reply's title records, listed under the
/// language searched.
pub fn title_entries(records: &Vec<TitleRecord>, base_url: &str, lang: &str) -> (r: Vec<MediaEntry>)
    ensures
        entry_views(r@) == title_views(records@, base_url@, lang@),
{
    let mut out: Vec<MediaEntry> = Vec::new();
    let mut i: usize = 0;
    while i < records.len()
        invariant
            i <= records@.len(),
            entry_views(out@) == title_views(records@.take(i as int), base_url@, lang@),
        decreases records@.len() - i,
    {
        assert(records@.take(i + 1).drop_last() =~= records@.take(i as int));
        assert(records@.take(i + 1).last() == records@[i as int]);
        let ghost before = out@;
        match parse_result(&records[i], base_url) {
            Some(e) => {
                let mut e = e;
                e.language = lang.to_string();
                out.push(e);
                assert(entry_views(out@) =~= entry_views(before).push(e@));
            },
            None => {},
        }
        i = i + 1;
    }
    assert(records@.take(records@.len() as int) =~= records@);
    out
}

/// The search results: the entries found in each language, in the order of
/// the languages, each title once (its first entry).
pub fn search_results(per_lang: Vec<Vec<MediaEntry>>) -> (r: Vec<MediaEntry>)
    ensures
        entry_views(r@) == crate::providers::models::first_of_each(
            per_lang@.fold_left(Seq::<EntryView>::empty(), |acc: Seq<EntryView>, v: Vec<MediaEntry>| acc + entry_views(v@)),
        ),
{
    let ghost all = per_lang@;
    let mut rest = per_lang;
    let mut flat: Vec<MediaEntry> = Vec::new();
    let n = rest.len();
    let mut i: usize = 0;
    while i < n
        invariant
            n == all.len(),
            i <= n,
            rest@ == all.skip(i as int),
            entry_views(flat@) == all.take(i as int).fold_left(
                Seq::<EntryView>::empty(),
                |acc: Seq<EntryView>, v: Vec<MediaEntry>| acc + entry_views(v@),
            ),
        decreases n - i,
    {
        assert(rest@.len() > 0);
        let mut v = rest.remove(0);
        assert(v == all[i as int]);
        let ghost fv = flat@;
        let ghost vv = v@;
        flat.append(&mut v);
        assert(entry_views(flat@) =~= entry_views(fv) + entry_views(vv));
        assert(all.take(i + 1).drop_last() =~= all.take(i as int));
        assert(all.take(i + 1).last() == all[i as int]);
        i = i + 1;
        assert(rest@ =~= all.skip(i as int));
    }
    assert(all.take(n as int) =~= all);
    crate::providers::models::unique_entries(flat)
}

/// Offers entries to a listing in order: an entry whose title is listed is
/// skipped; the listing stops once it holds `stop_at` entries. Gives the
/// listing and whether it stopped.
pub open spec fn offer_all(items: Seq<EntryView>, es: Seq<EntryView>, stop_at: nat) -> (Seq<EntryView>, bool)
    decreases es.len(),
{
    if es.len() == 0 {
        (items, false)
    } else if has_entry_id(items, es[0].id) {
        offer_all(items, es.drop_first(), stop_at)
    } else if items.len() + 1 >= stop_at {
        (items.push(es[0]), true)
    } else {
        offer_all(items.push(es[0]), es.drop_first(), stop_at)
    }
}

/// Offers the sliders' entries in turn, until the listing is full.
pub open spec fn offer_sliders(items: Seq<EntryView>, sliders: Seq<Seq<EntryView>>, stop_at: nat) -> Seq<EntryView>
    decreases sliders.len(),
{
    if sliders.len() == 0 {
        items
    } else {
        let (n, full) = offer_all(items, sliders[0], stop_at);
        if full {
            n
        } else {
            offer_sliders(n, sliders.drop_first(), stop_at)
        }
    }
}

/// Offering entries lists each title at most once, keeps what was listed,
/// and lists nothing past `stop_at` entries (one, when it starts full).
pub proof fn law_offers_list_titles_once(items: Seq<EntryView>, es: Seq<EntryView>, stop_at: nat)
    requires
        crate::providers::models::ids_distinct(items),
    ensures
        crate::providers::models::ids_distinct(offer_all(items, es, stop_at).0),
        offer_all(items, es, stop_at).0.len() >= items.len(),
        offer_all(items, es, stop_at).0.take(items.len() as int) == items,
        items.len() < stop_at ==> offer_all(items, es, stop_at).0.len() <= stop_at,
        offer_all(items, es, stop_at).1 ==> offer_all(items, es, stop_at).0.len() >= stop_at,
    decreases es.len(),
{
    if es.len() > 0 {
        let x = es[0];
        if has_entry_id(items, x.id) {
            law_offers_list_titles_once(items, es.drop_first(), stop_at);
        } else {
            let n = items.push(x);
            assert forall|a: int, b: int| 0 <= a < b < n.len() implies (#[trigger] n[a]).id != (#[trigger] n[b]).id by {
                if b == n.len() - 1 {
                    assert(n[a] == items[a]);
                } else {
                    assert(n[a] == items[a] && n[b] == items[b]);
                }
            }
            assert(n.take(items.len() as int) =~= items);
            if items.len() + 1 < stop_at {
                law_offers_list_titles_once(n, es.drop_first(), stop_at);
                let r = offer_all(n, es.drop_first(), stop_at).0;
                assert(r.take(items.len() as int) =~= r.take(n.len() as int).take(items.len() as int));
            }
        }
    } else {
        assert(items.take(items.len() as int) =~= items);
    }
}

/// The entries of each slider's title records.
pub open spec fn slider_views(sliders: Seq<Vec<TitleRecord>>, base_url: Seq<char>, lang: Seq<char>) -> Seq<Seq<EntryView>> {
    sliders.map_values(|v: Vec<TitleRecord>| title_views(v@, base_url, lang))
}

/// The home page's catalogue: the titles of its sliders until `limit` are
/// listed; when the sliders list none, its title list instead.
pub open spec fn page_catalog(sliders: Seq<Vec<TitleRecord>>, titles: Seq<TitleRecord>, base_url: Seq<char>, limit: nat) -> Seq<EntryView> {
    let a = offer_sliders(Seq::empty(), slider_views(sliders, base_url, LANG@), limit);
    if a.len() == 0 {
        offer_all(Seq::empty(), title_views(titles, base_url, LANG@), limit).0
    } else {
        a
    }
}

impl Catalog {
    /// Offers the titles of some records, listed under a language, stopping
    /// once `stop_at` entries are listed; says whether it stopped.
    pub fn offer_titles(&mut self, records: &Vec<TitleRecord>, base_url: &str, lang: &str, stop_at: usize) -> (full: bool)
        requires
            old(self).wf(),
        ensures
            final(self).wf(),
            (entry_views(final(self).items()), full) == offer_all(
                entry_views(old(self).items()),
                title_views(records@, base_url@, lang@),
                stop_at as nat,
            ),
    {
        let entries = title_entries(records, base_url, lang);
        let ghost es = entry_views(entries@);
        proof {
            lemma_title_views_lang(records@, base_url@, lang@);
            assert forall|k: int| 0 <= k < entries@.len() implies (#[trigger] entries@[k]).language@ == lang@ by {
                assert(es[k] == entries@[k]@);
            }
        }
        let ghost start = entry_views(self.items());
        let mut i: usize = 0;
        assert(es.skip(0) =~= es);
        while i < entries.len()
            invariant
                i <= entries@.len(),
                es == entry_views(entries@),
                es == title_views(records@, base_url@, lang@),
                start == entry_views(old(self).items()),
                offer_all(start, es, stop_at as nat) == offer_all(entry_views(self.items()), es.skip(i as int), stop_at as nat),
                forall|k: int| 0 <= k < entries@.len() ==> (#[trigger] entries@[k]).language@ == lang@,
                self.wf(),
            decreases entries@.len() - i,
        {
            let ghost cur = entry_views(self.items());
            let ghost old_items = self.items();
            let e = entries[i].duplicate();
            assert(es[i as int] == entries@[i as int]@);
            assert(es.skip(i as int)[0] == es[i as int]);
            assert(es.skip(i as int).drop_first() =~= es.skip(i + 1));
            proof {
                lemma_ids_have(old_items, e.id);
            }
            let added = self.add(e, lang);
            if added {
                assert(entry_views(self.items()) =~= cur.push(es[i as int]));
                if self.len() >= stop_at {
                    assert(!has_entry_id(cur, es.skip(i as int)[0].id));
                    assert(offer_all(cur, es.skip(i as int), stop_at as nat) == (cur.push(es[i as int]), true));
                    return true;
                }
            }
            i = i + 1;
        }
        assert(es.skip(i as int) =~= Seq::<EntryView>::empty());
        false
    }
}

/// Every entry listed under a language has that language.
proof fn lemma_title_views_lang(recs: Seq<TitleRecord>, base_url: Seq<char>, lang: Seq<char>)
    ensures
        forall|k: int| 0 <= k < title_views(recs, base_url, lang).len() ==> (#[trigger] title_views(recs, base_url, lang)[k]).language == lang,
    decreases recs.len(),
{
    if recs.len() > 0 {
        lemma_title_views_lang(recs.drop_last(), base_url, lang);
    }
}

/// A title is listed exactly when an entry has its id.
proof fn lemma_ids_have(items: Seq<MediaEntry>, id: u64)
    ensures
        ids_of(items).contains(id) <==> has_entry_id(entry_views(items), id),
{
    if ids_of(items).contains(id) {
        let k = choose|k: int| 0 <= k < ids_of(items).len() && ids_of(items)[k] == id;
        assert(entry_views(items)[k].id == id);
    }
    if has_entry_id(entry_views(items), id) {
        let k = choose|k: int| 0 <= k < entry_views(items).len() && (#[trigger] entry_views(items)[k]).id == id;
        assert(ids_of(items)[k] == id);
    }
}

/// The catalogue of the home page: the titles of its sliders (listed under
/// the default language) until `limit` are listed; when the sliders list
/// none, its title list instead.
pub fn catalog_from_page(sliders: &Vec<Vec<TitleRecord>>, titles: &Vec<TitleRecord>, base_url: &str, limit: usize) -> (r: Catalog)
    ensures
        r.wf(),
        entry_views(r.items()) == page_catalog(sliders@, titles@, base_url@, limit as nat),
{
    let mut cat = Catalog::new();
    let ghost sv = slider_views(sliders@, base_url@, LANG@);
    let ghost whole = offer_sliders(Seq::empty(), sv, limit as nat);
    assert(entry_views(cat.items()) =~= Seq::<EntryView>::empty());
    assert(sv.skip(0) =~= sv);
    let mut full = false;
    let mut i: usize = 0;
    while i < sliders.len() && !full
        invariant
            i <= sliders@.len(),
            sv == slider_views(sliders@, base_url@, LANG@),
            whole == offer_sliders(Seq::empty(), sv, limit as nat),
            !full ==> whole == offer_sliders(entry_views(cat.items()), sv.skip(i as int), limit as nat),
            full ==> whole == entry_views(cat.items()),
            cat.wf(),
        decreases sliders@.len() - i,
    {
        let ghost cur = entry_views(cat.items());
        assert(sv.skip(i as int)[0] == sv[i as int]);
        assert(sv[i as int] == title_views(sliders@[i as int]@, base_url@, LANG@));
        assert(sv.skip(i as int).drop_first() =~= sv.skip(i + 1));
        full = cat.offer_titles(&sliders[i], base_url, LANG, limit);
        i = i + 1;
    }
    if !full {
        assert(sv.skip(i as int) =~= Seq::<Seq<EntryView>>::empty());
    }
    if cat.len() == 0 {
        assert(entry_views(cat.items()) =~= Seq::<EntryView>::empty());
        cat.offer_titles(titles, base_url, LANG, limit);
    }
    cat
}

/// Whether the catalogue is completed from the genre sliders: when it holds
/// fewer than `limit` titles and the page lists genres.
pub fn needs_genre_sliders(listed: usize, limit: usize, genres: usize) -> (r: bool)
    ensures
        r == (listed < limit && genres > 0),
{
    listed < limit && genres > 0
}

} // verus!
