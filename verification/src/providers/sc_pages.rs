//! StreamingCommunity's pages and replies: the JSON they carry, read into
//! the title, season and episode records the catalogue is built from.
use crate::json::{
    array_at, array_in, field, items_at, json_of, json_seq_view, lemma_json_seq_view, member, opt_view,
    parse_json, text_at, text_in, u64_at, u64_in, Json, JsonV,
};
use crate::providers::models::{entry_views, texts};
use crate::providers::streaming_community::{
    catalog_from_page, data_page_of, data_page_text, episodes_from, episodes_ordered, kept_episodes,
    kept_seasons, page_catalog, seasons_from, seasons_ordered, text_of, title_entries, title_views,
    Catalog, EpisodeRecord, ImageRecord, SeasonRecord, TitleRecord, Translation,
};
use crate::providers::{Episode, MediaEntry, ProviderError, Season};
use crate::text::{chars_of, extend_str, string_of};
use vstd::prelude::*;

verus! {

/// A translation read from its JSON object.
pub open spec fn translation_from(t: Translation, j: JsonV) -> bool {
    &&& text_of(t.key) == text_at(field(Some(j), "key"@))
    &&& text_of(t.value) == text_at(field(Some(j), "value"@))
}

/// An image read from its JSON object.
pub open spec fn image_from(i: ImageRecord, j: JsonV) -> bool {
    &&& text_of(i.kind) == text_at(field(Some(j), "type"@))
    &&& text_of(i.filename) == text_at(field(Some(j), "filename"@))
}

/// Translations read from a value: one for each item when it is an array,
/// none when it is not.
pub open spec fn translations_from(o: Option<Vec<Translation>>, a: Option<Seq<JsonV>>) -> bool {
    match (o, a) {
        (None, None) => true,
        (Some(v), Some(s)) => v@.len() == s.len() && forall|k: int|
            0 <= k < s.len() ==> translation_from(#[trigger] v@[k], s[k]),
        _ => false,
    }
}

/// Images read from a value: one for each item when it is an array, none
/// when it is not.
pub open spec fn images_from(o: Option<Vec<ImageRecord>>, a: Option<Seq<JsonV>>) -> bool {
    match (o, a) {
        (None, None) => true,
        (Some(v), Some(s)) => v@.len() == s.len() && forall|k: int|
            0 <= k < s.len() ==> image_from(#[trigger] v@[k], s[k]),
        _ => false,
    }
}

/// A title record read from its JSON object: each field the member of that
/// name when it has the expected type.
pub open spec fn title_from(r: TitleRecord, j: JsonV) -> bool {
    &&& r.id == u64_at(field(Some(j), "id"@))
    &&& text_of(r.name) == text_at(field(Some(j), "name"@))
    &&& text_of(r.slug) == text_at(field(Some(j), "slug"@))
    &&& text_of(r.kind) == text_at(field(Some(j), "type"@))
    &&& text_of(r.original_name) == text_at(field(Some(j), "original_name"@))
    &&& text_of(r.score) == text_at(field(Some(j), "score"@))
    &&& translations_from(r.translations, array_at(field(Some(j), "translations"@)))
    &&& text_of(r.last_air_date) == text_at(field(Some(j), "last_air_date"@))
    &&& text_of(r.release_date) == text_at(field(Some(j), "release_date"@))
    &&& text_of(r.plot) == text_at(field(Some(j), "plot"@))
    &&& text_of(r.description) == text_at(field(Some(j), "description"@))
    &&& text_of(r.overview) == text_at(field(Some(j), "overview"@))
    &&& images_from(r.images, array_at(field(Some(j), "images"@)))
}

/// Title records read one for one from JSON objects.
pub open spec fn titles_from(rs: Seq<TitleRecord>, js: Seq<JsonV>) -> bool {
    rs.len() == js.len() && forall|k: int| 0 <= k < js.len() ==> title_from(#[trigger] rs[k], js[k])
}

/// A season record read from its JSON object.
pub open spec fn season_from(r: SeasonRecord, j: JsonV) -> bool {
    &&& r.id == u64_at(field(Some(j), "id"@))
    &&& r.number == u64_at(field(Some(j), "number"@))
    &&& text_of(r.name) == text_at(field(Some(j), "name"@))
}

/// Season records read one for one from JSON objects.
pub open spec fn seasons_read(rs: Seq<SeasonRecord>, js: Seq<JsonV>) -> bool {
    rs.len() == js.len() && forall|k: int| 0 <= k < js.len() ==> season_from(#[trigger] rs[k], js[k])
}

/// Episode records read one for one from JSON objects.
pub open spec fn episodes_read(rs: Seq<EpisodeRecord>, js: Seq<JsonV>) -> bool {
    rs.len() == js.len() && forall|k: int| 0 <= k < js.len() ==> episode_from(#[trigger] rs[k], js[k])
}

/// An episode record read from its JSON object.
pub open spec fn episode_from(r: EpisodeRecord, j: JsonV) -> bool {
    &&& r.id == u64_at(field(Some(j), "id"@))
    &&& r.number == u64_at(field(Some(j), "number"@))
    &&& text_of(r.name) == text_at(field(Some(j), "name"@))
    &&& r.duration == u64_at(field(Some(j), "duration"@))
    &&& images_from(r.images, array_at(field(Some(j), "images"@)))
}

fn translation_record(j: &Json) -> (r: Translation)
    ensures
        translation_from(r, j@),
{
    Translation { key: text_in(member(Some(j), "key")), value: text_in(member(Some(j), "value")) }
}

fn image_record(j: &Json) -> (r: ImageRecord)
    ensures
        image_from(r, j@),
{
    ImageRecord { kind: text_in(member(Some(j), "type")), filename: text_in(member(Some(j), "filename")) }
}

fn translation_list(o: Option<&Json>) -> (r: Option<Vec<Translation>>)
    ensures
        translations_from(r, array_at(opt_view(o))),
{
    let a = match array_in(o) {
        Some(a) => a,
        None => return None,
    };
    proof {
        lemma_json_seq_view(a@);
    }
    let mut v: Vec<Translation> = Vec::new();
    let mut i: usize = 0;
    while i < a.len()
        invariant
            i <= a@.len(),
            v@.len() == i,
            json_seq_view(a@).len() == a@.len(),
            forall|k: int| 0 <= k < a@.len() ==> json_seq_view(a@)[k] == (#[trigger] a@[k])@,
            forall|k: int| 0 <= k < i ==> translation_from(#[trigger] v@[k], json_seq_view(a@)[k]),
        decreases a@.len() - i,
    {
        assert(json_seq_view(a@)[i as int] == a@[i as int]@);
        v.push(translation_record(&a[i]));
        i = i + 1;
    }
    Some(v)
}

fn image_list(o: Option<&Json>) -> (r: Option<Vec<ImageRecord>>)
    ensures
        images_from(r, array_at(opt_view(o))),
{
    let a = match array_in(o) {
        Some(a) => a,
        None => return None,
    };
    proof {
        lemma_json_seq_view(a@);
    }
    let mut v: Vec<ImageRecord> = Vec::new();
    let mut i: usize = 0;
    while i < a.len()
        invariant
            i <= a@.len(),
            v@.len() == i,
            json_seq_view(a@).len() == a@.len(),
            forall|k: int| 0 <= k < a@.len() ==> json_seq_view(a@)[k] == (#[trigger] a@[k])@,
            forall|k: int| 0 <= k < i ==> image_from(#[trigger] v@[k], json_seq_view(a@)[k]),
        decreases a@.len() - i,
    {
        assert(json_seq_view(a@)[i as int] == a@[i as int]@);
        v.push(image_record(&a[i]));
        i = i + 1;
    }
    Some(v)
}

/// The title record of a JSON object.
pub fn title_record(j: &Json) -> (r: TitleRecord)
    ensures
        title_from(r, j@),
{
    let o = Some(j);
    TitleRecord {
        id: u64_in(member(o, "id")),
        name: text_in(member(o, "name")),
        slug: text_in(member(o, "slug")),
        kind: text_in(member(o, "type")),
        original_name: text_in(member(o, "original_name")),
        score: text_in(member(o, "score")),
        translations: translation_list(member(o, "translations")),
        last_air_date: text_in(member(o, "last_air_date")),
        release_date: text_in(member(o, "release_date")),
        plot: text_in(member(o, "plot")),
        description: text_in(member(o, "description")),
        overview: text_in(member(o, "overview")),
        images: image_list(member(o, "images")),
    }
}

/// The title records of the items of a value (none when it is not an
/// array).
pub fn title_records(o: Option<&Json>) -> (r: Vec<TitleRecord>)
    ensures
        titles_from(r@, items_at(opt_view(o))),
{
    let mut v: Vec<TitleRecord> = Vec::new();
    let a = match array_in(o) {
        Some(a) => a,
        None => return v,
    };
    proof {
        lemma_json_seq_view(a@);
    }
    let mut i: usize = 0;
    while i < a.len()
        invariant
            i <= a@.len(),
            v@.len() == i,
            json_seq_view(a@).len() == a@.len(),
            forall|k: int| 0 <= k < a@.len() ==> json_seq_view(a@)[k] == (#[trigger] a@[k])@,
            forall|k: int| 0 <= k < i ==> title_from(#[trigger] v@[k], json_seq_view(a@)[k]),
        decreases a@.len() - i,
    {
        assert(json_seq_view(a@)[i as int] == a@[i as int]@);
        v.push(title_record(&a[i]));
        i = i + 1;
    }
    v
}

/// The season records of the items of a value (none when it is not an
/// array).
pub fn season_records(o: Option<&Json>) -> (r: Vec<SeasonRecord>)
    ensures
        seasons_read(r@, items_at(opt_view(o))),
{
    let mut v: Vec<SeasonRecord> = Vec::new();
    let a = match array_in(o) {
        Some(a) => a,
        None => return v,
    };
    proof {
        lemma_json_seq_view(a@);
    }
    let mut i: usize = 0;
    while i < a.len()
        invariant
            i <= a@.len(),
            v@.len() == i,
            json_seq_view(a@).len() == a@.len(),
            forall|k: int| 0 <= k < a@.len() ==> json_seq_view(a@)[k] == (#[trigger] a@[k])@,
            forall|k: int| 0 <= k < i ==> season_from(#[trigger] v@[k], json_seq_view(a@)[k]),
        decreases a@.len() - i,
    {
        assert(json_seq_view(a@)[i as int] == a@[i as int]@);
        let s = Some(&a[i]);
        v.push(SeasonRecord { id: u64_in(member(s, "id")), number: u64_in(member(s, "number")), name: text_in(member(s, "name")) });
        i = i + 1;
    }
    v
}

/// The episode records of the items of a value (none when it is not an
/// array).
pub fn episode_records(o: Option<&Json>) -> (r: Vec<EpisodeRecord>)
    ensures
        episodes_read(r@, items_at(opt_view(o))),
{
    let mut v: Vec<EpisodeRecord> = Vec::new();
    let a = match array_in(o) {
        Some(a) => a,
        None => return v,
    };
    proof {
        lemma_json_seq_view(a@);
    }
    let mut i: usize = 0;
    while i < a.len()
        invariant
            i <= a@.len(),
            v@.len() == i,
            json_seq_view(a@).len() == a@.len(),
            forall|k: int| 0 <= k < a@.len() ==> json_seq_view(a@)[k] == (#[trigger] a@[k])@,
            forall|k: int| 0 <= k < i ==> episode_from(#[trigger] v@[k], json_seq_view(a@)[k]),
        decreases a@.len() - i,
    {
        assert(json_seq_view(a@)[i as int] == a@[i as int]@);
        let e = Some(&a[i]);
        v.push(EpisodeRecord {
            id: u64_in(member(e, "id")),
            number: u64_in(member(e, "number")),
            name: text_in(member(e, "name")),
            duration: u64_in(member(e, "duration")),
            images: image_list(member(e, "images")),
        });
        i = i + 1;
    }
    v
}

/// The page data of a site page read as JSON; the error a page without
/// data, or with data that is not JSON, gives.
pub open spec fn page_json_of(html: Seq<char>) -> Result<JsonV, Seq<char>> {
    match data_page_of(html) {
        None => Err("No data-page JSON found"@),
        Some(d) => match json_of(d) {
            Err(e) => Err("Invalid JSON: "@ + e),
            Ok(p) => Ok(p),
        },
    }
}

/// The page data of a site page, as JSON.
pub fn page_json(html: &str) -> (r: Result<Json, ProviderError>)
    ensures
        match page_json_of(html@) {
            Ok(p) => r matches Ok(j) && j@ == p,
            Err(m) => r matches Err(ProviderError::Parse(x)) && x@ == m,
        },
{
    let data = match data_page_text(html) {
        Ok(d) => d,
        Err(e) => return Err(e),
    };
    match parse_json(data.as_str()) {
        Ok(j) => Ok(j),
        Err(e) => {
            let mut m = chars_of("Invalid JSON: ");
            extend_str(&mut m, e.as_str());
            Err(ProviderError::Parse(string_of(&m)))
        },
    }
}

/// The `props` of a page.
pub open spec fn props_of(p: JsonV) -> Option<JsonV> {
    field(Some(p), "props"@)
}

/// The title lists of the home page's sliders, one per slider.
pub open spec fn home_sliders(p: JsonV) -> Seq<Seq<JsonV>> {
    items_at(field(props_of(p), "sliders"@)).map_values(|s: JsonV| items_at(field(Some(s), "titles"@)))
}

/// The home page's own title list.
pub open spec fn home_titles(p: JsonV) -> Seq<JsonV> {
    items_at(field(props_of(p), "titles"@))
}

/// The names of genres, skipping those without one.
pub open spec fn genre_names(gs: Seq<JsonV>) -> Seq<Seq<char>>
    decreases gs.len(),
{
    if gs.len() == 0 {
        Seq::empty()
    } else {
        let r = genre_names(gs.drop_last());
        match text_at(field(Some(gs.last()), "name"@)) {
            Some(n) => r.push(n),
            None => r,
        }
    }
}

/// The home page's genres.
pub open spec fn home_genres(p: JsonV) -> Seq<Seq<char>> {
    genre_names(items_at(field(props_of(p), "genres"@)))
}

/// Sliders' title records read from their title lists.
pub open spec fn sliders_from(sl: Seq<Vec<TitleRecord>>, js: Seq<Seq<JsonV>>) -> bool {
    sl.len() == js.len() && forall|k: int| 0 <= k < js.len() ==> titles_from((#[trigger] sl[k])@, js[k])
}

/// The title records of the sliders of a value's items.
fn slider_records(o: Option<&Json>) -> (r: Vec<Vec<TitleRecord>>)
    ensures
        sliders_from(
            r@,
            items_at(opt_view(o)).map_values(|s: JsonV| items_at(field(Some(s), "titles"@))),
        ),
{
    let mut v: Vec<Vec<TitleRecord>> = Vec::new();
    let ghost js = items_at(opt_view(o)).map_values(|s: JsonV| items_at(field(Some(s), "titles"@)));
    let a = match array_in(o) {
        Some(a) => a,
        None => {
            assert(js.len() == 0);
            return v;
        },
    };
    proof {
        lemma_json_seq_view(a@);
    }
    let mut i: usize = 0;
    while i < a.len()
        invariant
            i <= a@.len(),
            v@.len() == i,
            json_seq_view(a@).len() == a@.len(),
            js == json_seq_view(a@).map_values(|s: JsonV| items_at(field(Some(s), "titles"@))),
            forall|k: int| 0 <= k < a@.len() ==> json_seq_view(a@)[k] == (#[trigger] a@[k])@,
            forall|k: int| 0 <= k < i ==> titles_from((#[trigger] v@[k])@, js[k]),
        decreases a@.len() - i,
    {
        assert(json_seq_view(a@)[i as int] == a@[i as int]@);
        let t = title_records(member(Some(&a[i]), "titles"));
        v.push(t);
        i = i + 1;
    }
    v
}

/// The names of the genres among a value's items.
fn genre_list(o: Option<&Json>) -> (r: Vec<String>)
    ensures
        texts(r@) == genre_names(items_at(opt_view(o))),
{
    let mut v: Vec<String> = Vec::new();
    let ghost gs = items_at(opt_view(o));
    let a = match array_in(o) {
        Some(a) => a,
        None => {
            assert(texts(v@) =~= genre_names(gs));
            return v;
        },
    };
    proof {
        lemma_json_seq_view(a@);
    }
    assert(json_seq_view(a@).take(0) =~= Seq::<JsonV>::empty());
    let mut i: usize = 0;
    while i < a.len()
        invariant
            i <= a@.len(),
            gs == json_seq_view(a@),
            gs.len() == a@.len(),
            forall|k: int| 0 <= k < a@.len() ==> gs[k] == (#[trigger] a@[k])@,
            texts(v@) == genre_names(gs.take(i as int)),
        decreases a@.len() - i,
    {
        assert(gs.take(i + 1).drop_last() =~= gs.take(i as int));
        assert(gs.take(i + 1).last() == a@[i as int]@);
        match text_in(member(Some(&a[i]), "name")) {
            Some(n) => {
                v.push(n);
                assert(texts(v@) =~= genre_names(gs.take(i as int)).push(v@.last()@));
            },
            None => {},
        }
        i = i + 1;
    }
    assert(gs.take(a@.len() as int) =~= gs);
    v
}

/// The home page's catalogue and genres: the catalogue built from its
/// sliders (or its own title list), and the names of its genres.
pub fn catalog_from_html(html: &str, base_url: &str, limit: usize) -> (r: Result<(Catalog, Vec<String>), ProviderError>)
    ensures
        match page_json_of(html@) {
            Err(m) => r matches Err(ProviderError::Parse(x)) && x@ == m,
            Ok(p) => r matches Ok((c, g)) && c.wf() && texts(g@) == home_genres(p) && exists|sl: Seq<Vec<TitleRecord>>, ts: Seq<TitleRecord>|
                #![trigger sliders_from(sl, home_sliders(p)), titles_from(ts, home_titles(p))]
                sliders_from(sl, home_sliders(p)) && titles_from(ts, home_titles(p)) && entry_views(c.items())
                    == page_catalog(sl, ts, base_url@, limit as nat),
        },
{
    let page = match page_json(html) {
        Ok(p) => p,
        Err(e) => return Err(e),
    };
    let props = member(Some(&page), "props");
    let sliders = slider_records(member(props, "sliders"));
    let titles = title_records(member(props, "titles"));
    let genres = genre_list(member(props, "genres"));
    let cat = catalog_from_page(&sliders, &titles, base_url, limit);
    assert(opt_view(props) == props_of(page@));
    assert(sliders_from(sliders@, home_sliders(page@)));
    assert(titles_from(titles@, home_titles(page@)));
    Ok((cat, genres))
}

/// A title's page, as JSON, with the asset version it declares (empty when
/// it declares none).
pub fn title_page(html: &str) -> (r: Result<(Json, String), ProviderError>)
    ensures
        match page_json_of(html@) {
            Err(m) => r matches Err(ProviderError::Parse(x)) && x@ == m,
            Ok(p) => r matches Ok((j, v)) && j@ == p && v@ == (match text_at(field(Some(p), "version"@)) {
                Some(t) => t,
                None => Seq::empty(),
            }),
        },
{
    let page = match page_json(html) {
        Ok(p) => p,
        Err(e) => return Err(e),
    };
    let version = match text_in(member(Some(&page), "version")) {
        Some(v) => v,
        None => String::new(),
    };
    Ok((page, version))
}

/// The `title` of a title page's props.
pub open spec fn page_title(p: JsonV) -> Option<JsonV> {
    field(props_of(p), "title"@)
}

/// The seasons listed on a title's page.
pub fn title_seasons(page: &Json) -> (r: Vec<Season>)
    ensures
        exists|recs: Seq<SeasonRecord>|
            #[trigger] seasons_read(recs, items_at(field(page_title(page@), "seasons"@))) && exists|p: Seq<int>|
                seasons_ordered(r@, kept_seasons(recs), p),
{
    let title = member(member(Some(page), "props"), "title");
    let recs = season_records(member(title, "seasons"));
    seasons_from(&recs)
}

/// The media id on a title's page, or the fallback when it has none.
pub fn page_media_id(page: &Json, fallback: u64) -> (r: u64)
    ensures
        r == (match u64_at(field(page_title(page@), "id"@)) {
            Some(id) => id,
            None => fallback,
        }),
{
    let title = member(member(Some(page), "props"), "title");
    match u64_in(member(title, "id")) {
        Some(id) => id,
        None => fallback,
    }
}

/// The entries of a search reply, listed under a language.
pub fn search_reply_entries(reply: &Json, base_url: &str, lang: &str) -> (r: Vec<MediaEntry>)
    ensures
        exists|recs: Seq<TitleRecord>|
            #[trigger] titles_from(recs, items_at(field(props_of(reply@), "titles"@))) && entry_views(r@) == title_views(
                recs,
                base_url@,
                lang@,
            ),
{
    let recs = title_records(member(member(Some(reply), "props"), "titles"));
    title_entries(&recs, base_url, lang)
}

/// The episodes of a season reply.
pub fn season_reply_episodes(reply: &Json, base_url: &str) -> (r: Vec<Episode>)
    ensures
        ({
            let js = items_at(field(field(props_of(reply@), "loadedSeason"@), "episodes"@));
            exists|recs: Seq<EpisodeRecord>|
                #[trigger] episodes_read(recs, js) && exists|p: Seq<int>| episodes_ordered(r@, kept_episodes(recs, base_url@), p)
        }),
{
    let season = member(member(Some(reply), "props"), "loadedSeason");
    let recs = episode_records(member(season, "episodes"));
    episodes_from(&recs, base_url)
}

/// The title records of the sliders of a sliders reply.
pub fn reply_sliders(reply: &Json) -> (r: Vec<Vec<TitleRecord>>)
    ensures
        sliders_from(r@, items_at(Some(reply@)).map_values(|s: JsonV| items_at(field(Some(s), "titles"@)))),
{
    slider_records(Some(reply))
}

} // verus!
