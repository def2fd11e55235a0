//! Aurora sites (Nove, Real Time): their page addresses, playback tokens,
//! search results, seasons, episodes and catalogue.
use crate::providers::models::{first_of_each, has_id, lemma_first_of_each_prefix, entry_views, episode_views, by_number, order_by_number, opt_text, EntryView, EpisodeView};
use crate::providers::streaming_community::{key_text, low32, low32_exec};
use crate::providers::{form_encoded, form_urlencode, hash_bytes, provider_hash, Episode, MediaEntry, MediaType, ProviderError, Season, StreamUrl};
use crate::search::{lowercase, lowercase_of};
use crate::text::{
    chars_of, decimal, decimal_chars, extend_chars, extend_str, has_prefix, is_digit, occurs_at_exec,
    parse_u32, parse_u32_exec, replace_all, replace_all_exec, split_char, split_char_exec, string_of,
};
use vstd::prelude::*;
use vstd::string::StringSliceAdditionalSpecFns;

verus! {

/// Root of the Aurora page service.
pub const AURORA_BASE: &'static str = "https://public.aurora.enhanced.live";

/// Playback service for programmes of the Italian realm.
pub const PLAYBACK_URL: &'static str = "https://public.aurora.enhanced.live/playback/v3/videoPlaybackInfo";

/// Playback service for programmes of the Discovery realm.
pub const DPLAY_PLAYBACK_URL: &'static str = "https://eu1-prod.disco-api.com/playback/v3/videoPlaybackInfo";

/// The home page whose metadata holds the playback keys.
pub const TOKENS_URL: &'static str = "https://public.aurora.enhanced.live/site/page/homepage/?include=default&filter[environment]=realtime&v=2";

/// An Aurora site: the request timeout its client uses, the environment its
/// pages are asked for, and its display name.
pub struct AuroraProvider {
    pub timeout: u64,
    pub env: &'static str,
    pub provider_name: &'static str,
}

/// The slug of a show as its page address writes it: lowercased, spaces as
/// hyphens.
pub open spec fn show_slug(slug: Seq<char>) -> Seq<char> {
    replace_all(lowercase_of(slug), seq![' '], seq!['-'])
}

/// The page address of a show in an environment.
pub open spec fn show_url_text(env: Seq<char>, slug: Seq<char>, parent: Seq<char>) -> Seq<char> {
    AURORA_BASE@ + "/site/page/"@ + show_slug(slug) + "/?include=default&filter[environment]="@ + env
        + "&v=2&parent_slug="@ + parent
}

/// The search page address for a query (given by its UTF-8 bytes).
pub open spec fn search_url_text(env: Seq<char>, query: Seq<u8>) -> Seq<char> {
    AURORA_BASE@ + "/site/search/page/?include=default&filter[environment]="@ + env + "&v=2&q="@
        + form_encoded(query) + "&page[number]=1&page[size]=20"@
}

/// The home page address of an environment.
pub open spec fn homepage_url_text(env: Seq<char>) -> Seq<char> {
    AURORA_BASE@ + "/site/page/homepage/?include=default&filter[environment]="@ + env + "&v=2"@
}

impl AuroraProvider {
    fn new(timeout: u64, env: &'static str, provider_name: &'static str) -> (r: AuroraProvider)
        ensures
            r.timeout == timeout,
            r.env@ == env@,
            r.provider_name@ == provider_name@,
    {
        AuroraProvider { timeout, env, provider_name }
    }

    /// The Nove site.
    pub fn nove(timeout: u64) -> (r: AuroraProvider)
        ensures
            r.timeout == timeout,
            r.env@ == "nove"@,
            r.provider_name@ == "Nove"@,
    {
        Self::new(timeout, "nove", "Nove")
    }

    /// The Real Time site.
    pub fn realtime(timeout: u64) -> (r: AuroraProvider)
        ensures
            r.timeout == timeout,
            r.env@ == "realtime"@,
            r.provider_name@ == "RealTime"@,
    {
        Self::new(timeout, "realtime", "RealTime")
    }

    /// The site's display name.
    pub fn name(&self) -> (r: &'static str)
        ensures
            r@ == self.provider_name@,
    {
        self.provider_name
    }

    /// The page address of a show of this site.
    pub fn build_show_url(&self, slug: &str, parent_slug: &str) -> (r: String)
        ensures
            r@ == show_url_text(self.env@, slug@, parent_slug@),
    {
        let lower = lowercase(slug);
        let mut space: Vec<char> = Vec::new();
        space.push(' ');
        let mut hyphen: Vec<char> = Vec::new();
        hyphen.push('-');
        assert(space@ =~= seq![' ']);
        assert(hyphen@ =~= seq!['-']);
        let normalized = replace_all_exec(&chars_of(lower.as_str()), &space, &hyphen);
        let mut v = chars_of(AURORA_BASE);
        extend_str(&mut v, "/site/page/");
        extend_chars(&mut v, &normalized);
        extend_str(&mut v, "/?include=default&filter[environment]=");
        extend_str(&mut v, self.env);
        extend_str(&mut v, "&v=2&parent_slug=");
        extend_str(&mut v, parent_slug);
        string_of(&v)
    }

    /// The search page address for a query.
    pub fn search_url(&self, query: &str) -> (r: String)
        ensures
            r@ == search_url_text(self.env@, query.spec_bytes()),
    {
        let encoded = form_urlencode(query);
        let mut v = chars_of(AURORA_BASE);
        extend_str(&mut v, "/site/search/page/?include=default&filter[environment]=");
        extend_str(&mut v, self.env);
        extend_str(&mut v, "&v=2&q=");
        extend_str(&mut v, encoded.as_str());
        extend_str(&mut v, "&page[number]=1&page[size]=20");
        string_of(&v)
    }

    /// The home page address of this site, whose blocks make the catalogue.
    pub fn homepage_url(&self) -> (r: String)
        ensures
            r@ == homepage_url_text(self.env@),
    {
        let mut v = chars_of(AURORA_BASE);
        extend_str(&mut v, "/site/page/homepage/?include=default&filter[environment]=");
        extend_str(&mut v, self.env);
        extend_str(&mut v, "&v=2");
        string_of(&v)
    }
}

/// The playback keys found in the home page metadata: the Italian realm's,
/// then the Discovery realm's, each with its playback service.
pub open spec fn token_list(it: Option<Seq<char>>, dplay: Option<Seq<char>>) -> Seq<(Seq<char>, (Seq<char>, Seq<char>))> {
    (match it {
        Some(k) => seq![("X-REALM-IT"@, (PLAYBACK_URL@, k))],
        None => Seq::empty(),
    }) + (match dplay {
        Some(k) => seq![("X-REALM-DPLAY"@, (DPLAY_PLAYBACK_URL@, k))],
        None => Seq::empty(),
    })
}

/// The values a list of playback keys holds.
pub open spec fn tokens_view(v: Seq<(String, (String, String))>) -> Seq<(Seq<char>, (Seq<char>, Seq<char>))> {
    v.map_values(|t: (String, (String, String))| (t.0@, (t.1.0@, t.1.1@)))
}

/// The playback keys by realm; an error when the page names none.
pub fn bearer_tokens(it: &Option<String>, dplay: &Option<String>) -> (r: Result<Vec<(String, (String, String))>, ProviderError>)
    ensures
        match r {
            Ok(v) => tokens_view(v@) == token_list(opt_text(*it), opt_text(*dplay)),
            Err(e) => e matches ProviderError::StreamExtraction(m) && m@ == "No bearer tokens found"@,
        },
        r is Ok <==> (it is Some || dplay is Some),
{
    let mut v: Vec<(String, (String, String))> = Vec::new();
    if let Some(k) = it {
        v.push(("X-REALM-IT".to_string(), (PLAYBACK_URL.to_string(), k.clone())));
    }
    let ghost first = v@;
    if let Some(k) = dplay {
        v.push(("X-REALM-DPLAY".to_string(), (DPLAY_PLAYBACK_URL.to_string(), k.clone())));
    }
    if v.len() == 0 {
        return Err(ProviderError::StreamExtraction("No bearer tokens found".to_string()));
    }
    assert(tokens_view(v@) =~= token_list(opt_text(*it), opt_text(*dplay)));
    Ok(v)
}

/// The first key listed for a realm.
pub open spec fn first_token(v: Seq<(Seq<char>, (Seq<char>, Seq<char>))>, channel: Seq<char>) -> Option<(Seq<char>, Seq<char>)>
    decreases v.len(),
{
    if v.len() == 0 {
        None
    } else if v[0].0 == channel {
        Some(v[0].1)
    } else {
        first_token(v.drop_first(), channel)
    }
}

/// The playback service and key of a realm; an error naming the realm when
/// no key is listed for it.
pub fn token_for(tokens: &Vec<(String, (String, String))>, channel: &str) -> (r: Result<(String, String), ProviderError>)
    ensures
        match r {
            Ok(t) => first_token(tokens_view(tokens@), channel@) == Some((t.0@, t.1@)),
            Err(e) => first_token(tokens_view(tokens@), channel@) is None && (e matches ProviderError::StreamExtraction(m)
                && m@ == "No token for channel "@ + channel@),
        },
{
    let ghost tv = tokens_view(tokens@);
    assert(tv.skip(0) =~= tv);
    let mut i: usize = 0;
    while i < tokens.len()
        invariant
            i <= tokens@.len(),
            tv == tokens_view(tokens@),
            first_token(tv, channel@) == first_token(tv.skip(i as int), channel@),
        decreases tokens@.len() - i,
    {
        let (c, (endpoint, key)) = &tokens[i];
        assert(tv.skip(i as int)[0] == tv[i as int]);
        assert(tv.skip(i as int).drop_first() =~= tv.skip(i + 1));
        if crate::text::chars_equal(&chars_of(c.as_str()), &chars_of(channel)) {
            return Ok((endpoint.clone(), key.clone()));
        }
        i = i + 1;
    }
    let mut m = chars_of("No token for channel ");
    extend_str(&mut m, channel);
    Err(ProviderError::StreamExtraction(string_of(&m)))
}

/// The fields of a search result.
#[derive(Debug, Clone)]
pub struct AuroraSearchItem {
    pub kind: Option<String>,
    pub title: Option<String>,
    pub slug: Option<String>,
    pub parent_slug: Option<String>,
    pub date_last_modified: Option<String>,
    pub image_url: Option<String>,
}

/// The year of a modification date: the part before its first hyphen.
pub open spec fn date_year(d: Seq<char>) -> Seq<char> {
    split_char(d, '-')[0]
}

/// A show of an environment, found by its page address.
pub open spec fn show_entry(env: Seq<char>, name: Seq<char>, slug: Seq<char>, parent: Seq<char>, year: Option<Seq<char>>, image: Option<Seq<char>>, description: Option<Seq<char>>) -> EntryView {
    let url = show_url_text(env, slug, parent);
    EntryView {
        id: hash_bytes(vstd::utf8::encode_utf8(url)),
        name,
        slug: url,
        provider: 0,
        language: "it"@,
        media_type: MediaType::Series,
        alternative_names: Seq::empty(),
        year,
        score: None,
        image_url: image,
        description,
    }
}

/// The entry of a search result: only show pages with a title count.
pub open spec fn search_item_entry(env: Seq<char>, it: AuroraSearchItem) -> Option<EntryView> {
    if opt_text(it.kind) == Some("showpage"@) && key_text(it.title).len() > 0 {
        Some(show_entry(
            env,
            key_text(it.title),
            key_text(it.slug),
            key_text(it.parent_slug),
            match it.date_last_modified {
                Some(d) => Some(date_year(d@)),
                None => None,
            },
            opt_text(it.image_url),
            None,
        ))
    } else {
        None
    }
}

/// The entries of the search results, in their order.
pub open spec fn search_item_entries(env: Seq<char>, items: Seq<AuroraSearchItem>) -> Seq<EntryView>
    decreases items.len(),
{
    if items.len() == 0 {
        Seq::empty()
    } else {
        let rest = search_item_entries(env, items.drop_last());
        match search_item_entry(env, items.last()) {
            Some(e) => rest.push(e),
            None => rest,
        }
    }
}

/// Whether an optional text holds exactly the given one.
fn text_is(o: &Option<String>, lit: &str) -> (r: bool)
    ensures
        r == (opt_text(*o) == Some(lit@)),
{
    match o {
        Some(s) => crate::text::chars_equal(&chars_of(s.as_str()), &chars_of(lit)),
        None => false,
    }
}

/// The text, or the empty text when there is none.
fn text_or_empty(o: &Option<String>) -> (r: String)
    ensures
        r@ == key_text(*o),
{
    match o {
        Some(s) => s.clone(),
        None => String::new(),
    }
}

/// A copy of an optional text.
fn copy_text(o: &Option<String>) -> (r: Option<String>)
    ensures
        opt_text(r) == opt_text(*o),
{
    match o {
        Some(s) => Some(s.clone()),
        None => None,
    }
}

impl AuroraProvider {
    /// The entry of a show of this site.
    fn show(&self, name: String, slug: &str, parent: &str, year: Option<String>, image: Option<String>, description: Option<String>) -> (r: MediaEntry)
        ensures
            r@ == show_entry(self.env@, name@, slug@, parent@, opt_text(year), opt_text(image), opt_text(description)),
    {
        let url = self.build_show_url(slug, parent);
        let id = provider_hash(url.as_str());
        let e = MediaEntry {
            id,
            name,
            slug: url,
            provider: 0,
            language: "it".to_string(),
            media_type: MediaType::Series,
            alternative_names: Vec::new(),
            year,
            score: None,
            image_url: image,
            description,
        };
        assert(e@.alternative_names =~= Seq::<Seq<char>>::empty());
        e
    }

    /// The entry of a search result, when it is a show page with a title.
    pub fn search_entry(&self, it: &AuroraSearchItem) -> (r: Option<MediaEntry>)
        ensures
            match r {
                Some(e) => search_item_entry(self.env@, *it) == Some(e@),
                None => search_item_entry(self.env@, *it) is None,
            },
    {
        if !text_is(&it.kind, "showpage") {
            return None;
        }
        let title = text_or_empty(&it.title);
        if title.as_str().is_empty() {
            return None;
        }
        let year = match &it.date_last_modified {
            Some(d) => {
                let parts = split_char_exec(&chars_of(d.as_str()), '-');
                proof {
                    crate::text::lemma_split_char_nonempty(d@, '-');
                }
                Some(string_of(&parts[0]))
            },
            None => None,
        };
        let slug = text_or_empty(&it.slug);
        let parent = text_or_empty(&it.parent_slug);
        Some(self.show(title, slug.as_str(), parent.as_str(), year, copy_text(&it.image_url), None))
    }

    /// The entries of a search reply's results; an error when the reply has
    /// no result list.
    pub fn search_entries(&self, data: &Option<Vec<AuroraSearchItem>>) -> (r: Result<Vec<MediaEntry>, ProviderError>)
        ensures
            match r {
                Ok(v) => data matches Some(items) && entry_views(v@) == search_item_entries(self.env@, items@),
                Err(e) => data is None && (e matches ProviderError::Parse(m) && m@ == "No data array in search response"@),
            },
    {
        let items = match data {
            Some(items) => items,
            None => return Err(ProviderError::Parse("No data array in search response".to_string())),
        };
        let mut out: Vec<MediaEntry> = Vec::new();
        let mut i: usize = 0;
        while i < items.len()
            invariant
                i <= items@.len(),
                entry_views(out@) == search_item_entries(self.env@, items@.take(i as int)),
            decreases items@.len() - i,
        {
            assert(items@.take(i + 1).drop_last() =~= items@.take(i as int));
            assert(items@.take(i + 1).last() == items@[i as int]);
            let ghost before = out@;
            match self.search_entry(&items[i]) {
                Some(e) => {
                    out.push(e);
                    assert(entry_views(out@) =~= entry_views(before).push(e@));
                },
                None => {},
            }
            i = i + 1;
        }
        assert(items@.take(items@.len() as int) =~= items@);
        Ok(out)
    }
}

/// How a programme identifies its video: a text, a number, or nothing.
#[derive(Debug, Clone)]
pub enum AuroraId {
    Text(String),
    Unsigned(u64),
    Signed(i64),
    Missing,
}

/// The fields of a programme item of a show page.
#[derive(Debug, Clone)]
pub struct AuroraItem {
    pub id: AuroraId,
    pub season_number: Option<u64>,
    pub episode_number: Option<u64>,
    pub title: Option<String>,
    pub has_channel: bool,
    pub video_duration: Option<u64>,
    pub poster_src: Option<String>,
    pub image_src: Option<String>,
    pub image_url: Option<String>,
}

/// A signed number in decimal.
pub open spec fn signed_decimal(n: i64) -> Seq<char> {
    if n < 0 {
        "-"@ + decimal((-n) as nat)
    } else {
        decimal(n as nat)
    }
}

/// The video identifier of an item, as text.
pub open spec fn item_video_id(it: AuroraItem) -> Option<Seq<char>> {
    match it.id {
        AuroraId::Text(s) => Some(s@),
        AuroraId::Unsigned(n) => Some(decimal(n as nat)),
        AuroraId::Signed(n) => Some(signed_decimal(n)),
        AuroraId::Missing => None,
    }
}

/// The ASCII digits that open a text.
pub open spec fn leading_digits(s: Seq<char>) -> Seq<char>
    decreases s.len(),
{
    if s.len() == 0 || !is_digit(s[0]) {
        Seq::empty()
    } else {
        seq![s[0]] + leading_digits(s.drop_first())
    }
}

/// The number of an `Episodio N` title: the digits after the prefix.
pub open spec fn title_episode(t: Seq<char>) -> Option<u32> {
    if has_prefix(t, "Episodio "@) {
        parse_u32(leading_digits(t.skip(9)))
    } else {
        None
    }
}

/// The episode number of an item: its own (to 32 bits), else one read from
/// its title.
pub open spec fn item_episode_number(it: AuroraItem) -> Option<u32> {
    match it.episode_number {
        Some(n) => Some(low32(n)),
        None => match it.title {
            Some(t) => title_episode(t@),
            None => None,
        },
    }
}

/// The realm whose key plays an item: Discovery's when it names a channel.
pub open spec fn item_channel(it: AuroraItem) -> Seq<char> {
    if it.has_channel {
        "X-REALM-DPLAY"@
    } else {
        "X-REALM-IT"@
    }
}

/// The video identifier of an item.
pub fn video_id(it: &AuroraItem) -> (r: Option<String>)
    ensures
        opt_text(r) == item_video_id(*it),
{
    match &it.id {
        AuroraId::Text(s) => Some(s.clone()),
        AuroraId::Unsigned(n) => Some(string_of(&decimal_chars(*n))),
        AuroraId::Signed(n) => {
            if *n < 0 {
                let wide: i128 = *n as i128;
                let a: u64 = (0i128 - wide) as u64;
                let mut v = chars_of("-");
                extend_chars(&mut v, &decimal_chars(a));
                Some(string_of(&v))
            } else {
                Some(string_of(&decimal_chars(*n as u64)))
            }
        },
        AuroraId::Missing => None,
    }
}

/// The episode number of an item.
pub fn episode_number(it: &AuroraItem) -> (r: Option<u32>)
    ensures
        r == item_episode_number(*it),
{
    if let Some(n) = it.episode_number {
        return Some(low32_exec(n));
    }
    let t = match &it.title {
        Some(t) => chars_of(t.as_str()),
        None => return None,
    };
    let prefix = chars_of("Episodio ");
    proof {
        reveal_strlit("Episodio ");
    }
    if !occurs_at_exec(&t, &prefix, 0) {
        return None;
    }
    let mut digits: Vec<char> = Vec::new();
    let mut j: usize = 9;
    assert(leading_digits(t@.skip(9)) == digits@ + leading_digits(t@.skip(9)));
    while j < t.len() && '0' <= t[j] && t[j] <= '9'
        invariant
            9 <= j <= t@.len(),
            leading_digits(t@.skip(9)) == digits@ + leading_digits(t@.skip(j as int)),
        decreases t@.len() - j,
    {
        assert(t@.skip(j as int)[0] == t@[j as int]);
        assert(t@.skip(j as int).drop_first() =~= t@.skip(j + 1));
        let ghost before = digits@;
        digits.push(t[j]);
        assert(digits@ + leading_digits(t@.skip(j + 1)) =~= before + leading_digits(t@.skip(j as int)));
        j = j + 1;
    }
    assert(leading_digits(t@.skip(j as int)) =~= Seq::<char>::empty());
    assert(digits@ + Seq::<char>::empty() =~= digits@);
    parse_u32_exec(string_of(&digits).as_str())
}

/// The realm whose key plays an item.
pub fn channel(it: &AuroraItem) -> (r: String)
    ensures
        r@ == item_channel(*it),
{
    if it.has_channel {
        "X-REALM-DPLAY".to_string()
    } else {
        "X-REALM-IT".to_string()
    }
}

/// Whether a show page item is an episode of a numbered season.
pub open spec fn item_kept(it: AuroraItem) -> bool {
    it.season_number is Some && item_episode_number(it) is Some
}

/// The episode items of a block, in order.
pub open spec fn kept_of(items: Seq<AuroraItem>) -> Seq<AuroraItem>
    decreases items.len(),
{
    if items.len() == 0 {
        Seq::empty()
    } else {
        let rest = kept_of(items.drop_last());
        if item_kept(items.last()) {
            rest.push(items.last())
        } else {
            rest
        }
    }
}

/// The episode items of all blocks of a show page, in order.
pub open spec fn kept_items(blocks: Seq<Vec<AuroraItem>>) -> Seq<AuroraItem>
    decreases blocks.len(),
{
    if blocks.len() == 0 {
        Seq::empty()
    } else {
        kept_items(blocks.drop_last()) + kept_of(blocks.last()@)
    }
}

/// The season an item belongs to (its number to 32 bits; 0 when it has none).
pub open spec fn item_season(it: AuroraItem) -> u32 {
    match it.season_number {
        Some(n) => low32(n),
        None => 0,
    }
}

/// `r` lists the seasons of the kept items once each, by ascending number,
/// each identified by its number and named `Season N`.
pub open spec fn seasons_listed(r: Seq<Season>, kept: Seq<AuroraItem>) -> bool {
    &&& forall|i: int, j: int| 0 <= i < j < r.len() ==> (#[trigger] r[i]).number < (#[trigger] r[j]).number
    &&& forall|i: int|
        0 <= i < r.len() ==> (#[trigger] r[i]).id == r[i].number as u64 && opt_text(r[i].name) == Some(
            "Season "@ + decimal(r[i].number as nat),
        )
    &&& forall|i: int| 0 <= i < r.len() ==> has_season_item(kept, (#[trigger] r[i]).number)
    &&& forall|j: int| 0 <= j < kept.len() ==> lists_season(r, item_season(#[trigger] kept[j]))
}

/// Some kept item belongs to season `n`.
pub open spec fn has_season_item(kept: Seq<AuroraItem>, n: u32) -> bool {
    exists|j: int| 0 <= j < kept.len() && item_season(#[trigger] kept[j]) == n
}

/// Some listed season has number `n`.
pub open spec fn lists_season(r: Seq<Season>, n: u32) -> bool {
    exists|i: int| 0 <= i < r.len() && (#[trigger] r[i]).number == n
}

proof fn lemma_kept_of_step(items: Seq<AuroraItem>, i: int)
    requires
        0 <= i < items.len(),
    ensures
        kept_of(items.take(i + 1)) == if item_kept(items[i]) {
            kept_of(items.take(i)).push(items[i])
        } else {
            kept_of(items.take(i))
        },
{
    assert(items.take(i + 1).drop_last() =~= items.take(i));
    assert(items.take(i + 1).last() == items[i]);
}

/// Inserts a number into a strictly increasing list, unless it is there.
fn insert_number(v: &mut Vec<u32>, x: u32)
    requires
        forall|i: int, j: int| 0 <= i < j < old(v)@.len() ==> old(v)@[i] < old(v)@[j],
    ensures
        forall|i: int, j: int| 0 <= i < j < final(v)@.len() ==> final(v)@[i] < final(v)@[j],
        forall|n: u32| #[trigger] final(v)@.contains(n) <==> (old(v)@.contains(n) || n == x),
{
    let ghost before = v@;
    let mut pos: usize = 0;
    while pos < v.len() && v[pos] < x
        invariant
            pos <= v@.len(),
            v@ == before,
            forall|k: int| 0 <= k < pos ==> v@[k] < x,
        decreases v@.len() - pos,
    {
        pos = pos + 1;
    }
    if pos < v.len() && v[pos] == x {
        assert(v@[pos as int] == x);
        assert forall|n: u32| #[trigger] v@.contains(n) <==> (before.contains(n) || n == x) by {
            if n == x {
                assert(v@[pos as int] == n);
            }
        }
    } else {
        v.insert(pos, x);
        assert(v@ == before.insert(pos as int, x));
        assert forall|n: u32| #[trigger] v@.contains(n) <==> (before.contains(n) || n == x) by {
            if v@.contains(n) {
                let k = choose|k: int| 0 <= k < v@.len() && v@[k] == n;
                if k < pos {
                    assert(before[k] == n);
                } else if k > pos {
                    assert(before[k - 1] == n);
                }
            }
            if before.contains(n) {
                let k = choose|k: int| 0 <= k < before.len() && before[k] == n;
                if k < pos {
                    assert(v@[k] == n);
                } else {
                    assert(v@[k + 1] == n);
                }
            }
            if n == x {
                assert(v@[pos as int] == n);
            }
        }
    }
}

/// The seasons of a show page, and its episode items (to be kept for the
/// episode lists); an error when the page has no blocks.
pub fn aurora_seasons(blocks: Option<Vec<Vec<AuroraItem>>>) -> (r: Result<(Vec<Season>, Vec<AuroraItem>), ProviderError>)
    ensures
        match r {
            Ok((seasons, kept)) => blocks matches Some(b) && kept@ == kept_items(b@) && seasons_listed(seasons@, kept@),
            Err(e) => blocks is None && (e matches ProviderError::Parse(m) && m@ == "No blocks in response"@),
        },
{
    let bs = match blocks {
        Some(b) => b,
        None => return Err(ProviderError::Parse("No blocks in response".to_string())),
    };
    let ghost all = bs@;
    let mut rest = bs;
    let mut kept: Vec<AuroraItem> = Vec::new();
    let mut nums: Vec<u32> = Vec::new();
    let nb = rest.len();
    let mut i: usize = 0;
    while i < nb
        invariant
            nb == all.len(),
            i <= nb,
            rest@ == all.skip(i as int),
            kept@ == kept_items(all.take(i as int)),
            forall|a: int, b: int| 0 <= a < b < nums@.len() ==> nums@[a] < nums@[b],
            forall|n: u32| nums@.contains(n) <==> (exists|j: int| 0 <= j < kept@.len() && item_season(#[trigger] kept@[j]) == n),
        decreases nb - i,
    {
        assert(rest@.len() > 0);
        let block = rest.remove(0);
        assert(block == all[i as int]);
        let ghost items = block@;
        let ghost base = kept@;
        let mut items_left = block;
        let ni = items_left.len();
        let mut j: usize = 0;
        while j < ni
            invariant
                ni == items.len(),
                j <= ni,
                items_left@ == items.skip(j as int),
                kept@ == base + kept_of(items.take(j as int)),
                forall|a: int, b: int| 0 <= a < b < nums@.len() ==> nums@[a] < nums@[b],
                forall|n: u32| nums@.contains(n) <==> (exists|k: int| 0 <= k < kept@.len() && item_season(#[trigger] kept@[k]) == n),
            decreases ni - j,
        {
            assert(items_left@.len() > 0);
            let it = items_left.remove(0);
            assert(it == items[j as int]);
            proof {
                lemma_kept_of_step(items, j as int);
            }
            let keep = match it.season_number {
                Some(_) => episode_number(&it).is_some(),
                None => false,
            };
            if keep {
                let sn = match it.season_number {
                    Some(n) => low32_exec(n),
                    None => 0,
                };
                let ghost kb = kept@;
                insert_number(&mut nums, sn);
                kept.push(it);
                assert(kept@ =~= base + kept_of(items.take(j + 1)));
                assert forall|n: u32| nums@.contains(n) <==> (exists|k: int| 0 <= k < kept@.len() && item_season(#[trigger] kept@[k]) == n) by {
                    if exists|k: int| 0 <= k < kept@.len() && item_season(#[trigger] kept@[k]) == n {
                        let k = choose|k: int| 0 <= k < kept@.len() && item_season(#[trigger] kept@[k]) == n;
                        if k < kb.len() {
                            assert(kb[k] == kept@[k]);
                        }
                    }
                    if exists|k: int| 0 <= k < kb.len() && item_season(#[trigger] kb[k]) == n {
                        let k = choose|k: int| 0 <= k < kb.len() && item_season(#[trigger] kb[k]) == n;
                        assert(kept@[k] == kb[k]);
                    }
                    if n == sn {
                        assert(item_season(kept@[kb.len() as int]) == n);
                    }
                }
            } else {
                assert(kept_of(items.take(j + 1)) == kept_of(items.take(j as int)));
            }
            j = j + 1;
            assert(items_left@ =~= items.skip(j as int));
        }
        assert(items.take(ni as int) =~= items);
        assert(all.take(i + 1).drop_last() =~= all.take(i as int));
        assert(all.take(i + 1).last() == all[i as int]);
        i = i + 1;
        assert(rest@ =~= all.skip(i as int));
    }
    assert(all.take(nb as int) =~= all);
    let mut seasons: Vec<Season> = Vec::new();
    let mut k: usize = 0;
    while k < nums.len()
        invariant
            k <= nums@.len(),
            seasons@.len() == k,
            forall|a: int| 0 <= a < k ==> (#[trigger] seasons@[a]).number == nums@[a] && seasons@[a].id
                == nums@[a] as u64 && opt_text(seasons@[a].name) == Some("Season "@ + decimal(nums@[a] as nat)),
        decreases nums@.len() - k,
    {
        let num = nums[k];
        let mut name = chars_of("Season ");
        extend_chars(&mut name, &decimal_chars(num as u64));
        seasons.push(Season { id: num as u64, number: num, name: Some(string_of(&name)) });
        k = k + 1;
    }
    assert forall|a: int| 0 <= a < seasons@.len() implies has_season_item(kept@, (#[trigger] seasons@[a]).number) by {
        assert(nums@.contains(nums@[a]));
    }
    assert forall|j: int| 0 <= j < kept@.len() implies lists_season(seasons@, item_season(#[trigger] kept@[j])) by {
        let n = item_season(kept@[j]);
        assert(nums@.contains(n));
        let a = choose|a: int| 0 <= a < nums@.len() && nums@[a] == n;
        assert(seasons@[a].number == n);
    }
    assert forall|a: int, b: int| 0 <= a < b < seasons@.len() implies (#[trigger] seasons@[a]).number < (
    #[trigger] seasons@[b]).number by {
        assert(nums@[a] < nums@[b]);
    }
    assert(forall|i: int|
        0 <= i < seasons@.len() ==> (#[trigger] seasons@[i]).id == seasons@[i].number as u64 && opt_text(seasons@[i].name) == Some(
            "Season "@ + decimal(seasons@[i].number as nat),
        ));
    assert(seasons_listed(seasons@, kept@));
    Ok((seasons, kept))
}

/// The picture of an item: its poster, else its image source, else its
/// image address.
pub open spec fn image_of(it: AuroraItem) -> Option<Seq<char>> {
    if it.poster_src is Some {
        opt_text(it.poster_src)
    } else if it.image_src is Some {
        opt_text(it.image_src)
    } else {
        opt_text(it.image_url)
    }
}

/// The text an episode's identifier is hashed from.
pub open spec fn episode_key_text(entry_id: u64, season: u32, vid: Seq<char>) -> Seq<char> {
    decimal(entry_id as nat) + "-"@ + decimal(season as nat) + "-"@ + vid
}

/// A duration in milliseconds as whole minutes (to 32 bits); none when
/// absent or zero.
pub open spec fn duration_minutes(d: Option<u64>) -> Option<u32> {
    match d {
        Some(ms) => if ms > 0 {
            Some(low32(ms / 1000 / 60))
        } else {
            None
        },
        None => None,
    }
}

/// Whether an item is a playable episode of the season.
pub open spec fn item_listed(season: u32, it: AuroraItem) -> bool {
    item_season(it) == season && item_video_id(it) is Some && item_episode_number(it) is Some
}

/// The identifier of a listed item's episode.
pub open spec fn item_episode_id(entry_id: u64, season: u32, it: AuroraItem) -> u64 {
    hash_bytes(vstd::utf8::encode_utf8(episode_key_text(entry_id, season, item_video_id(it)->0)))
}

/// The episode of a listed item: named by its title, else `Episode N`.
pub open spec fn item_episode(entry_id: u64, season: u32, it: AuroraItem) -> EpisodeView {
    let n = item_episode_number(it)->0;
    EpisodeView {
        id: item_episode_id(entry_id, season, it),
        number: n,
        name: if key_text(it.title).len() > 0 {
            key_text(it.title)
        } else {
            "Episode "@ + decimal(n as nat)
        },
        duration: duration_minutes(it.video_duration),
        image_url: image_of(it),
    }
}

/// The episodes of a season, in item order.
pub open spec fn season_episodes(entry_id: u64, season: u32, items: Seq<AuroraItem>) -> Seq<EpisodeView>
    decreases items.len(),
{
    if items.len() == 0 {
        Seq::empty()
    } else {
        let rest = season_episodes(entry_id, season, items.drop_last());
        if item_listed(season, items.last()) {
            rest.push(item_episode(entry_id, season, items.last()))
        } else {
            rest
        }
    }
}

/// What playing each episode of a season needs: its video identifier and
/// realm, by episode identifier, in item order.
pub open spec fn season_links(entry_id: u64, season: u32, items: Seq<AuroraItem>) -> Seq<(u64, (Seq<char>, Seq<char>))>
    decreases items.len(),
{
    if items.len() == 0 {
        Seq::empty()
    } else {
        let rest = season_links(entry_id, season, items.drop_last());
        let it = items.last();
        if item_listed(season, it) {
            rest.push((item_episode_id(entry_id, season, it), (item_video_id(it)->0, item_channel(it))))
        } else {
            rest
        }
    }
}

/// The values a list of episode links holds.
pub open spec fn links_view(v: Seq<(u64, (String, String))>) -> Seq<(u64, (Seq<char>, Seq<char>))> {
    v.map_values(|t: (u64, (String, String))| (t.0, (t.1.0@, t.1.1@)))
}

/// The picture of an item.
fn item_image(it: &AuroraItem) -> (r: Option<String>)
    ensures
        opt_text(r) == image_of(*it),
{
    if it.poster_src.is_some() {
        copy_text(&it.poster_src)
    } else if it.image_src.is_some() {
        copy_text(&it.image_src)
    } else {
        copy_text(&it.image_url)
    }
}

/// The episodes of a season of a show, by ascending number (episodes of
/// equal number in item order), and what playing each needs; an error when
/// the show's items are not at hand.
pub fn episodes_of(entry_id: u64, season: u32, cached: &Option<Vec<AuroraItem>>) -> (r: Result<(Vec<Episode>, Vec<(u64, (String, String))>), ProviderError>)
    ensures
        match r {
            Ok((eps, links)) => cached matches Some(items) && (exists|p: Seq<int>|
                by_number(eps@, season_episodes(entry_id, season, items@), p)) && links_view(links@)
                == season_links(entry_id, season, items@),
            Err(e) => cached is None && (e matches ProviderError::Parse(m) && m@ == "Show data not cached"@),
        },
{
    let items = match cached {
        Some(items) => items,
        None => return Err(ProviderError::Parse("Show data not cached".to_string())),
    };
    let mut eps: Vec<Episode> = Vec::new();
    let mut links: Vec<(u64, (String, String))> = Vec::new();
    let mut i: usize = 0;
    while i < items.len()
        invariant
            i <= items@.len(),
            episode_views(eps@) == season_episodes(entry_id, season, items@.take(i as int)),
            links_view(links@) == season_links(entry_id, season, items@.take(i as int)),
        decreases items@.len() - i,
    {
        let it = &items[i];
        assert(items@.take(i + 1).drop_last() =~= items@.take(i as int));
        assert(items@.take(i + 1).last() == *it);
        let s = match it.season_number {
            Some(n) => low32_exec(n),
            None => 0,
        };
        let vid = video_id(it);
        let num = episode_number(it);
        if s == season && vid.is_some() && num.is_some() {
            let vid = match vid {
                Some(v) => v,
                None => String::new(),
            };
            let n = match num {
                Some(n) => n,
                None => 0,
            };
            let mut key = decimal_chars(entry_id);
            extend_str(&mut key, "-");
            extend_chars(&mut key, &decimal_chars(season as u64));
            extend_str(&mut key, "-");
            extend_str(&mut key, vid.as_str());
            let id = provider_hash(string_of(&key).as_str());
            let name = match &it.title {
                Some(t) => if t.as_str().is_empty() {
                    let mut v = chars_of("Episode ");
                    extend_chars(&mut v, &decimal_chars(n as u64));
                    string_of(&v)
                } else {
                    t.clone()
                },
                None => {
                    let mut v = chars_of("Episode ");
                    extend_chars(&mut v, &decimal_chars(n as u64));
                    string_of(&v)
                },
            };
            let duration = match it.video_duration {
                Some(ms) => if ms > 0 {
                    let minutes: u64 = ms / 1000 / 60;
                    Some(low32_exec(minutes))
                } else {
                    None
                },
                None => None,
            };
            let ep = Episode { id, number: n, name, duration, image_url: item_image(it) };
            let ghost eb = eps@;
            let ghost lb = links@;
            eps.push(ep);
            links.push((id, (vid, channel(it))));
            assert(episode_views(eps@) =~= episode_views(eb).push(ep@));
            assert(links_view(links@) =~= links_view(lb).push((links@.last().0, (links@.last().1.0@, links@.last().1.1@))));
        }
        i = i + 1;
    }
    assert(items@.take(items@.len() as int) =~= items@);
    let ghost ev = episode_views(eps@);
    let sorted = order_by_number(eps);
    let ghost p = choose|p: Seq<int>| by_number(sorted@, ev, p);
    let r = (sorted, links);
    assert(by_number(r.0@, season_episodes(entry_id, season, items@), p));
    Ok(r)
}

/// What a playback request goes on with: the video and realm at hand, a
/// fetch of a season's episodes to learn them, or an error.
#[derive(Debug)]
pub enum PlaybackTarget {
    Ready(String, String),
    Refetch(u32),
    Fail(ProviderError),
}

/// The next step of a playback request, given whether it names an episode,
/// what is known of that episode, and the season it names.
pub fn playback_target(has_episode: bool, cached: Option<(String, String)>, season: Option<u32>) -> (r: PlaybackTarget)
    ensures
        !has_episode ==> (r matches PlaybackTarget::Fail(ProviderError::StreamExtraction(m)) && m@ == "Episode required"@),
        has_episode && cached is Some ==> (r matches PlaybackTarget::Ready(v, c) && v@ == (cached->0).0@ && c@ == (cached->0).1@),
        has_episode && cached is None && season is Some ==> r == PlaybackTarget::Refetch(season->0),
        has_episode && cached is None && season is None ==> (r matches PlaybackTarget::Fail(
            ProviderError::StreamExtraction(m),
        ) && m@ == "Season required to fetch episode data"@),
{
    if !has_episode {
        return PlaybackTarget::Fail(ProviderError::StreamExtraction("Episode required".to_string()));
    }
    match cached {
        Some((v, c)) => PlaybackTarget::Ready(v, c),
        None => match season {
            Some(s) => PlaybackTarget::Refetch(s),
            None => PlaybackTarget::Fail(
                ProviderError::StreamExtraction("Season required to fetch episode data".to_string()),
            ),
        },
    }
}

/// What is known of an episode after its season was fetched; an error when
/// it is still unknown.
pub fn after_refetch(found: Option<(String, String)>) -> (r: Result<(String, String), ProviderError>)
    ensures
        match found {
            Some(f) => r matches Ok(t) && t.0@ == f.0@ && t.1@ == f.1@,
            None => r matches Err(ProviderError::StreamExtraction(m)) && m@ == "Episode data not found after fetch"@,
        },
{
    match found {
        Some(f) => Ok(f),
        None => Err(ProviderError::StreamExtraction("Episode data not found after fetch".to_string())),
    }
}

/// The stream of a playback reply, from the address of its first stream;
/// an error when it lists none.
pub fn stream_from_reply(first_url: Option<String>) -> (r: Result<StreamUrl, ProviderError>)
    ensures
        match first_url {
            Some(u) => r matches Ok(s) && s.url@ == u@ && s.headers@.len() == 0,
            None => r matches Err(ProviderError::StreamExtraction(m)) && m@ == "No streaming URL in response"@,
        },
{
    match first_url {
        Some(u) => Ok(StreamUrl { url: u, headers: Vec::new() }),
        None => Err(ProviderError::StreamExtraction("No streaming URL in response".to_string())),
    }
}

/// The fields of a catalogue card.
#[derive(Debug, Clone)]
pub struct AuroraCard {
    pub page_type: Option<String>,
    pub title: Option<String>,
    pub url: Option<String>,
    pub parent_url: Option<String>,
    pub image_url: Option<String>,
    pub description: Option<String>,
}

/// The fields of a home page block.
#[derive(Debug, Clone)]
pub struct AuroraBlock {
    pub kind: Option<String>,
    pub items_type: Option<String>,
    pub items: Option<Vec<AuroraCard>>,
}

/// A text, unless it is absent or empty.
pub open spec fn nonempty_text(o: Option<String>) -> Option<Seq<char>> {
    match o {
        Some(s) => if s@.len() > 0 {
            Some(s@)
        } else {
            None
        },
        None => None,
    }
}

/// The show of a card: show pages with a title and an address count.
pub open spec fn card_show(env: Seq<char>, c: AuroraCard) -> Option<EntryView> {
    if opt_text(c.page_type) == Some("showpage"@) && key_text(c.title).len() > 0 && key_text(c.url).len() > 0 {
        Some(show_entry(
            env,
            key_text(c.title),
            key_text(c.url),
            key_text(c.parent_url),
            None,
            opt_text(c.image_url),
            nonempty_text(c.description),
        ))
    } else {
        None
    }
}

/// The shows of some cards, in order.
pub open spec fn cards_shows(env: Seq<char>, cards: Seq<AuroraCard>) -> Seq<EntryView>
    decreases cards.len(),
{
    if cards.len() == 0 {
        Seq::empty()
    } else {
        let rest = cards_shows(env, cards.drop_last());
        match card_show(env, cards.last()) {
            Some(e) => rest.push(e),
            None => rest,
        }
    }
}

/// Whether a block is a collection of show pages.
pub open spec fn block_lists_shows(b: AuroraBlock) -> bool {
    opt_text(b.kind) == Some("collectionBlock"@) && opt_text(b.items_type) == Some("showpage"@) && b.items is Some
}

/// The shows of the collection blocks, in order.
pub open spec fn catalog_shows(env: Seq<char>, blocks: Seq<AuroraBlock>) -> Seq<EntryView>
    decreases blocks.len(),
{
    if blocks.len() == 0 {
        Seq::empty()
    } else {
        let b = blocks.last();
        catalog_shows(env, blocks.drop_last()) + if block_lists_shows(b) {
            cards_shows(env, b.items->0@)
        } else {
            Seq::empty()
        }
    }
}

/// The catalogue: the first of each show of the collection blocks, at most
/// `limit` of them (at least one when there is one).
pub open spec fn catalog_text(env: Seq<char>, blocks: Seq<AuroraBlock>, limit: usize) -> Seq<EntryView> {
    let u = first_of_each(catalog_shows(env, blocks));
    let cap: int = if limit == 0 {
        1
    } else {
        limit as int
    };
    if u.len() <= cap {
        u
    } else {
        u.take(cap)
    }
}

impl AuroraProvider {
    /// The show of a catalogue card, when it is a show page with a title and
    /// an address.
    pub fn catalog_entry(&self, c: &AuroraCard) -> (r: Option<MediaEntry>)
        ensures
            match r {
                Some(e) => card_show(self.env@, *c) == Some(e@),
                None => card_show(self.env@, *c) is None,
            },
    {
        if !text_is(&c.page_type, "showpage") {
            return None;
        }
        let title = text_or_empty(&c.title);
        if title.as_str().is_empty() {
            return None;
        }
        let url = text_or_empty(&c.url);
        if url.as_str().is_empty() {
            return None;
        }
        let parent = text_or_empty(&c.parent_url);
        let description = match &c.description {
            Some(d) => if d.as_str().is_empty() {
                None
            } else {
                Some(d.clone())
            },
            None => None,
        };
        Some(self.show(title, url.as_str(), parent.as_str(), None, copy_text(&c.image_url), description))
    }

    /// The shows of the home page's collection blocks, in order.
    fn all_shows(&self, blocks: &Vec<AuroraBlock>) -> (r: Vec<MediaEntry>)
        ensures
            entry_views(r@) == catalog_shows(self.env@, blocks@),
    {
        let mut out: Vec<MediaEntry> = Vec::new();
        let mut i: usize = 0;
        while i < blocks.len()
            invariant
                i <= blocks@.len(),
                entry_views(out@) == catalog_shows(self.env@, blocks@.take(i as int)),
            decreases blocks@.len() - i,
        {
            let b = &blocks[i];
            assert(blocks@.take(i + 1).drop_last() =~= blocks@.take(i as int));
            assert(blocks@.take(i + 1).last() == *b);
            let ghost base = out@;
            if text_is(&b.kind, "collectionBlock") && text_is(&b.items_type, "showpage") && b.items.is_some() {
                let cards = match &b.items {
                    Some(c) => c,
                    None => return out,
                };
                let mut j: usize = 0;
                while j < cards.len()
                    invariant
                        j <= cards@.len(),
                        entry_views(out@) == entry_views(base) + cards_shows(self.env@, cards@.take(j as int)),
                    decreases cards@.len() - j,
                {
                    assert(cards@.take(j + 1).drop_last() =~= cards@.take(j as int));
                    assert(cards@.take(j + 1).last() == cards@[j as int]);
                    let ghost before = out@;
                    match self.catalog_entry(&cards[j]) {
                        Some(e) => {
                            out.push(e);
                            assert(entry_views(out@) =~= entry_views(before).push(e@));
                        },
                        None => {},
                    }
                    j = j + 1;
                }
                assert(cards@.take(cards@.len() as int) =~= cards@);
            } else {
                assert(entry_views(out@) =~= entry_views(base) + Seq::<EntryView>::empty());
            }
            i = i + 1;
        }
        assert(blocks@.take(blocks@.len() as int) =~= blocks@);
        out
    }

    /// The catalogue of the home page's blocks: each show once (its first
    /// card), stopping once `limit` shows are listed.
    pub fn catalog_entries(&self, blocks: &Vec<AuroraBlock>, limit: usize) -> (r: Vec<MediaEntry>)
        ensures
            entry_views(r@) == catalog_text(self.env@, blocks@, limit),
    {
        let all = self.all_shows(blocks);
        let ghost views = entry_views(all@);
        let ghost cap: int = if limit == 0 {
            1
        } else {
            limit as int
        };
        let n = all.len();
        let mut rest = all;
        let mut out: Vec<MediaEntry> = Vec::new();
        let mut k: usize = 0;
        assert(views.take(0) =~= Seq::<EntryView>::empty());
        while k < n
            invariant
                n == views.len(),
                views == catalog_shows(self.env@, blocks@),
                k <= n,
                entry_views(rest@) == views.skip(k as int),
                entry_views(out@) == first_of_each(views.take(k as int)),
                out@.len() < cap,
                cap == if limit == 0 {
                    1
                } else {
                    limit as int
                },
            decreases n - k,
        {
            assert(entry_views(rest@).len() == rest@.len());
            assert(rest@.len() > 0);
            let ghost old_rest = rest@;
            let e = rest.remove(0);
            assert(e@ == views[k as int]) by {
                assert(entry_views(old_rest)[0] == old_rest[0]@);
                assert(views.skip(k as int)[0] == views[k as int]);
            }
            assert(entry_views(rest@) =~= views.skip(k + 1)) by {
                assert forall|t: int| 0 <= t < rest@.len() implies entry_views(rest@)[t] == views.skip(k + 1)[t] by {
                    assert(rest@[t] == old_rest[t + 1]);
                    assert(entry_views(old_rest)[t + 1] == old_rest[t + 1]@);
                    assert(views.skip(k as int)[t + 1] == views.skip(k + 1)[t]);
                }
            }
            assert(views.take(k + 1).drop_last() =~= views.take(k as int));
            assert(views.take(k + 1).last() == views[k as int]);
            let seen = has_id(&out, e.id);
            let ghost before = out@;
            if !seen {
                out.push(e);
                assert(entry_views(out@) =~= entry_views(before).push(views[k as int]));
            }
            k = k + 1;
            if out.len() >= limit && !seen {
                proof {
                    lemma_first_of_each_prefix(views, k as int);
                    let u = first_of_each(views);
                    assert(entry_views(out@).len() == cap);
                    assert(u.take(cap) == entry_views(out@));
                    if u.len() <= cap {
                        assert(u.take(u.len() as int) =~= u);
                    }
                }
                return out;
            }
        }
        assert(views.take(n as int) =~= views);
        out
    }
}

} // verus!
