//! RaiPlay: identifiers and absolute addresses of its pages.
use crate::providers::models::{by_number, episode_views, order_by_number, texts, EpisodeView};
use crate::providers::streaming_community::{key_text, text_of, ids_of, Catalog};
use crate::providers::{hash_bytes, Episode, MediaEntry, MediaType, Season};
use crate::search::{lowercase, lowercase_of};
use crate::text::{
    all_digits, chars_of, decimal, decimal_chars, extend_chars, extend_str, has_prefix,
    occurs_at_exec, parse_u32, parse_u32_exec, parse_u64, parse_u64_exec, split_char,
    split_char_exec, string_of,
};
use vstd::prelude::*;
use vstd::string::StringSliceAdditionalSpecFns;

verus! {

/// Site root that relative RaiPlay paths are resolved against.
pub const RAIPLAY_BASE: &'static str = "https://www.raiplay.it";

/// RaiPlay's search service.
pub const RAIPLAY_SEARCH: &'static str = "https://www.raiplay.it/atomatic/raiplay-search-service/api/v1/msearch";

/// RaiPlay's stream relinker.
pub const RAIPLAY_RELINKER: &'static str = "https://mediapolisvod.rai.it/relinker/relinkerServlet.htm";

/// Identifier of a RaiPlay path: the polynomial hash of its bytes.
pub fn raiplay_hash(s: &str) -> (h: u64)
    ensures
        h == hash_bytes(s.spec_bytes()),
{
    crate::providers::hash_byte_slice(s.as_bytes())
}

/// The absolute address of a RaiPlay link: kept as is when it already starts
/// with `http`, otherwise appended to the site root.
pub open spec fn abs_url(s: Seq<char>) -> Seq<char> {
    if has_prefix(s, "http"@) {
        s
    } else {
        RAIPLAY_BASE@ + s
    }
}

/// Makes a RaiPlay link absolute.
pub fn raiplay_abs_url(s: &str) -> (r: String)
    ensures
        r@ == abs_url(s@),
{
    let v = chars_of(s);
    let http = chars_of("http");
    if occurs_at_exec(&v, &http, 0) {
        string_of(&v)
    } else {
        let mut out = chars_of(RAIPLAY_BASE);
        extend_str(&mut out, s);
        string_of(&out)
    }
}

/// The fields of a search card.
#[derive(Debug, Clone)]
pub struct RaiCard {
    pub path_id: Option<String>,
    pub titolo: Option<String>,
    pub immagine: Option<String>,
}

/// The year in an image address: the fourth path segment from the end,
/// when it is four ASCII digits.
pub open spec fn image_year(img: Seq<char>) -> Option<Seq<char>> {
    let parts = split_char(img, '/');
    if parts.len() >= 4 && parts[parts.len() - 4].len() == 4 && all_digits(parts[parts.len() - 4]) {
        Some(parts[parts.len() - 4])
    } else {
        None
    }
}

/// `e` is the entry of a search card: its path identifies it and is its
/// slug; cards without a path or a title are skipped.
pub open spec fn card_entry(c: RaiCard, e: MediaEntry) -> bool {
    &&& c.path_id matches Some(p) && e.id == hash_bytes(vstd::utf8::encode_utf8(p@)) && e.slug@ == p@
    &&& c.titolo matches Some(t) && t@.len() > 0 && e.name@ == t@
    &&& e.media_type == MediaType::Series
    &&& text_of(e.image_url) == (match c.immagine {
        Some(i) => Some(abs_url(i@)),
        None => None,
    })
    &&& text_of(e.year) == (match c.immagine {
        Some(i) => image_year(abs_url(i@)),
        None => None,
    })
    &&& e.alternative_names@.len() == 0
    &&& e.description is None
    &&& e.score is None
    &&& e.provider == 0
    &&& e.language@.len() == 0
}

/// The entry of a search card, when it has a path and a title.
pub fn parse_search_card(c: &RaiCard) -> (r: Option<MediaEntry>)
    ensures
        match r {
            Some(e) => card_entry(*c, e),
            None => c.path_id is None || key_text(c.titolo).len() == 0,
        },
{
    let path = match &c.path_id {
        Some(p) => p,
        None => return None,
    };
    let name = match &c.titolo {
        Some(t) => if t.as_str().is_empty() {
            return None;
        } else {
            t.clone()
        },
        None => return None,
    };
    let image = match &c.immagine {
        Some(i) => Some(raiplay_abs_url(i.as_str())),
        None => None,
    };
    let year = match &image {
        Some(img) => {
            let parts = split_char_exec(&chars_of(img.as_str()), '/');
            let n = parts.len();
            if n >= 4 && parts[n - 4].len() == 4 && all_ascii_digits(&parts[n - 4]) {
                Some(string_of(&parts[n - 4]))
            } else {
                None
            }
        },
        None => None,
    };
    Some(MediaEntry {
        id: raiplay_hash(path.as_str()),
        name,
        slug: path.clone(),
        provider: 0,
        language: String::new(),
        media_type: MediaType::Series,
        alternative_names: Vec::new(),
        year,
        score: None,
        image_url: image,
        description: None,
    })
}

/// Whether every character is an ASCII digit.
fn all_ascii_digits(v: &Vec<char>) -> (r: bool)
    ensures
        r == all_digits(v@),
{
    let mut i: usize = 0;
    while i < v.len()
        invariant
            i <= v@.len(),
            forall|k: int| 0 <= k < i ==> crate::text::is_digit(#[trigger] v@[k]),
        decreases v@.len() - i,
    {
        if !('0' <= v[i] && v[i] <= '9') {
            return false;
        }
        i = i + 1;
    }
    true
}

/// `e` is the entry of one of the first fifteen cards.
pub open spec fn from_first_cards(cards: Seq<RaiCard>, e: MediaEntry) -> bool {
    exists|k: int| 0 <= k < 15 && k < cards.len() && #[trigger] card_entry(cards[k], e)
}

/// A search card yields an entry: it has a path and a non-empty title.
pub open spec fn card_parses(c: RaiCard) -> bool {
    c.path_id is Some && key_text(c.titolo).len() > 0
}

/// The id of a search card's entry: the hash of its path.
pub open spec fn card_id(c: RaiCard) -> u64 {
    hash_bytes(vstd::utf8::encode_utf8(c.path_id->0@))
}

/// `r` lists the entries of the cards at the positions `src` (increasing,
/// among the first fifteen), and every card there that yields an entry has
/// its title listed from that card or an earlier one.
pub open spec fn search_picks(cards: Seq<RaiCard>, r: Seq<MediaEntry>, src: Seq<int>) -> bool {
    &&& src.len() == r.len()
    &&& forall|j: int|
        0 <= j < r.len() ==> 0 <= #[trigger] src[j] < 15 && src[j] < cards.len() && card_entry(
            cards[src[j]],
            r[j],
        )
    &&& forall|a: int, b: int| 0 <= a < b < r.len() ==> src[a] < src[b]
    &&& forall|k: int|
        0 <= k < 15 && k < cards.len() && #[trigger] card_parses(cards[k]) ==> exists|j: int|
            0 <= j < r.len() && src[j] <= k && (#[trigger] r[j]).id == card_id(cards[k])
}

/// The search results: the entries of the first fifteen cards that yield
/// one, in card order, each title once (from the first card that has it).
pub fn search_results(cards: &Vec<RaiCard>) -> (r: Vec<MediaEntry>)
    ensures
        forall|a: int, b: int| 0 <= a < b < r@.len() ==> r@[a].id != r@[b].id,
        r@.len() <= 15,
        forall|i: int| 0 <= i < r@.len() ==> #[trigger] from_first_cards(cards@, r@[i]),
        exists|src: Seq<int>| search_picks(cards@, r@, src),
{
    let mut cat = Catalog::new();
    let mut out: Vec<MediaEntry> = Vec::new();
    let ghost mut src: Seq<int> = Seq::empty();
    let mut i: usize = 0;
    let n = if cards.len() < 15 {
        cards.len()
    } else {
        15
    };
    while i < n
        invariant
            i <= n <= 15,
            n <= cards@.len(),
            ids_of(cat.items()) == ids_of(out@),
            cat.wf(),
            out@.len() <= i,
            src.len() == out@.len(),
            forall|a: int, b: int| 0 <= a < b < out@.len() ==> out@[a].id != out@[b].id,
            forall|j: int|
                0 <= j < out@.len() ==> 0 <= #[trigger] src[j] < i && card_entry(cards@[src[j]], out@[j]),
            forall|a: int, b: int| 0 <= a < b < out@.len() ==> src[a] < src[b],
            forall|k: int|
                0 <= k < i && #[trigger] card_parses(cards@[k]) ==> exists|j: int|
                    0 <= j < out@.len() && src[j] <= k && (#[trigger] out@[j]).id == card_id(cards@[k]),
        decreases n - i,
    {
        let ghost before_step = out@;
        let ghost src_before = src;
        match parse_search_card(&cards[i]) {
            Some(e) => {
                assert(card_id(cards@[i as int]) == e.id);
                if cat.has(e.id) {
                    assert(ids_of(out@).contains(e.id));
                    let ghost w = choose|w: int| 0 <= w < ids_of(out@).len() && ids_of(out@)[w] == e.id;
                    assert(out@[w].id == e.id);
                    assert(src[w] <= i);
                } else {
                    let ghost ids = ids_of(out@);
                    let ghost before = out@;
                    let copy = e.duplicate();
                    cat.add(copy, "");
                    out.push(e);
                    proof {
                        src = src.push(i as int);
                    }
                    assert(ids_of(out@) =~= ids.push(e.id));
                    assert forall|a: int, b: int| 0 <= a < b < out@.len() implies out@[a].id != out@[b].id by {
                        if b == out@.len() - 1 {
                            assert(ids[a] == out@[a].id);
                        }
                    }
                    assert forall|j: int| 0 <= j < out@.len() implies 0 <= #[trigger] src[j] < i + 1
                        && card_entry(cards@[src[j]], out@[j]) by {
                        if j < out@.len() - 1 {
                            assert(out@[j] == before[j]);
                        }
                    }
                    assert forall|k: int|
                        0 <= k < i + 1 && #[trigger] card_parses(cards@[k]) implies exists|j: int|
                            0 <= j < out@.len() && src[j] <= k && (#[trigger] out@[j]).id == card_id(cards@[k]) by {
                        if k < i {
                            let j = choose|j: int|
                                0 <= j < before.len() && src_before[j] <= k && (#[trigger] before[j]).id
                                    == card_id(cards@[k]);
                            assert(out@[j] == before[j]);
                            assert(src[j] == src_before[j]);
                        } else {
                            let j = out@.len() - 1;
                            assert(out@[j] == e);
                        }
                    }
                }
            },
            None => {
                assert(!card_parses(cards@[i as int]));
            },
        }
        i = i + 1;
    }
    assert(search_picks(cards@, out@, src));
    assert forall|j: int| 0 <= j < out@.len() implies #[trigger] from_first_cards(cards@, out@[j]) by {
        assert(card_entry(cards@[src[j]], out@[j]));
    }
    out
}

/// A set of a programme block (a season, when it has episodes).
#[derive(Debug, Clone)]
pub struct RaiSet {
    pub episode_count: Option<u64>,
    pub id: Option<String>,
    pub name: Option<String>,
}

/// A block of a programme page; `sets` is `None` when not a list.
#[derive(Debug, Clone)]
pub struct RaiBlock {
    pub kind: Option<String>,
    pub name: Option<String>,
    pub id: Option<String>,
    pub sets: Option<Vec<RaiSet>>,
}

/// The seasons of a set list: the sets with episodes, as (block id, set
/// id, set name).
pub open spec fn sets_with_episodes(block_id: Seq<char>, sets: Seq<RaiSet>) -> Seq<(Seq<char>, Seq<char>, Option<Seq<char>>)>
    decreases sets.len(),
{
    if sets.len() == 0 {
        Seq::empty()
    } else {
        let rest = sets_with_episodes(block_id, sets.drop_last());
        let st = sets.last();
        match st.episode_count {
            Some(c) => if c > 0 {
                rest.push((block_id, key_text(st.id), text_of(st.name)))
            } else {
                rest
            },
            None => rest,
        }
    }
}

/// A block holds seasons when it is a multimedia block other than clips
/// and extras (names compared in lowercase).
pub open spec fn is_season_block(b: RaiBlock) -> bool {
    text_of(b.kind) == Some("RaiPlay Multimedia Block"@) && lowercase_of(key_text(b.name)) != "clip"@
        && lowercase_of(key_text(b.name)) != "extra"@
}

/// The seasons of a programme page, block by block.
pub open spec fn page_seasons(blocks: Seq<RaiBlock>) -> Seq<(Seq<char>, Seq<char>, Option<Seq<char>>)>
    decreases blocks.len(),
{
    if blocks.len() == 0 {
        Seq::empty()
    } else {
        let rest = page_seasons(blocks.drop_last());
        let b = blocks.last();
        if is_season_block(b) && b.sets is Some {
            rest + sets_with_episodes(key_text(b.id), b.sets->0@)
        } else {
            rest
        }
    }
}

/// The seasons of a programme, numbered from 1, and for each the block and
/// set its episodes are listed under.
pub fn seasons_from_blocks(blocks: &Vec<RaiBlock>) -> (r: (Vec<Season>, Vec<(String, String)>))
    requires
        page_seasons(blocks@).len() < u32::MAX,
    ensures
        r.0@.len() == page_seasons(blocks@).len(),
        r.1@.len() == page_seasons(blocks@).len(),
        forall|i: int|
            0 <= i < r.0@.len() ==> {
                let s = #[trigger] r.0@[i];
                let e = page_seasons(blocks@)[i];
                &&& s.id == i + 1
                &&& s.number == i + 1
                &&& text_of(s.name) == e.2
                &&& r.1@[i].0@ == e.0
                &&& r.1@[i].1@ == e.1
            },
{
    let mut seasons: Vec<Season> = Vec::new();
    let mut maps: Vec<(String, String)> = Vec::new();
    let mut num: u32 = 1;
    let mut bi: usize = 0;
    let ghost total = page_seasons(blocks@);
    while bi < blocks.len()
        invariant
            bi <= blocks@.len(),
            total == page_seasons(blocks@),
            total.len() < u32::MAX,
            page_seasons(blocks@.take(bi as int)).len() <= total.len(),
            seasons@.len() == page_seasons(blocks@.take(bi as int)).len(),
            maps@.len() == seasons@.len(),
            num == seasons@.len() + 1,
            forall|i: int|
                0 <= i < seasons@.len() ==> {
                    let s = #[trigger] seasons@[i];
                    let e = page_seasons(blocks@.take(bi as int))[i];
                    &&& s.id == i + 1
                    &&& s.number == i + 1
                    &&& text_of(s.name) == e.2
                    &&& maps@[i].0@ == e.0
                    &&& maps@[i].1@ == e.1
                },
        decreases blocks@.len() - bi,
    {
        let b = &blocks[bi];
        let ghost pre = page_seasons(blocks@.take(bi as int));
        assert(blocks@.take(bi + 1).drop_last() =~= blocks@.take(bi as int));
        assert(blocks@.take(bi + 1).last() == *b);
        proof {
            lemma_page_seasons_prefix(blocks@, (bi + 1) as int);
        }
        let kind_ok = match &b.kind {
            Some(k) => crate::text::chars_equal(&chars_of(k.as_str()), &chars_of("RaiPlay Multimedia Block")),
            None => false,
        };
        let lname = match &b.name {
            Some(n) => lowercase(n.as_str()),
            None => {
                let e = "";
                proof {
                    reveal_strlit("");
                    assert(e@ =~= Seq::<char>::empty());
                }
                lowercase(e)
            },
        };
        let lc = chars_of(lname.as_str());
        let eligible = kind_ok && !crate::text::chars_equal(&lc, &chars_of("clip"))
            && !crate::text::chars_equal(&lc, &chars_of("extra"));
        if eligible {
            if let Some(sets) = &b.sets {
                let block_id = match &b.id {
                    Some(x) => x.clone(),
                    None => String::new(),
                };
                let mut si: usize = 0;
                while si < sets.len()
                    invariant
                        si <= sets@.len(),
                        block_id@ == key_text(b.id),
                        total.len() < u32::MAX,
                        pre.len() + sets_with_episodes(key_text(b.id), sets@.take(si as int)).len() <= total.len(),
                        pre.len() + sets_with_episodes(key_text(b.id), sets@).len() <= total.len(),
                        seasons@.len() == pre.len() + sets_with_episodes(key_text(b.id), sets@.take(si as int)).len(),
                        maps@.len() == seasons@.len(),
                        num == seasons@.len() + 1,
                        forall|i: int|
                            0 <= i < seasons@.len() ==> {
                                let s = #[trigger] seasons@[i];
                                let e = (pre + sets_with_episodes(key_text(b.id), sets@.take(si as int)))[i];
                                &&& s.id == i + 1
                                &&& s.number == i + 1
                                &&& text_of(s.name) == e.2
                                &&& maps@[i].0@ == e.0
                                &&& maps@[i].1@ == e.1
                            },
                    decreases sets@.len() - si,
                {
                    let st = &sets[si];
                    assert(sets@.take(si + 1).drop_last() =~= sets@.take(si as int));
                    assert(sets@.take(si + 1).last() == *st);
                    proof {
                        lemma_sets_prefix(key_text(b.id), sets@, (si + 1) as int);
                    }
                    let count = match st.episode_count {
                        Some(c) => c,
                        None => 0,
                    };
                    if count > 0 {
                        let set_id = match &st.id {
                            Some(x) => x.clone(),
                            None => String::new(),
                        };
                        let name = match &st.name {
                            Some(x) => Some(x.clone()),
                            None => None,
                        };
                        seasons.push(Season { id: num as u64, number: num, name });
                        maps.push((block_id.clone(), set_id));
                        num = num + 1;
                    }
                    proof {
                        let now = pre + sets_with_episodes(key_text(b.id), sets@.take(si + 1));
                        let was = pre + sets_with_episodes(key_text(b.id), sets@.take(si as int));
                        if count > 0 {
                            assert(now =~= was.push((key_text(b.id), key_text(st.id), text_of(st.name))));
                        } else {
                            assert(now =~= was);
                        }
                    }
                    si = si + 1;
                }
                assert(sets@.take(sets@.len() as int) =~= sets@);
                proof {
                    reveal_strlit("RaiPlay Multimedia Block");
                    reveal_strlit("clip");
                    reveal_strlit("extra");
                }
                assert(page_seasons(blocks@.take(bi + 1)) == pre + sets_with_episodes(key_text(b.id), sets@));
            } else {
                assert(page_seasons(blocks@.take(bi + 1)) == pre);
            }
        } else {
            proof {
                reveal_strlit("RaiPlay Multimedia Block");
            }
            assert(!is_season_block(*b));
            assert(page_seasons(blocks@.take(bi + 1)) == pre);
        }
        bi = bi + 1;
    }
    assert(blocks@.take(blocks@.len() as int) =~= blocks@);
    (seasons, maps)
}

proof fn lemma_sets_prefix(block_id: Seq<char>, sets: Seq<RaiSet>, k: int)
    requires
        0 <= k <= sets.len(),
    ensures
        sets_with_episodes(block_id, sets.take(k)).len() <= sets_with_episodes(block_id, sets).len(),
    decreases sets.len() - k,
{
    if k < sets.len() {
        lemma_sets_prefix(block_id, sets, k + 1);
        assert(sets.take(k + 1).drop_last() =~= sets.take(k));
    } else {
        assert(sets.take(k) =~= sets);
    }
}

proof fn lemma_page_seasons_prefix(blocks: Seq<RaiBlock>, k: int)
    requires
        0 <= k <= blocks.len(),
    ensures
        page_seasons(blocks.take(k)).len() <= page_seasons(blocks).len(),
    decreases blocks.len() - k,
{
    if k < blocks.len() {
        lemma_page_seasons_prefix(blocks, k + 1);
        assert(blocks.take(k + 1).drop_last() =~= blocks.take(k));
    } else {
        assert(blocks.take(k) =~= blocks);
    }
}

/// The fields of an episode card.
#[derive(Debug, Clone)]
pub struct RaiEpisodeCard {
    pub episode: Option<String>,
    pub episode_title: Option<String>,
    pub name: Option<String>,
    pub toptitle: Option<String>,
    pub duration_in_minutes: Option<String>,
    pub duration: Option<String>,
    pub weblink: Option<String>,
    pub url: Option<String>,
}

/// The first text present.
pub open spec fn first_text(a: Option<String>, b: Option<String>) -> Option<String> {
    if a is Some {
        a
    } else {
        b
    }
}

/// A number written in a card, when it reads as a 32-bit number.
pub open spec fn card_number(o: Option<String>) -> Option<u32> {
    match o {
        Some(s) => parse_u32(s@),
        None => None,
    }
}

/// The episode of the card at position `pos` of a programme with the given
/// slug: numbered as the card says, else by position (from 1); named by its
/// episode title, name or top title; identified by the hash of the slug and
/// its link.
pub open spec fn card_episode(slug: Seq<char>, pos: nat, c: RaiEpisodeCard) -> EpisodeView {
    let link = key_text(first_text(c.weblink, c.url));
    EpisodeView {
        id: hash_bytes(vstd::utf8::encode_utf8(slug + link)),
        number: match card_number(c.episode) {
            Some(n) => n,
            None => ((pos + 1) % 0x1_0000_0000) as u32,
        },
        name: key_text(first_text(c.episode_title, first_text(c.name, c.toptitle))),
        duration: if card_number(c.duration_in_minutes) is Some {
            card_number(c.duration_in_minutes)
        } else {
            card_number(c.duration)
        },
        image_url: None,
    }
}

/// The episodes of the cards, in card order.
pub open spec fn card_episodes(slug: Seq<char>, cards: Seq<RaiEpisodeCard>) -> Seq<EpisodeView>
    decreases cards.len(),
{
    if cards.len() == 0 {
        Seq::empty()
    } else {
        card_episodes(slug, cards.drop_last()).push(
            card_episode(slug, (cards.len() - 1) as nat, cards.last()),
        )
    }
}

/// The pages of the card episodes that have a link: each episode's id and
/// its absolute page address, in card order.
pub open spec fn card_pages(slug: Seq<char>, cards: Seq<RaiEpisodeCard>) -> Seq<(u64, Seq<char>)>
    decreases cards.len(),
{
    if cards.len() == 0 {
        Seq::empty()
    } else {
        let rest = card_pages(slug, cards.drop_last());
        let c = cards.last();
        let link = key_text(first_text(c.weblink, c.url));
        if link.len() > 0 {
            rest.push((hash_bytes(vstd::utf8::encode_utf8(slug + link)), abs_url(link)))
        } else {
            rest
        }
    }
}

/// The episodes of a season's cards, ordered by number, and the pages of
/// those that have a link.
pub fn episodes_from_cards(slug: &str, cards: &Vec<RaiEpisodeCard>) -> (r: (Vec<Episode>, Vec<(u64, String)>))
    ensures
        exists|p: Seq<int>| by_number(r.0@, card_episodes(slug@, cards@), p),
        r.1@.len() == card_pages(slug@, cards@).len(),
        forall|i: int| 0 <= i < r.1@.len() ==> (#[trigger] r.1@[i]).0 == card_pages(slug@, cards@)[i].0
            && r.1@[i].1@ == card_pages(slug@, cards@)[i].1,
{
    let mut eps: Vec<Episode> = Vec::new();
    let mut pages: Vec<(u64, String)> = Vec::new();
    let mut i: usize = 0;
    while i < cards.len()
        invariant
            i <= cards@.len(),
            episode_views(eps@) == card_episodes(slug@, cards@.take(i as int)),
            pages@.len() == card_pages(slug@, cards@.take(i as int)).len(),
            forall|k: int| 0 <= k < pages@.len() ==> (#[trigger] pages@[k]).0 == card_pages(slug@, cards@.take(i as int))[k].0
                && pages@[k].1@ == card_pages(slug@, cards@.take(i as int))[k].1,
        decreases cards@.len() - i,
    {
        let c = &cards[i];
        assert(cards@.take(i + 1).drop_last() =~= cards@.take(i as int));
        assert(cards@.take(i + 1).last() == *c);
        let number = match &c.episode {
            Some(e) => match parse_u32_exec(e.as_str()) {
                Some(n) => Some(n),
                None => None,
            },
            None => None,
        };
        let number = match number {
            Some(n) => n,
            None => {
                let ip1: u64 = i as u64 + 1;
                let pos = ip1 & 0xFFFF_FFFF;
                assert(pos == ip1 % 0x1_0000_0000) by (bit_vector)
                    requires
                        pos == ip1 & 0xFFFF_FFFF,
                ;
                pos as u32
            },
        };
        let title = if c.episode_title.is_some() {
            &c.episode_title
        } else if c.name.is_some() {
            &c.name
        } else {
            &c.toptitle
        };
        let name = match title {
            Some(t) => t.clone(),
            None => String::new(),
        };
        let minutes = match &c.duration_in_minutes {
            Some(d) => parse_u32_exec(d.as_str()),
            None => None,
        };
        let duration = if minutes.is_some() {
            minutes
        } else {
            match &c.duration {
                Some(d) => parse_u32_exec(d.as_str()),
                None => None,
            }
        };
        let link_opt = if c.weblink.is_some() {
            &c.weblink
        } else {
            &c.url
        };
        let link = match link_opt {
            Some(l) => l.clone(),
            None => String::new(),
        };
        let mut key = chars_of(slug);
        extend_str(&mut key, link.as_str());
        let key_s = string_of(&key);
        let id = raiplay_hash(key_s.as_str());
        let ghost pprev = pages@;
        if !link.as_str().is_empty() {
            pages.push((id, raiplay_abs_url(link.as_str())));
        }
        proof {
            let now = card_pages(slug@, cards@.take(i + 1));
            assert(key_s@ == slug@ + key_text(first_text(c.weblink, c.url)));
            if link@.len() > 0 {
                assert(now == card_pages(slug@, cards@.take(i as int)).push(
                    (hash_bytes(vstd::utf8::encode_utf8(slug@ + link@)), abs_url(link@)),
                ));
                assert forall|k: int| 0 <= k < pages@.len() implies (#[trigger] pages@[k]).0 == now[k].0
                    && pages@[k].1@ == now[k].1 by {
                    if k < pages@.len() - 1 {
                        assert(pages@[k] == pprev[k]);
                    }
                }
            }
        }
        let ep = Episode { id, number, name, duration, image_url: None };
        let ghost before = eps@;
        eps.push(ep);
        assert(card_episodes(slug@, cards@.take(i + 1)) == card_episodes(slug@, cards@.take(i as int)).push(
            card_episode(slug@, i as nat, *c),
        ));
        assert(episode_views(eps@) =~= episode_views(before).push(ep@));
        i = i + 1;
    }
    assert(cards@.take(cards@.len() as int) =~= cards@);
    let ghost ev = episode_views(eps@);
    let sorted = order_by_number(eps);
    let ghost p = choose|p: Seq<int>| by_number(sorted@, ev, p);
    let r = (sorted, pages);
    assert(by_number(r.0@, card_episodes(slug@, cards@), p));
    r
}

proof fn lemma_card_episodes_at(slug: Seq<char>, cards: Seq<RaiEpisodeCard>, i: int)
    ensures
        card_episodes(slug, cards).len() == cards.len(),
        0 <= i < cards.len() ==> card_episodes(slug, cards)[i] == card_episode(slug, i as nat, cards[i]),
    decreases cards.len(),
{
    if cards.len() > 0 {
        lemma_card_episodes_at(slug, cards.drop_last(), i);
    }
}

/// Each episode read from a season's cards comes from one card and holds
/// what that card says: it is named by the card's episode title; without
/// one, by its name; without either, by its top title; else the name is
/// empty. It is numbered as the card's episode field reads, else by the
/// card's position from 1; its duration is the card's minutes, else its
/// duration field, when they read as numbers.
pub proof fn law_episode_read_from_its_card(
    slug: Seq<char>,
    cards: Seq<RaiEpisodeCard>,
    eps: Seq<Episode>,
    p: Seq<int>,
)
    requires
        by_number(eps, card_episodes(slug, cards), p),
    ensures
        eps.len() == cards.len(),
        forall|i: int|
            0 <= i < eps.len() ==> {
                let e = (#[trigger] eps[i])@;
                let c = cards[p[i]];
                &&& 0 <= p[i] < cards.len()
                &&& (c.episode_title matches Some(t) ==> e.name == t@)
                &&& (c.episode_title is None && c.name is Some ==> e.name == c.name->0@)
                &&& (c.episode_title is None && c.name is None && c.toptitle is Some ==> e.name
                    == c.toptitle->0@)
                &&& (c.episode_title is None && c.name is None && c.toptitle is None ==> e.name
                    == Seq::<char>::empty())
                &&& (c.episode matches Some(x) ==> (parse_u32(x@) matches Some(n) ==> e.number == n))
                &&& ((c.episode is None || parse_u32(c.episode->0@) is None) ==> e.number == ((p[i] + 1)
                    % 0x1_0000_0000) as u32)
                &&& (c.duration_in_minutes matches Some(m) ==> (parse_u32(m@) is Some ==> e.duration
                    == parse_u32(m@)))
                &&& ((c.duration_in_minutes is None || parse_u32(c.duration_in_minutes->0@) is None)
                    ==> e.duration == (match c.duration {
                    Some(d) => parse_u32(d@),
                    None => None,
                }))
            },
{
    lemma_card_episodes_at(slug, cards, 0);
    assert forall|i: int| 0 <= i < eps.len() implies {
                let e = (#[trigger] eps[i])@;
                let c = cards[p[i]];
                &&& 0 <= p[i] < cards.len()
                &&& (c.episode_title matches Some(t) ==> e.name == t@)
                &&& (c.episode_title is None && c.name is Some ==> e.name == c.name->0@)
                &&& (c.episode_title is None && c.name is None && c.toptitle is Some ==> e.name
                    == c.toptitle->0@)
                &&& (c.episode_title is None && c.name is None && c.toptitle is None ==> e.name
                    == Seq::<char>::empty())
                &&& (c.episode matches Some(x) ==> (parse_u32(x@) matches Some(n) ==> e.number == n))
                &&& ((c.episode is None || parse_u32(c.episode->0@) is None) ==> e.number == ((p[i] + 1)
                    % 0x1_0000_0000) as u32)
                &&& (c.duration_in_minutes matches Some(m) ==> (parse_u32(m@) is Some ==> e.duration
                    == parse_u32(m@)))
                &&& ((c.duration_in_minutes is None || parse_u32(c.duration_in_minutes->0@) is None)
                    ==> e.duration == (match c.duration {
                    Some(d) => parse_u32(d@),
                    None => None,
                }))
            } by {
        lemma_card_episodes_at(slug, cards, p[i]);
    }
}

/// The JSON address of a page: kept when it ends in `.json`, else with
/// `.html` replaced by (or `.json` appended as) the JSON suffix.
pub open spec fn json_url_text(page: Seq<char>) -> Seq<char> {
    if page.len() >= 5 && page.skip(page.len() - 5) == ".json"@ {
        page
    } else if page.len() >= 5 && page.skip(page.len() - 5) == ".html"@ {
        page.take(page.len() - 5) + ".json"@
    } else {
        page + ".json"@
    }
}

/// Whether `s` ends with the five characters of `suffix`.
fn ends_with5(s: &Vec<char>, suffix: &str) -> (r: bool)
    requires
        suffix@.len() == 5,
    ensures
        r == (s@.len() >= 5 && s@.skip(s@.len() - 5) == suffix@),
{
    if s.len() < 5 {
        return false;
    }
    let t = chars_of(suffix);
    let r = occurs_at_exec(s, &t, s.len() - 5);
    assert(s@.subrange(s@.len() - 5, s@.len() as int) =~= s@.skip(s@.len() - 5));
    r
}

/// The JSON address of a page.
pub fn json_url(page: &str) -> (r: String)
    ensures
        r@ == json_url_text(page@),
{
    let v = chars_of(page);
    proof {
        reveal_strlit(".json");
        reveal_strlit(".html");
    }
    if ends_with5(&v, ".json") {
        return string_of(&v);
    }
    if ends_with5(&v, ".html") {
        let mut out: Vec<char> = Vec::new();
        let mut i: usize = 0;
        while i < v.len() - 5
            invariant
                v@.len() >= 5,
                i <= v@.len() - 5,
                out@ =~= v@.take(i as int),
            decreases v@.len() - 5 - i,
        {
            out.push(v[i]);
            i = i + 1;
        }
        extend_str(&mut out, ".json");
        return string_of(&out);
    }
    let mut out = v;
    extend_str(&mut out, ".json");
    string_of(&out)
}

/// The stream key of a video: what follows the first `=` of its content
/// address, up to the next one.
pub open spec fn content_key(content_url: Seq<char>) -> Option<Seq<char>> {
    let parts = split_char(content_url, '=');
    if parts.len() >= 2 {
        Some(parts[1])
    } else {
        None
    }
}

/// The relinker address that resolves a video, from its content address.
pub fn relinker_url(content_url: &str) -> (r: Result<String, crate::providers::ProviderError>)
    ensures
        match content_key(content_url@) {
            Some(k) => r matches Ok(u) && u@ == RAIPLAY_RELINKER@ + "?cont="@ + k + "&output=62"@,
            None => r matches Err(crate::providers::ProviderError::StreamExtraction(m)) && m@
                == "No cont parameter"@,
        },
{
    let parts = split_char_exec(&chars_of(content_url), '=');
    if parts.len() < 2 {
        return Err(crate::providers::ProviderError::StreamExtraction("No cont parameter".to_owned()));
    }
    let mut v = chars_of(RAIPLAY_RELINKER);
    extend_str(&mut v, "?cont=");
    extend_chars(&mut v, &parts[1]);
    extend_str(&mut v, "&output=62");
    Ok(string_of(&v))
}

/// A path without its leading slashes.
pub open spec fn trim_leading_slashes(s: Seq<char>) -> Seq<char>
    decreases s.len(),
{
    if s.len() > 0 && s[0] == '/' {
        trim_leading_slashes(s.drop_first())
    } else {
        s
    }
}

/// The page of a programme: the site root, `/`, and its path.
pub fn programme_url(slug: &str) -> (r: String)
    ensures
        r@ == RAIPLAY_BASE@ + "/"@ + trim_leading_slashes(slug@),
{
    let v = chars_of(slug);
    let mut a: usize = 0;
    assert(v@.skip(0) =~= v@);
    while a < v.len() && v[a] == '/'
        invariant
            a <= v@.len(),
            trim_leading_slashes(v@) == trim_leading_slashes(v@.skip(a as int)),
        decreases v@.len() - a,
    {
        assert(v@.skip(a as int).drop_first() =~= v@.skip(a + 1));
        a = a + 1;
    }
    let mut out = chars_of(RAIPLAY_BASE);
    extend_str(&mut out, "/");
    let ghost head = out@;
    let mut i: usize = a;
    while i < v.len()
        invariant
            a <= i <= v@.len(),
            out@ =~= head + v@.subrange(a as int, i as int),
        decreases v@.len() - i,
    {
        out.push(v[i]);
        i = i + 1;
    }
    assert(v@.subrange(a as int, v@.len() as int) =~= v@.skip(a as int));
    string_of(&out)
}

/// The page a stream is resolved from: an episode's cached page, or the
/// programme's own page; an error when an episode's page is not known.
pub fn stream_page(has_episode: bool, cached: Option<String>, slug: &str) -> (r: Result<String, crate::providers::ProviderError>)
    ensures
        has_episode && cached is Some ==> (r matches Ok(p) && p@ == cached->0@),
        has_episode && cached is None ==> (r matches Err(crate::providers::ProviderError::Parse(m)) && m@
            == "Episode URL not cached"@),
        !has_episode ==> (r matches Ok(p) && p@ == RAIPLAY_BASE@ + "/"@ + trim_leading_slashes(slug@)),
{
    if has_episode {
        match cached {
            Some(p) => Ok(p),
            None => Err(crate::providers::ProviderError::Parse("Episode URL not cached".to_string())),
        }
    } else {
        Ok(programme_url(slug))
    }
}

/// The JSON address of the item a page points to first.
pub fn item_json_url(first_item: &str) -> (r: String)
    ensures
        r@ == abs_url(first_item@) + ".json"@,
{
    let mut v = chars_of(raiplay_abs_url(first_item).as_str());
    extend_str(&mut v, ".json");
    string_of(&v)
}

/// The relinker request of a video's content address; an error when the
/// video has none, or it carries no content key.
pub fn content_relinker(content_url: &Option<String>) -> (r: Result<String, crate::providers::ProviderError>)
    ensures
        match content_url {
            None => r matches Err(crate::providers::ProviderError::StreamExtraction(m)) && m@ == "No content_url"@,
            Some(c) => match content_key(c@) {
                Some(k) => r matches Ok(u) && u@ == RAIPLAY_RELINKER@ + "?cont="@ + k + "&output=62"@,
                None => r matches Err(crate::providers::ProviderError::StreamExtraction(m)) && m@
                    == "No cont parameter"@,
            },
        },
{
    match content_url {
        Some(c) => relinker_url(c.as_str()),
        None => Err(crate::providers::ProviderError::StreamExtraction("No content_url".to_string())),
    }
}

/// Finds the bitrate list of an HLS playlist address.
pub const QUALITY_PATTERN: &'static str = "(_,[\\d,]+)(/playlist\\.m3u8)";

/// The bitrates asked for instead.
pub const QUALITY_REPLACEMENT: &'static str = "_1200,1800,2400,3600,5000$2";

/// The stream address played: a DASH manifest as it is, an HLS playlist
/// with its bitrate list replaced by the full one.
pub open spec fn quality_url(stream: Seq<char>) -> Seq<char> {
    if crate::text::contains(stream, ".mpd"@) {
        stream
    } else {
        crate::providers::regex_replaced_of(QUALITY_PATTERN@, stream, QUALITY_REPLACEMENT@)
    }
}

/// The first item of a list, when it is a string.
pub open spec fn first_item_text(o: Option<Seq<crate::json::JsonV>>) -> Option<Seq<char>> {
    match o {
        Some(s) => if s.len() > 0 {
            crate::json::text_at(Some(s[0]))
        } else {
            None
        },
        None => None,
    }
}

/// The stream of a relinker reply (its bytes, read as UTF-8 with invalid
/// sequences replaced): the first listed video, at full quality; an error
/// when the reply is not JSON or lists no video.
pub fn relinker_stream(reply: &[u8]) -> (r: Result<crate::providers::StreamUrl, crate::providers::ProviderError>)
    ensures
        match crate::json::json_of(crate::providers::animeunity::utf8_lossy(reply@)) {
            Err(e) => r matches Err(crate::providers::ProviderError::Parse(m)) && m@ == "Relinker JSON: "@ + e,
            Ok(p) => match first_item_text(crate::json::array_at(crate::json::field(Some(p), "video"@))) {
                None => r matches Err(crate::providers::ProviderError::StreamExtraction(m)) && m@
                    == "No video in relinker"@,
                Some(s) => r matches Ok(st) && st.url@ == quality_url(s) && st.headers@.len() == 0,
            },
        },
{
    let text = crate::providers::animeunity::string_from_utf8_lossy(reply);
    let first = match crate::json::parse_json(text.as_str()) {
        Ok(p) => match crate::json::array_in(crate::json::member(Some(&p), "video")) {
            Some(a) => {
                proof {
                    crate::json::lemma_json_seq_view(a@);
                }
                if a.len() > 0 {
                    crate::json::text_in(Some(&a[0]))
                } else {
                    None
                }
            },
            None => None,
        },
        Err(e) => {
            let mut m = chars_of("Relinker JSON: ");
            extend_str(&mut m, e.as_str());
            return Err(crate::providers::ProviderError::Parse(string_of(&m)));
        },
    };
    let stream = match first {
        Some(s) => s,
        None => return Err(crate::providers::ProviderError::StreamExtraction("No video in relinker".to_string())),
    };
    let url = if crate::text::contains_exec(&chars_of(stream.as_str()), &chars_of(".mpd")) {
        stream
    } else {
        crate::providers::regex_replace_first(QUALITY_PATTERN, stream.as_str(), QUALITY_REPLACEMENT)
    };
    Ok(crate::providers::StreamUrl { url, headers: Vec::new() })
}

/// `s` without trailing `.json` suffixes.
pub open spec fn trim_json_suffix(s: Seq<char>) -> Seq<char>
    decreases s.len(),
{
    if s.len() >= 5 && s.skip(s.len() - 5) == ".json"@ {
        trim_json_suffix(s.take(s.len() - 5))
    } else {
        s
    }
}

/// The episode list of a season, from the block and set its episodes are
/// listed under (the seasons counted from 1); an error when the season is
/// not among the programme's.
pub fn season_episodes_url(slug: &str, mapping: Option<&Vec<(String, String)>>, season: u32) -> (r: Result<String, crate::providers::ProviderError>)
    requires
        season >= 1,
    ensures
        match mapping {
            Some(m) if season - 1 < m@.len() => r matches Ok(u) && u@ == RAIPLAY_BASE@ + "/"@
                + trim_json_suffix(trim_leading_slashes(slug@)) + "/"@ + m@[season - 1].0@ + "/"@
                + m@[season - 1].1@ + "/episodes.json"@,
            _ => r matches Err(crate::providers::ProviderError::Parse(e)) && e@ == "Season mapping not found"@,
        },
{
    let idx = (season - 1) as usize;
    let m = match mapping {
        Some(m) => m,
        None => return Err(crate::providers::ProviderError::Parse("Season mapping not found".to_string())),
    };
    if idx >= m.len() {
        return Err(crate::providers::ProviderError::Parse("Season mapping not found".to_string()));
    }
    let v = chars_of(slug);
    let mut a: usize = 0;
    assert(v@.skip(0) =~= v@);
    while a < v.len() && v[a] == '/'
        invariant
            a <= v@.len(),
            trim_leading_slashes(v@) == trim_leading_slashes(v@.skip(a as int)),
        decreases v@.len() - a,
    {
        assert(v@.skip(a as int).drop_first() =~= v@.skip(a + 1));
        a = a + 1;
    }
    let ghost t = v@.skip(a as int);
    let mut b: usize = v.len();
    let json = chars_of(".json");
    proof {
        reveal_strlit(".json");
    }
    assert(v@.subrange(a as int, b as int) =~= t);
    while b - a >= 5 && occurs_at_exec(&v, &json, b - 5)
        invariant
            a <= b <= v@.len(),
            json@ == ".json"@,
            json@.len() == 5,
            t == v@.skip(a as int),
            trim_json_suffix(t) == trim_json_suffix(v@.subrange(a as int, b as int)),
        decreases b - a,
    {
        let ghost cur = v@.subrange(a as int, b as int);
        assert(cur.skip(cur.len() - 5) =~= v@.subrange(b - 5, b as int));
        assert(v@.subrange(b - 5, b as int) =~= json@);
        assert(cur.take(cur.len() - 5) =~= v@.subrange(a as int, b - 5));
        assert(trim_json_suffix(cur) == trim_json_suffix(cur.take(cur.len() - 5)));
        b = b - 5;
    }
    proof {
        let cur = v@.subrange(a as int, b as int);
        if cur.len() >= 5 {
            assert(cur.skip(cur.len() - 5) =~= v@.subrange(b - 5, b as int));
        }
    }
    let mut out = chars_of(RAIPLAY_BASE);
    extend_str(&mut out, "/");
    let ghost head = out@;
    let mut i: usize = a;
    while i < b
        invariant
            a <= i <= b,
            b <= v@.len(),
            out@ =~= head + v@.subrange(a as int, i as int),
        decreases b - i,
    {
        out.push(v[i]);
        i = i + 1;
    }
    extend_str(&mut out, "/");
    extend_str(&mut out, m[idx].0.as_str());
    extend_str(&mut out, "/");
    extend_str(&mut out, m[idx].1.as_str());
    extend_str(&mut out, "/episodes.json");
    Ok(string_of(&out))
}

} // verus!
