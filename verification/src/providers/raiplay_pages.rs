//! RaiPlay's JSON replies, read into the card, block and set records its
//! search, seasons, episodes and streams are built from.
use crate::json::{
    array_at, array_in, field, items_at, json_seq_view, lemma_json_seq_view, member, opt_view, text_at,
    text_in, u64_at, u64_in, Json, JsonV,
};
use crate::providers::raiplay::{RaiBlock, RaiCard, RaiEpisodeCard, RaiSet};
use crate::providers::streaming_community::text_of;
use vstd::prelude::*;

verus! {

/// A search card read from its JSON object.
pub open spec fn card_from(c: RaiCard, j: JsonV) -> bool {
    &&& text_of(c.path_id) == text_at(field(Some(j), "path_id"@))
    &&& text_of(c.titolo) == text_at(field(Some(j), "titolo"@))
    &&& text_of(c.immagine) == text_at(field(Some(j), "immagine"@))
}

/// A set read from its JSON object.
pub open spec fn set_from(s: RaiSet, j: JsonV) -> bool {
    &&& s.episode_count == u64_at(field(field(Some(j), "episode_size"@), "number"@))
    &&& text_of(s.id) == text_at(field(Some(j), "id"@))
    &&& text_of(s.name) == text_at(field(Some(j), "name"@))
}

/// A programme block read from its JSON object: its sets when they are a
/// list.
pub open spec fn block_from(b: RaiBlock, j: JsonV) -> bool {
    &&& text_of(b.kind) == text_at(field(Some(j), "type"@))
    &&& text_of(b.name) == text_at(field(Some(j), "name"@))
    &&& text_of(b.id) == text_at(field(Some(j), "id"@))
    &&& match (b.sets, array_at(field(Some(j), "sets"@))) {
        (None, None) => true,
        (Some(v), Some(s)) => v@.len() == s.len() && forall|k: int| 0 <= k < s.len() ==> set_from(#[trigger] v@[k], s[k]),
        _ => false,
    }
}

/// An episode card read from its JSON object.
pub open spec fn episode_card_from(c: RaiEpisodeCard, j: JsonV) -> bool {
    &&& text_of(c.episode) == text_at(field(Some(j), "episode"@))
    &&& text_of(c.episode_title) == text_at(field(Some(j), "episode_title"@))
    &&& text_of(c.name) == text_at(field(Some(j), "name"@))
    &&& text_of(c.toptitle) == text_at(field(Some(j), "toptitle"@))
    &&& text_of(c.duration_in_minutes) == text_at(field(Some(j), "duration_in_minutes"@))
    &&& text_of(c.duration) == text_at(field(Some(j), "duration"@))
    &&& text_of(c.weblink) == text_at(field(Some(j), "weblink"@))
    &&& text_of(c.url) == text_at(field(Some(j), "url"@))
}

/// The cards of a list of episodes, in order.
pub open spec fn cards_of_episodes(eps: Seq<JsonV>) -> Seq<JsonV>
    decreases eps.len(),
{
    if eps.len() == 0 {
        Seq::empty()
    } else {
        cards_of_episodes(eps.drop_last()) + items_at(field(Some(eps.last()), "cards"@))
    }
}

/// The cards of the episodes of a list of seasons, in order.
pub open spec fn cards_of_seasons(ss: Seq<JsonV>) -> Seq<JsonV>
    decreases ss.len(),
{
    if ss.len() == 0 {
        Seq::empty()
    } else {
        cards_of_seasons(ss.drop_last()) + cards_of_episodes(items_at(field(Some(ss.last()), "episodes"@)))
    }
}

/// The episode cards of a season reply: those of its seasons' episodes
/// when it lists seasons, else its own cards.
pub open spec fn reply_cards(reply: JsonV) -> Seq<JsonV> {
    match array_at(field(Some(reply), "seasons"@)) {
        Some(ss) => cards_of_seasons(ss),
        None => items_at(field(Some(reply), "cards"@)),
    }
}

/// The search cards of a search reply.
pub fn search_cards(reply: &Json) -> (r: Vec<RaiCard>)
    ensures
        ({
            let cs = items_at(field(field(field(Some(reply@), "agg"@), "titoli"@), "cards"@));
            r@.len() == cs.len() && forall|k: int| 0 <= k < cs.len() ==> card_from(#[trigger] r@[k], cs[k])
        }),
{
    let mut v: Vec<RaiCard> = Vec::new();
    let cards = member(member(member(Some(reply), "agg"), "titoli"), "cards");
    let a = match array_in(cards) {
        Some(a) => a,
        None => return v,
    };
    proof {
        lemma_json_seq_view(a@);
    }
    let mut i: usize = 0;
    while i < a.len()
        invariant
            i <= a@.len(),
            v@.len() == i,
            json_seq_view(a@).len() == a@.len(),
            forall|k: int| 0 <= k < a@.len() ==> json_seq_view(a@)[k] == (#[trigger] a@[k])@,
            forall|k: int| 0 <= k < i ==> card_from(#[trigger] v@[k], json_seq_view(a@)[k]),
        decreases a@.len() - i,
    {
        assert(json_seq_view(a@)[i as int] == a@[i as int]@);
        let c = Some(&a[i]);
        v.push(RaiCard {
            path_id: text_in(member(c, "path_id")),
            titolo: text_in(member(c, "titolo")),
            immagine: text_in(member(c, "immagine")),
        });
        i = i + 1;
    }
    v
}

fn set_list(o: Option<&Json>) -> (r: Option<Vec<RaiSet>>)
    ensures
        match array_at(opt_view(o)) {
            None => r is None,
            Some(s) => r matches Some(v) && v@.len() == s.len() && forall|k: int|
                0 <= k < s.len() ==> set_from(#[trigger] v@[k], s[k]),
        },
{
    let a = match array_in(o) {
        Some(a) => a,
        None => return None,
    };
    proof {
        lemma_json_seq_view(a@);
    }
    let mut v: Vec<RaiSet> = Vec::new();
    let mut i: usize = 0;
    while i < a.len()
        invariant
            i <= a@.len(),
            v@.len() == i,
            json_seq_view(a@).len() == a@.len(),
            forall|k: int| 0 <= k < a@.len() ==> json_seq_view(a@)[k] == (#[trigger] a@[k])@,
            forall|k: int| 0 <= k < i ==> set_from(#[trigger] v@[k], json_seq_view(a@)[k]),
        decreases a@.len() - i,
    {
        assert(json_seq_view(a@)[i as int] == a@[i as int]@);
        let s = Some(&a[i]);
        v.push(RaiSet {
            episode_count: u64_in(member(member(s, "episode_size"), "number")),
            id: text_in(member(s, "id")),
            name: text_in(member(s, "name")),
        });
        i = i + 1;
    }
    Some(v)
}

/// The blocks of a programme page (none when they are not a list).
pub fn programme_blocks(page: &Json) -> (r: Vec<RaiBlock>)
    ensures
        ({
            let bs = items_at(field(Some(page@), "blocks"@));
            r@.len() == bs.len() && forall|k: int| 0 <= k < bs.len() ==> block_from(#[trigger] r@[k], bs[k])
        }),
{
    let mut v: Vec<RaiBlock> = Vec::new();
    let a = match array_in(member(Some(page), "blocks")) {
        Some(a) => a,
        None => return v,
    };
    proof {
        lemma_json_seq_view(a@);
    }
    let mut i: usize = 0;
    while i < a.len()
        invariant
            i <= a@.len(),
            v@.len() == i,
            json_seq_view(a@).len() == a@.len(),
            forall|k: int| 0 <= k < a@.len() ==> json_seq_view(a@)[k] == (#[trigger] a@[k])@,
            forall|k: int| 0 <= k < i ==> block_from(#[trigger] v@[k], json_seq_view(a@)[k]),
        decreases a@.len() - i,
    {
        assert(json_seq_view(a@)[i as int] == a@[i as int]@);
        let b = Some(&a[i]);
        v.push(RaiBlock {
            kind: text_in(member(b, "type")),
            name: text_in(member(b, "name")),
            id: text_in(member(b, "id")),
            sets: set_list(member(b, "sets")),
        });
        i = i + 1;
    }
    v
}

/// Appends the episode cards of a value's items (none when it is not a
/// list).
fn push_cards(out: &mut Vec<RaiEpisodeCard>, o: Option<&Json>)
    ensures
        final(out)@.len() == old(out)@.len() + items_at(opt_view(o)).len(),
        forall|k: int| 0 <= k < old(out)@.len() ==> final(out)@[k] == old(out)@[k],
        forall|k: int|
            0 <= k < items_at(opt_view(o)).len() ==> episode_card_from(
                #[trigger] final(out)@[old(out)@.len() + k],
                items_at(opt_view(o))[k],
            ),
{
    let a = match array_in(o) {
        Some(a) => a,
        None => return,
    };
    proof {
        lemma_json_seq_view(a@);
    }
    let ghost start = out@.len();
    let mut i: usize = 0;
    while i < a.len()
        invariant
            i <= a@.len(),
            out@.len() == start + i,
            start == old(out)@.len(),
            forall|k: int| 0 <= k < start ==> out@[k] == old(out)@[k],
            json_seq_view(a@).len() == a@.len(),
            forall|k: int| 0 <= k < a@.len() ==> json_seq_view(a@)[k] == (#[trigger] a@[k])@,
            forall|k: int| 0 <= k < i ==> episode_card_from(#[trigger] out@[start + k], json_seq_view(a@)[k]),
        decreases a@.len() - i,
    {
        assert(json_seq_view(a@)[i as int] == a@[i as int]@);
        let c = Some(&a[i]);
        out.push(RaiEpisodeCard {
            episode: text_in(member(c, "episode")),
            episode_title: text_in(member(c, "episode_title")),
            name: text_in(member(c, "name")),
            toptitle: text_in(member(c, "toptitle")),
            duration_in_minutes: text_in(member(c, "duration_in_minutes")),
            duration: text_in(member(c, "duration")),
            weblink: text_in(member(c, "weblink")),
            url: text_in(member(c, "url")),
        });
        assert forall|k: int| 0 <= k < i + 1 implies episode_card_from(
            #[trigger] out@[start + k],
            json_seq_view(a@)[k],
        ) by {}
        i = i + 1;
    }
}

/// Episode cards read one for one.
pub open spec fn cards_read(v: Seq<RaiEpisodeCard>, js: Seq<JsonV>) -> bool {
    v.len() == js.len() && forall|k: int| 0 <= k < js.len() ==> episode_card_from(#[trigger] v[k], js[k])
}

proof fn lemma_cards_extend(v: Seq<RaiEpisodeCard>, w: Seq<RaiEpisodeCard>, js: Seq<JsonV>, more: Seq<JsonV>)
    requires
        cards_read(v, js),
        w.len() == v.len() + more.len(),
        forall|k: int| 0 <= k < v.len() ==> w[k] == v[k],
        forall|k: int| 0 <= k < more.len() ==> episode_card_from(#[trigger] w[v.len() + k], more[k]),
    ensures
        cards_read(w, js + more),
{
    assert forall|k: int| 0 <= k < (js + more).len() implies episode_card_from(#[trigger] w[k], (js + more)[k]) by {
        if k >= v.len() {
            assert(w[v.len() + (k - v.len())] == w[k]);
        }
    }
}

/// The episode cards of a season reply: those of its seasons' episodes
/// when it lists seasons, else its own cards.
pub fn episode_cards(reply: &Json) -> (r: Vec<RaiEpisodeCard>)
    ensures
        cards_read(r@, reply_cards(reply@)),
{
    let mut out: Vec<RaiEpisodeCard> = Vec::new();
    let seasons = match array_in(member(Some(reply), "seasons")) {
        Some(ss) => ss,
        None => {
            let cards_o = member(Some(reply), "cards");
            push_cards(&mut out, cards_o);
            let ghost cs = items_at(opt_view(cards_o));
            assert forall|k: int| 0 <= k < cs.len() implies episode_card_from(#[trigger] out@[k], cs[k]) by {
                assert(out@[0 + k] == out@[k]);
            }
            assert(cards_read(out@, reply_cards(reply@)));
            return out;
        },
    };
    proof {
        lemma_json_seq_view(seasons@);
    }
    let ghost ss = json_seq_view(seasons@);
    assert(ss.take(0) =~= Seq::<JsonV>::empty());
    let mut i: usize = 0;
    while i < seasons.len()
        invariant
            i <= seasons@.len(),
            ss == json_seq_view(seasons@),
            ss.len() == seasons@.len(),
            forall|k: int| 0 <= k < seasons@.len() ==> ss[k] == (#[trigger] seasons@[k])@,
            cards_read(out@, cards_of_seasons(ss.take(i as int))),
        decreases seasons@.len() - i,
    {
        let eps_o = member(Some(&seasons[i]), "episodes");
        let ghost eps = items_at(opt_view(eps_o));
        assert(ss[i as int] == seasons@[i as int]@);
        let ghost before_season = out@;
        let ghost js_before = cards_of_seasons(ss.take(i as int));
        match array_in(eps_o) {
            Some(eps_v) => {
                proof {
                    lemma_json_seq_view(eps_v@);
                }
                assert(eps == json_seq_view(eps_v@));
                assert(eps.take(0) =~= Seq::<JsonV>::empty());
                assert(js_before + cards_of_episodes(eps.take(0)) =~= js_before);
                let mut j: usize = 0;
                while j < eps_v.len()
                    invariant
                        j <= eps_v@.len(),
                        eps == json_seq_view(eps_v@),
                        eps.len() == eps_v@.len(),
                        forall|k: int| 0 <= k < eps_v@.len() ==> eps[k] == (#[trigger] eps_v@[k])@,
                        cards_read(out@, js_before + cards_of_episodes(eps.take(j as int))),
                    decreases eps_v@.len() - j,
                {
                    let ghost prev = out@;
                    let cards_o = member(Some(&eps_v[j]), "cards");
                    assert(eps[j as int] == eps_v@[j as int]@);
                    push_cards(&mut out, cards_o);
                    proof {
                        let more = items_at(opt_view(cards_o));
                        lemma_cards_extend(prev, out@, js_before + cards_of_episodes(eps.take(j as int)), more);
                        assert(eps.take(j + 1).drop_last() =~= eps.take(j as int));
                        assert(eps.take(j + 1).last() == eps[j as int]);
                        assert(js_before + cards_of_episodes(eps.take(j + 1)) =~= js_before
                            + cards_of_episodes(eps.take(j as int)) + more);
                    }
                    j = j + 1;
                }
                assert(eps.take(eps_v@.len() as int) =~= eps);
            },
            None => {
                assert(eps.len() == 0);
                assert(js_before + cards_of_episodes(eps) =~= js_before);
            },
        }
        assert(ss.take(i + 1).drop_last() =~= ss.take(i as int));
        assert(ss.take(i + 1).last() == ss[i as int]);
        i = i + 1;
    }
    assert(ss.take(seasons@.len() as int) =~= ss);
    out
}

/// The item path a programme's JSON names first, if any.
pub fn first_item_path(page: &Json) -> (r: Option<String>)
    ensures
        text_of(r) == text_at(field(Some(page@), "first_item_path"@)),
{
    text_in(member(Some(page), "first_item_path"))
}

/// The content address of a video item's JSON, if any.
pub fn video_content_url(item: &Json) -> (r: Option<String>)
    ensures
        text_of(r) == text_at(field(field(Some(item@), "video"@), "content_url"@)),
{
    text_in(member(member(Some(item), "video"), "content_url"))
}

} // verus!
