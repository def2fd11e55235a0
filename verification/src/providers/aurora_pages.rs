//! The Aurora sites' JSON replies, read into the item, card and block
//! records their catalogue, seasons and streams are built from.
use crate::json::{
    array_at, array_in, field, i64_at, i64_in, is_null_at, is_null_in, items_at, json_seq_view,
    lemma_json_seq_view, member, opt_view, text_at, text_in, u64_at, u64_in, Json, JsonV,
};
use crate::providers::aurora::{AuroraBlock, AuroraCard, AuroraId, AuroraItem, AuroraSearchItem};
use crate::providers::streaming_community::text_of;
use vstd::prelude::*;

verus! {

/// The id of a programme item: its text, else its unsigned or signed
/// number, else missing.
pub open spec fn id_from(id: AuroraId, j: Option<JsonV>) -> bool {
    match text_at(j) {
        Some(s) => id matches AuroraId::Text(t) && t@ == s,
        None => match u64_at(j) {
            Some(n) => id == AuroraId::Unsigned(n),
            None => match i64_at(j) {
                Some(n) => id == AuroraId::Signed(n),
                None => id is Missing,
            },
        },
    }
}

/// A member of a member.
pub open spec fn field2(j: JsonV, a: Seq<char>, b: Seq<char>) -> Option<JsonV> {
    field(field(Some(j), a), b)
}

/// A programme item read from its JSON object.
pub open spec fn item_from(it: AuroraItem, j: JsonV) -> bool {
    &&& id_from(it.id, field(Some(j), "id"@))
    &&& it.season_number == u64_at(field(Some(j), "seasonNumber"@))
    &&& it.episode_number == u64_at(field(Some(j), "episodeNumber"@))
    &&& text_of(it.title) == text_at(field(Some(j), "title"@))
    &&& it.has_channel == !is_null_at(field(Some(j), "channel"@))
    &&& it.video_duration == u64_at(field(Some(j), "videoDuration"@))
    &&& text_of(it.poster_src) == text_at(field2(j, "poster"@, "src"@))
    &&& text_of(it.image_src) == text_at(field2(j, "image"@, "src"@))
    &&& text_of(it.image_url) == text_at(field2(j, "image"@, "url"@))
}

/// A search result read from its JSON object.
pub open spec fn search_item_from(it: AuroraSearchItem, j: JsonV) -> bool {
    &&& text_of(it.kind) == text_at(field(Some(j), "type"@))
    &&& text_of(it.title) == text_at(field(Some(j), "title"@))
    &&& text_of(it.slug) == text_at(field(Some(j), "slug"@))
    &&& text_of(it.parent_slug) == text_at(field(Some(j), "parentSlug"@))
    &&& text_of(it.date_last_modified) == text_at(field(Some(j), "dateLastModified"@))
    &&& text_of(it.image_url) == text_at(field2(j, "image"@, "url"@))
}

/// A home page card read from its JSON object.
pub open spec fn card_from(c: AuroraCard, j: JsonV) -> bool {
    &&& text_of(c.page_type) == text_at(field(Some(j), "pageType"@))
    &&& text_of(c.title) == text_at(field(Some(j), "title"@))
    &&& text_of(c.url) == text_at(field(Some(j), "url"@))
    &&& text_of(c.parent_url) == text_at(field(Some(j), "parentUrl"@))
    &&& text_of(c.image_url) == text_at(field2(j, "image"@, "url"@))
    &&& text_of(c.description) == text_at(field(Some(j), "description"@))
}

/// Programme items read one for one.
pub open spec fn items_from(v: Seq<AuroraItem>, js: Seq<JsonV>) -> bool {
    v.len() == js.len() && forall|k: int| 0 <= k < js.len() ==> item_from(#[trigger] v[k], js[k])
}

/// Search results read one for one.
pub open spec fn search_items_from(v: Seq<AuroraSearchItem>, js: Seq<JsonV>) -> bool {
    v.len() == js.len() && forall|k: int| 0 <= k < js.len() ==> search_item_from(#[trigger] v[k], js[k])
}

/// Home page cards read one for one.
pub open spec fn cards_from(v: Seq<AuroraCard>, js: Seq<JsonV>) -> bool {
    v.len() == js.len() && forall|k: int| 0 <= k < js.len() ==> card_from(#[trigger] v[k], js[k])
}

/// A home page block read from its JSON object: its cards when its items
/// are a list.
pub open spec fn block_from(b: AuroraBlock, j: JsonV) -> bool {
    &&& text_of(b.kind) == text_at(field(Some(j), "type"@))
    &&& text_of(b.items_type) == text_at(field(Some(j), "itemsType"@))
    &&& match (b.items, array_at(field(Some(j), "items"@))) {
        (None, None) => true,
        (Some(v), Some(s)) => cards_from(v@, s),
        _ => false,
    }
}

fn aurora_item(j: &Json) -> (r: AuroraItem)
    ensures
        item_from(r, j@),
{
    let o = Some(j);
    let idv = member(o, "id");
    let id = match text_in(idv) {
        Some(s) => AuroraId::Text(s),
        None => match u64_in(idv) {
            Some(n) => AuroraId::Unsigned(n),
            None => match i64_in(idv) {
                Some(n) => AuroraId::Signed(n),
                None => AuroraId::Missing,
            },
        },
    };
    let poster = member(o, "poster");
    let image = member(o, "image");
    AuroraItem {
        id,
        season_number: u64_in(member(o, "seasonNumber")),
        episode_number: u64_in(member(o, "episodeNumber")),
        title: text_in(member(o, "title")),
        has_channel: !is_null_in(member(o, "channel")),
        video_duration: u64_in(member(o, "videoDuration")),
        poster_src: text_in(member(poster, "src")),
        image_src: text_in(member(image, "src")),
        image_url: text_in(member(image, "url")),
    }
}

/// The programme items of a value's items (none when it is not a list).
fn item_list(o: Option<&Json>) -> (r: Vec<AuroraItem>)
    ensures
        items_from(r@, items_at(opt_view(o))),
{
    let mut v: Vec<AuroraItem> = Vec::new();
    let a = match array_in(o) {
        Some(a) => a,
        None => return v,
    };
    proof {
        lemma_json_seq_view(a@);
    }
    let mut i: usize = 0;
    while i < a.len()
        invariant
            i <= a@.len(),
            v@.len() == i,
            json_seq_view(a@).len() == a@.len(),
            forall|k: int| 0 <= k < a@.len() ==> json_seq_view(a@)[k] == (#[trigger] a@[k])@,
            forall|k: int| 0 <= k < i ==> item_from(#[trigger] v@[k], json_seq_view(a@)[k]),
        decreases a@.len() - i,
    {
        assert(json_seq_view(a@)[i as int] == a@[i as int]@);
        v.push(aurora_item(&a[i]));
        i = i + 1;
    }
    v
}

/// The items of each block of a show page, when its blocks are a list.
pub fn show_blocks(page: &Json) -> (r: Option<Vec<Vec<AuroraItem>>>)
    ensures
        match array_at(field(Some(page@), "blocks"@)) {
            None => r is None,
            Some(bs) => r matches Some(v) && v@.len() == bs.len() && forall|k: int|
                0 <= k < bs.len() ==> items_from((#[trigger] v@[k])@, items_at(field(Some(bs[k]), "items"@))),
        },
{
    let a = match array_in(member(Some(page), "blocks")) {
        Some(a) => a,
        None => return None,
    };
    proof {
        lemma_json_seq_view(a@);
    }
    let mut v: Vec<Vec<AuroraItem>> = Vec::new();
    let mut i: usize = 0;
    while i < a.len()
        invariant
            i <= a@.len(),
            v@.len() == i,
            json_seq_view(a@).len() == a@.len(),
            forall|k: int| 0 <= k < a@.len() ==> json_seq_view(a@)[k] == (#[trigger] a@[k])@,
            forall|k: int|
                0 <= k < i ==> items_from((#[trigger] v@[k])@, items_at(field(Some(json_seq_view(a@)[k]), "items"@))),
        decreases a@.len() - i,
    {
        assert(json_seq_view(a@)[i as int] == a@[i as int]@);
        v.push(item_list(member(Some(&a[i]), "items")));
        i = i + 1;
    }
    Some(v)
}

/// The search results of a reply, when its data is a list.
pub fn search_items(reply: &Json) -> (r: Option<Vec<AuroraSearchItem>>)
    ensures
        match array_at(field(Some(reply@), "data"@)) {
            None => r is None,
            Some(s) => r matches Some(v) && search_items_from(v@, s),
        },
{
    let a = match array_in(member(Some(reply), "data")) {
        Some(a) => a,
        None => return None,
    };
    proof {
        lemma_json_seq_view(a@);
    }
    let mut v: Vec<AuroraSearchItem> = Vec::new();
    let mut i: usize = 0;
    while i < a.len()
        invariant
            i <= a@.len(),
            v@.len() == i,
            json_seq_view(a@).len() == a@.len(),
            forall|k: int| 0 <= k < a@.len() ==> json_seq_view(a@)[k] == (#[trigger] a@[k])@,
            forall|k: int| 0 <= k < i ==> search_item_from(#[trigger] v@[k], json_seq_view(a@)[k]),
        decreases a@.len() - i,
    {
        assert(json_seq_view(a@)[i as int] == a@[i as int]@);
        let o = Some(&a[i]);
        v.push(AuroraSearchItem {
            kind: text_in(member(o, "type")),
            title: text_in(member(o, "title")),
            slug: text_in(member(o, "slug")),
            parent_slug: text_in(member(o, "parentSlug")),
            date_last_modified: text_in(member(o, "dateLastModified")),
            image_url: text_in(member(member(o, "image"), "url")),
        });
        i = i + 1;
    }
    Some(v)
}

/// The cards of a value's items, when it is a list.
fn card_list(o: Option<&Json>) -> (r: Option<Vec<AuroraCard>>)
    ensures
        match array_at(opt_view(o)) {
            None => r is None,
            Some(s) => r matches Some(v) && cards_from(v@, s),
        },
{
    let a = match array_in(o) {
        Some(a) => a,
        None => return None,
    };
    proof {
        lemma_json_seq_view(a@);
    }
    let mut v: Vec<AuroraCard> = Vec::new();
    let mut i: usize = 0;
    while i < a.len()
        invariant
            i <= a@.len(),
            v@.len() == i,
            json_seq_view(a@).len() == a@.len(),
            forall|k: int| 0 <= k < a@.len() ==> json_seq_view(a@)[k] == (#[trigger] a@[k])@,
            forall|k: int| 0 <= k < i ==> card_from(#[trigger] v@[k], json_seq_view(a@)[k]),
        decreases a@.len() - i,
    {
        assert(json_seq_view(a@)[i as int] == a@[i as int]@);
        let c = Some(&a[i]);
        v.push(AuroraCard {
            page_type: text_in(member(c, "pageType")),
            title: text_in(member(c, "title")),
            url: text_in(member(c, "url")),
            parent_url: text_in(member(c, "parentUrl")),
            image_url: text_in(member(member(c, "image"), "url")),
            description: text_in(member(c, "description")),
        });
        i = i + 1;
    }
    Some(v)
}

/// The blocks of a home page (none when they are not a list).
pub fn home_blocks(page: &Json) -> (r: Vec<AuroraBlock>)
    ensures
        ({
            let bs = items_at(field(Some(page@), "blocks"@));
            r@.len() == bs.len() && forall|k: int| 0 <= k < bs.len() ==> block_from(#[trigger] r@[k], bs[k])
        }),
{
    let mut v: Vec<AuroraBlock> = Vec::new();
    let a = match array_in(member(Some(page), "blocks")) {
        Some(a) => a,
        None => return v,
    };
    proof {
        lemma_json_seq_view(a@);
    }
    let mut i: usize = 0;
    while i < a.len()
        invariant
            i <= a@.len(),
            v@.len() == i,
            json_seq_view(a@).len() == a@.len(),
            forall|k: int| 0 <= k < a@.len() ==> json_seq_view(a@)[k] == (#[trigger] a@[k])@,
            forall|k: int| 0 <= k < i ==> block_from(#[trigger] v@[k], json_seq_view(a@)[k]),
        decreases a@.len() - i,
    {
        assert(json_seq_view(a@)[i as int] == a@[i as int]@);
        let b = Some(&a[i]);
        v.push(AuroraBlock {
            kind: text_in(member(b, "type")),
            items_type: text_in(member(b, "itemsType")),
            items: card_list(member(b, "items")),
        });
        i = i + 1;
    }
    v
}

/// The address of the first stream of a playback reply.
pub open spec fn first_stream_of(reply: JsonV) -> Option<Seq<char>> {
    match array_at(field(field2(reply, "data"@, "attributes"@), "streaming"@)) {
        Some(s) => if s.len() > 0 {
            text_at(field(Some(s[0]), "url"@))
        } else {
            None
        },
        None => None,
    }
}

/// The address of the first stream of a playback reply.
pub fn first_stream(reply: &Json) -> (r: Option<String>)
    ensures
        text_of(r) == first_stream_of(reply@),
{
    let attrs = member(member(Some(reply), "data"), "attributes");
    let a = match array_in(member(attrs, "streaming")) {
        Some(a) => a,
        None => return None,
    };
    proof {
        lemma_json_seq_view(a@);
    }
    if a.len() == 0 {
        return None;
    }
    text_in(member(Some(&a[0]), "url"))
}

/// The realm tokens of a tokens reply: the Italian one and the dplay one.
pub fn realm_tokens(reply: &Json) -> (r: (Option<String>, Option<String>))
    ensures
        text_of(r.0) == text_at(field(field2(reply@, "userMeta"@, "realm"@), "X-REALM-IT"@)),
        text_of(r.1) == text_at(field(field2(reply@, "userMeta"@, "realm"@), "X-REALM-DPLAY"@)),
{
    let realm = member(member(Some(reply), "userMeta"), "realm");
    (text_in(member(realm, "X-REALM-IT")), text_in(member(realm, "X-REALM-DPLAY")))
}

} // verus!
