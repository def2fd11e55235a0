//! Synchronisation of the "continue watching" list and the player
//! preferences with a remote document: three-way merges against the last
//! synchronised state, decided by per-record change stamps.
use crate::config::{
    config_dir_text, default_prefs, item_view_eq, key_of, prefs_view_eq, unique_keys, AppConfig, ItemView, PlayerPrefs,
    PrefsView, WatchItem,
};
use crate::order::{sort_by_weight_desc, stably_sorted_desc};
use crate::text::{path_join, chars_of, decimal, decimal_chars, extend_chars, first_n, string_of, trim_chars, trimmed};
use vstd::prelude::*;

verus! {

/// At most this many records are kept in the synchronised list.
pub const MAX_ITEMS: usize = 100;

/// Where and whether to synchronise.
#[derive(Debug, Clone)]
pub struct SyncConfig {
    pub enabled: bool,
    pub endpoint: String,
    pub token: String,
}

impl SyncConfig {
    /// Synchronisation runs only when it is enabled and both the endpoint
    /// and the token are more than whitespace.
    pub fn is_usable(&self) -> (r: bool)
        ensures
            r == (self.enabled && trimmed(self.endpoint@).len() > 0 && trimmed(self.token@).len()
                > 0),
    {
        if !self.enabled {
            return false;
        }
        let e = trim_chars(&chars_of(self.endpoint.as_str()));
        let t = trim_chars(&chars_of(self.token.as_str()));
        e.len() > 0 && t.len() > 0
    }
}

/// The remote document: a revision number, the list, when each record was
/// last changed (by title), and the preferences with when they changed.
#[derive(Debug, Clone)]
pub struct SyncDoc {
    pub rev: u64,
    pub prefs_updated_at: u64,
    pub watch: Vec<WatchItem>,
    pub stamps: Vec<((usize, u64), u64)>,
    pub prefs: Option<PlayerPrefs>,
}

impl SyncDoc {
    /// The document of a store that was never synchronised.
    pub fn fresh() -> (r: SyncDoc)
        ensures
            r.rev == 0,
            r.prefs_updated_at == 0,
            r.watch@.len() == 0,
            r.stamps@.len() == 0,
            r.prefs is None,
    {
        SyncDoc { rev: 0, prefs_updated_at: 0, watch: Vec::new(), stamps: Vec::new(), prefs: None }
    }
}

/// The file that keeps the last synchronised document and the pending
/// local changes.
pub fn snapshot_path() -> (r: String)
    ensures
        exists|found: Option<Seq<char>>| r@ == path_join(#[trigger] config_dir_text(found), "sync_snapshot.json"@),
{
    AppConfig::config_file("sync_snapshot.json")
}

/// What a round merged into the local files: the list and the preferences
/// as they were written.
#[derive(Debug, Clone)]
pub struct MergedState {
    pub watch: Vec<WatchItem>,
    pub prefs: PlayerPrefs,
}

/// The local files as they were read: the list, the preferences, when each
/// file was last modified, and whether one of them was missing.
#[derive(Debug, Clone)]
pub struct LocalState {
    pub watch: Vec<WatchItem>,
    pub prefs: PlayerPrefs,
    pub watch_mtime: u64,
    pub prefs_mtime: u64,
    pub missing: bool,
}

/// The key under which a title's stamp is stored remotely:
/// `provider:id`.
pub open spec fn item_key_text(k: (usize, u64)) -> Seq<char> {
    decimal(k.0 as nat) + seq![':'] + decimal(k.1 as nat)
}

/// The remote key of a record's title.
pub fn item_key(i: &WatchItem) -> (r: String)
    ensures
        r@ == item_key_text(key_of(*i)),
{
    let mut v = decimal_chars(i.entry.provider as u64);
    v.push(':');
    let id = decimal_chars(i.entry.id);
    extend_chars(&mut v, &id);
    string_of(&v)
}

/// Stamps by title; where a title occurs twice the later entry counts.
pub open spec fn stamp_map(s: Seq<((usize, u64), u64)>) -> Map<(usize, u64), u64>
    decreases s.len(),
{
    if s.len() == 0 {
        Map::empty()
    } else {
        stamp_map(s.drop_last()).insert(s.last().0, s.last().1)
    }
}

/// The stamp of a title, 0 when it has none.
pub open spec fn stamp_or_zero(m: Map<(usize, u64), u64>, k: (usize, u64)) -> u64 {
    if m.contains_key(k) {
        m[k]
    } else {
        0
    }
}

/// Looks up the stamp of a title (0 when it has none).
pub fn stamp_lookup(s: &Vec<((usize, u64), u64)>, k: (usize, u64)) -> (r: u64)
    ensures
        r == stamp_or_zero(stamp_map(s@), k),
{
    let mut r: u64 = 0;
    let mut i: usize = 0;
    while i < s.len()
        invariant
            i <= s@.len(),
            r == stamp_or_zero(stamp_map(s@.take(i as int)), k),
        decreases s@.len() - i,
    {
        assert(s@.take(i + 1).drop_last() =~= s@.take(i as int));
        let (key, stamp) = s[i];
        if key.0 == k.0 && key.1 == k.1 {
            r = stamp;
        }
        i = i + 1;
    }
    assert(s@.take(s@.len() as int) =~= s@);
    r
}

/// The last index holding a record of the title (a map built from the
/// list keeps the last record of each title).
pub open spec fn last_with_key(s: Seq<WatchItem>, k: (usize, u64)) -> Option<int>
    decreases s.len(),
{
    if s.len() == 0 {
        None
    } else if key_of(s.last()) == k {
        Some(s.len() - 1)
    } else {
        last_with_key(s.drop_last(), k)
    }
}

proof fn lemma_last_with_key(s: Seq<WatchItem>, k: (usize, u64))
    ensures
        match last_with_key(s, k) {
            Some(i) => 0 <= i < s.len() && key_of(s[i]) == k,
            None => forall|j: int| 0 <= j < s.len() ==> key_of(#[trigger] s[j]) != k,
        },
    decreases s.len(),
{
    if s.len() > 0 && key_of(s.last()) != k {
        lemma_last_with_key(s.drop_last(), k);
        if last_with_key(s, k) is None {
            assert forall|j: int| 0 <= j < s.len() implies key_of(#[trigger] s[j]) != k by {
                if j < s.len() - 1 {
                    assert(s[j] == s.drop_last()[j]);
                }
            }
        }
    }
}

/// The last index of a record of the title, if any.
pub fn last_index_with_key(s: &Vec<WatchItem>, k: (usize, u64)) -> (r: Option<usize>)
    ensures
        match r {
            Some(i) => i < s@.len() && last_with_key(s@, k) == Some(i as int),
            None => last_with_key(s@, k) is None,
        },
{
    let mut r: Option<usize> = None;
    let mut i: usize = 0;
    while i < s.len()
        invariant
            i <= s@.len(),
            match r {
                Some(x) => x < i && last_with_key(s@.take(i as int), k) == Some(x as int),
                None => last_with_key(s@.take(i as int), k) is None,
            },
        decreases s@.len() - i,
    {
        assert(s@.take(i + 1).drop_last() =~= s@.take(i as int));
        if s[i].entry.provider == k.0 && s[i].entry.id == k.1 {
            r = Some(i);
        }
        i = i + 1;
    }
    assert(s@.take(s@.len() as int) =~= s@);
    r
}

/// Preferences are held and equal to `v`.
pub open spec fn prefs_match(p: Option<PlayerPrefs>, v: PrefsView) -> bool {
    match p {
        Some(x) => prefs_view_eq(x@, v),
        None => false,
    }
}

/// The preferences held, or the defaults.
pub open spec fn prefs_or_default(p: Option<PlayerPrefs>) -> PrefsView {
    match p {
        Some(x) => x@,
        None => default_prefs(),
    }
}

/// When the local preferences last changed: the base's time when they are
/// what was last synchronised; 0 against a store never synchronised; else
/// when the preferences file was last modified.
pub open spec fn prefs_stamp(base: SyncDoc, local: LocalState) -> u64 {
    if prefs_match(base.prefs, local.prefs@) {
        base.prefs_updated_at
    } else if base.rev == 0 {
        0
    } else {
        local.prefs_mtime
    }
}

/// Stamps the local preferences.
pub fn local_prefs_stamp(base: &SyncDoc, local: &LocalState) -> (r: u64)
    ensures
        r == prefs_stamp(*base, *local),
{
    let same = match &base.prefs {
        Some(p) => p.same_as(&local.prefs),
        None => false,
    };
    if same {
        base.prefs_updated_at
    } else if base.rev == 0 {
        0
    } else {
        local.prefs_mtime
    }
}

/// The merged preferences and their stamp: a side that changed since the
/// base wins over one that did not; when both changed the remote wins only
/// if it is strictly newer; when neither changed the local ones stay.
pub open spec fn prefs_merge(base: SyncDoc, local: PrefsView, local_stamp: u64, remote: SyncDoc) -> (
    PrefsView,
    u64,
) {
    let local_changed = !prefs_match(base.prefs, local);
    let remote_changed = remote.prefs_updated_at > base.prefs_updated_at || !prefs_view_eq(
        prefs_or_default(remote.prefs),
        prefs_or_default(base.prefs),
    );
    if local_changed && remote_changed {
        if remote.prefs_updated_at > local_stamp {
            (prefs_or_default(remote.prefs), remote.prefs_updated_at)
        } else {
            (local, local_stamp)
        }
    } else if local_changed {
        (
            local,
            if local_stamp >= base.prefs_updated_at {
                local_stamp
            } else {
                base.prefs_updated_at
            },
        )
    } else if remote_changed {
        (prefs_or_default(remote.prefs), remote.prefs_updated_at)
    } else {
        (local, base.prefs_updated_at)
    }
}

/// The held preferences, or the defaults, as a value.
fn prefs_or_default_exec(p: &Option<PlayerPrefs>) -> (r: PlayerPrefs)
    ensures
        r@ == prefs_or_default(*p),
{
    match p {
        Some(x) => x.duplicate(),
        None => PlayerPrefs::default(),
    }
}

/// Merges the preferences three ways.
pub fn merge_prefs(base: &SyncDoc, local: &PlayerPrefs, local_stamp: u64, remote: &SyncDoc) -> (r: (
    PlayerPrefs,
    u64,
))
    ensures
        (r.0@, r.1) == prefs_merge(*base, local@, local_stamp, *remote),
{
    let base_prefs = prefs_or_default_exec(&base.prefs);
    let remote_prefs = prefs_or_default_exec(&remote.prefs);
    let local_changed = match &base.prefs {
        Some(p) => !p.same_as(local),
        None => true,
    };
    let remote_changed = remote.prefs_updated_at > base.prefs_updated_at || !remote_prefs.same_as(
        &base_prefs,
    );
    if local_changed && remote_changed {
        if remote.prefs_updated_at > local_stamp {
            (remote_prefs, remote.prefs_updated_at)
        } else {
            (local.duplicate(), local_stamp)
        }
    } else if local_changed {
        let s = if local_stamp >= base.prefs_updated_at {
            local_stamp
        } else {
            base.prefs_updated_at
        };
        (local.duplicate(), s)
    } else if remote_changed {
        (remote_prefs, remote.prefs_updated_at)
    } else {
        (local.duplicate(), base.prefs_updated_at)
    }
}

/// The titles, each once, in the order they first occur.
pub open spec fn distinct_keys(ks: Seq<(usize, u64)>) -> Seq<(usize, u64)>
    decreases ks.len(),
{
    if ks.len() == 0 {
        Seq::empty()
    } else {
        let r = distinct_keys(ks.drop_last());
        if r.contains(ks.last()) {
            r
        } else {
            r.push(ks.last())
        }
    }
}

/// The titles of the records.
pub open spec fn keys_of(s: Seq<WatchItem>) -> Seq<(usize, u64)> {
    s.map_values(|i: WatchItem| key_of(i))
}

/// Every title of either list, once: the local titles in local order, then
/// the remote titles the local list lacks.
pub open spec fn merge_keys(local: Seq<WatchItem>, remote: Seq<WatchItem>) -> Seq<(usize, u64)> {
    distinct_keys(keys_of(local + remote))
}

/// Which record a title keeps in the merged list, and its stamp: the
/// record is named by its list (`true` for the remote one) and its index.
/// A title on both sides keeps the remote record only when its stamp is
/// strictly newer; a title on one side only survives when the base did not
/// have it or its stamp is newer than the base's (else it was deleted on
/// the other side).
pub open spec fn pick(
    base: SyncDoc,
    local: Seq<WatchItem>,
    ls: Map<(usize, u64), u64>,
    remote: SyncDoc,
    k: (usize, u64),
) -> Option<((bool, usize), u64)> {
    let lst = stamp_or_zero(ls, k);
    let rst = stamp_or_zero(stamp_map(remote.stamps@), k);
    let in_base = last_with_key(base.watch@, k) is Some;
    let bst = stamp_or_zero(stamp_map(base.stamps@), k);
    match (last_with_key(local, k), last_with_key(remote.watch@, k)) {
        (Some(li), Some(ri)) => if rst > lst {
            Some(((true, ri as usize), rst))
        } else {
            Some(((false, li as usize), lst))
        },
        (Some(li), None) => if !in_base || lst > bst {
            Some(((false, li as usize), lst))
        } else {
            None
        },
        (None, Some(ri)) => if !in_base || rst > bst {
            Some(((true, ri as usize), rst))
        } else {
            None
        },
        (None, None) => None,
    }
}

/// The records kept, title by title, in title order.
pub open spec fn candidates_of(
    ks: Seq<(usize, u64)>,
    base: SyncDoc,
    local: Seq<WatchItem>,
    ls: Map<(usize, u64), u64>,
    remote: SyncDoc,
) -> Seq<((bool, usize), u64)>
    decreases ks.len(),
{
    if ks.len() == 0 {
        Seq::empty()
    } else {
        let rest = candidates_of(ks.drop_last(), base, local, ls, remote);
        match pick(base, local, ls, remote, ks.last()) {
            Some(c) => rest.push(c),
            None => rest,
        }
    }
}

/// The records the merge keeps, before ordering.
pub open spec fn merge_candidates(
    base: SyncDoc,
    local: Seq<WatchItem>,
    ls: Map<(usize, u64), u64>,
    remote: SyncDoc,
) -> Seq<((bool, usize), u64)> {
    candidates_of(merge_keys(local, remote.watch@), base, local, ls, remote)
}

/// The record a source names.
pub open spec fn source_item(local: Seq<WatchItem>, remote: Seq<WatchItem>, src: (bool, usize)) -> WatchItem {
    if src.0 {
        remote[src.1 as int]
    } else {
        local[src.1 as int]
    }
}

/// `items` copies the chosen records and `stamps` pairs each with its title
/// and stamp.
pub open spec fn merged_from(
    items: Seq<WatchItem>,
    stamps: Seq<((usize, u64), u64)>,
    chosen: Seq<((bool, usize), u64)>,
    local: Seq<WatchItem>,
    remote: Seq<WatchItem>,
) -> bool {
    &&& items.len() == chosen.len()
    &&& stamps.len() == chosen.len()
    &&& forall|i: int|
        0 <= i < chosen.len() ==> (#[trigger] items[i])@ == source_item(local, remote, chosen[i].0)@
            && stamps[i] == (key_of(items[i]), chosen[i].1)
}

/// `items` and `stamps` are the merge of `local` (stamped by `ls`) and
/// `remote` against `base`: the kept records, newest first (equal stamps in
/// title order), at most `MAX_ITEMS` of them.
pub open spec fn is_merge_of(
    base: SyncDoc,
    local: Seq<WatchItem>,
    ls: Map<(usize, u64), u64>,
    remote: SyncDoc,
    items: Seq<WatchItem>,
    stamps: Seq<((usize, u64), u64)>,
) -> bool {
    exists|sorted: Seq<((bool, usize), u64)>, p: Seq<int>|
        #![trigger stably_sorted_desc(sorted, merge_candidates(base, local, ls, remote), p)]
        stably_sorted_desc(sorted, merge_candidates(base, local, ls, remote), p) && merged_from(
            items,
            stamps,
            first_n(sorted, MAX_ITEMS as nat),
            local,
            remote.watch@,
        )
}

/// Whether a title is among the keys.
fn has_key(ks: &Vec<(usize, u64)>, k: (usize, u64)) -> (r: bool)
    ensures
        r == ks@.contains(k),
{
    let mut i: usize = 0;
    while i < ks.len()
        invariant
            i <= ks@.len(),
            forall|j: int| 0 <= j < i ==> ks@[j] != k,
        decreases ks@.len() - i,
    {
        let (a, b) = ks[i];
        if a == k.0 && b == k.1 {
            assert(ks@[i as int] == k);
            return true;
        }
        i = i + 1;
    }
    false
}

/// Every title of either list, once, in order of first occurrence.
fn merged_titles(local: &Vec<WatchItem>, remote: &Vec<WatchItem>) -> (r: Vec<(usize, u64)>)
    ensures
        r@ == merge_keys(local@, remote@),
{
    let ghost all = keys_of(local@ + remote@);
    let mut ks: Vec<(usize, u64)> = Vec::new();
    let n = local.len();
    let m = remote.len();
    let mut i: usize = 0;
    while i < n
        invariant
            n == local@.len(),
            i <= n,
            all == keys_of(local@ + remote@),
            ks@ == distinct_keys(all.take(i as int)),
        decreases n - i,
    {
        let k = (local[i].entry.provider, local[i].entry.id);
        assert(all[i as int] == k);
        assert(all.take(i + 1).drop_last() =~= all.take(i as int));
        if !has_key(&ks, k) {
            ks.push(k);
        }
        i = i + 1;
    }
    let mut j: usize = 0;
    while j < m
        invariant
            n == local@.len(),
            m == remote@.len(),
            j <= m,
            all == keys_of(local@ + remote@),
            ks@ == distinct_keys(all.take(n + j)),
        decreases m - j,
    {
        let k = (remote[j].entry.provider, remote[j].entry.id);
        assert(all[n + j] == k);
        assert(all.take(n + j + 1).drop_last() =~= all.take(n + j));
        if !has_key(&ks, k) {
            ks.push(k);
        }
        j = j + 1;
    }
    assert(all.take(n + m) =~= all);
    ks
}

/// Which record a title keeps, and its stamp.
fn pick_exec(
    base: &SyncDoc,
    local: &Vec<WatchItem>,
    local_stamps: &Vec<((usize, u64), u64)>,
    remote: &SyncDoc,
    k: (usize, u64),
) -> (r: Option<((bool, usize), u64)>)
    ensures
        r == pick(*base, local@, stamp_map(local_stamps@), *remote, k),
{
    let lst = stamp_lookup(local_stamps, k);
    let rst = stamp_lookup(&remote.stamps, k);
    let in_base = last_index_with_key(&base.watch, k).is_some();
    let bst = stamp_lookup(&base.stamps, k);
    match (last_index_with_key(local, k), last_index_with_key(&remote.watch, k)) {
        (Some(li), Some(ri)) => if rst > lst {
            Some(((true, ri), rst))
        } else {
            Some(((false, li), lst))
        },
        (Some(li), None) => if !in_base || lst > bst {
            Some(((false, li), lst))
        } else {
            None
        },
        (None, Some(ri)) => if !in_base || rst > bst {
            Some(((true, ri), rst))
        } else {
            None
        },
        (None, None) => None,
    }
}

/// Merges the local list (stamped by `local_stamps`) with the remote one,
/// three ways against `base`; gives the merged list and its stamps.
pub fn merge_watch(
    base: &SyncDoc,
    local: &Vec<WatchItem>,
    local_stamps: &Vec<((usize, u64), u64)>,
    remote: &SyncDoc,
) -> (r: (Vec<WatchItem>, Vec<((usize, u64), u64)>))
    ensures
        is_merge_of(*base, local@, stamp_map(local_stamps@), *remote, r.0@, r.1@),
{
    let ghost ls = stamp_map(local_stamps@);
    let ks = merged_titles(local, &remote.watch);
    let mut cands: Vec<((bool, usize), u64)> = Vec::new();
    let mut j: usize = 0;
    while j < ks.len()
        invariant
            j <= ks@.len(),
            ks@ == merge_keys(local@, remote.watch@),
            ls == stamp_map(local_stamps@),
            cands@ == candidates_of(ks@.take(j as int), *base, local@, ls, *remote),
        decreases ks@.len() - j,
    {
        assert(ks@.take(j + 1).drop_last() =~= ks@.take(j as int));
        match pick_exec(base, local, local_stamps, remote, ks[j]) {
            Some(c) => cands.push(c),
            None => {},
        }
        j = j + 1;
    }
    assert(ks@.take(ks@.len() as int) =~= ks@);
    let ghost all = cands@;
    let sorted = sort_by_weight_desc(cands);
    let ghost p = choose|p: Seq<int>| stably_sorted_desc(sorted@, all, p);
    let n = if sorted.len() > MAX_ITEMS {
        MAX_ITEMS
    } else {
        sorted.len()
    };
    let ghost chosen = first_n(sorted@, MAX_ITEMS as nat);
    assert(chosen =~= sorted@.take(n as int));
    let mut items: Vec<WatchItem> = Vec::new();
    let mut stamps: Vec<((usize, u64), u64)> = Vec::new();
    let mut i: usize = 0;
    assert(local@.len() == local.len());
    while i < n
        invariant
            n <= sorted@.len(),
            ks@ == merge_keys(local@, remote.watch@),
            local@.len() <= usize::MAX,
            stably_sorted_desc(sorted@, all, p),
            all == merge_candidates(*base, local@, ls, *remote),
            chosen =~= sorted@.take(n as int),
            i <= n,
            merged_from(items@, stamps@, chosen.take(i as int), local@, remote.watch@),
        decreases n - i,
    {
        let ((from_remote, idx), st) = sorted[i];
        proof {
            lemma_candidate_source(ks@, *base, local@, ls, *remote, p[i as int]);
        }
        let it = if from_remote {
            remote.watch[idx].duplicate()
        } else {
            local[idx].duplicate()
        };
        let k = (it.entry.provider, it.entry.id);
        items.push(it);
        stamps.push((k, st));
        i = i + 1;
    }
    assert(chosen.take(n as int) =~= chosen);
    (items, stamps)
}

/// Every kept record names a real record of its list.
proof fn lemma_candidate_source(
    ks: Seq<(usize, u64)>,
    base: SyncDoc,
    local: Seq<WatchItem>,
    ls: Map<(usize, u64), u64>,
    remote: SyncDoc,
    i: int,
)
    requires
        ks == merge_keys(local, remote.watch@),
        local.len() <= usize::MAX,
        0 <= i < merge_candidates(base, local, ls, remote).len(),
    ensures
        ({
            let c = merge_candidates(base, local, ls, remote)[i];
            if c.0.0 {
                c.0.1 < remote.watch@.len()
            } else {
                c.0.1 < local.len()
            }
        }),
{
    lemma_candidates_valid(ks, base, local, ls, remote);
}

/// The kept records name real records, each of the title it was kept for,
/// and the titles are all different.
proof fn lemma_candidates_valid(
    ks: Seq<(usize, u64)>,
    base: SyncDoc,
    local: Seq<WatchItem>,
    ls: Map<(usize, u64), u64>,
    remote: SyncDoc,
)
    requires
        local.len() <= usize::MAX,
    ensures
        forall|i: int|
            0 <= i < candidates_of(ks, base, local, ls, remote).len() ==> {
                let c = #[trigger] candidates_of(ks, base, local, ls, remote)[i];
                &&& if c.0.0 {
                    c.0.1 < remote.watch@.len()
                } else {
                    c.0.1 < local.len()
                }
                &&& ks.contains(key_of(source_item(local, remote.watch@, c.0)))
            },
    decreases ks.len(),
{
    if ks.len() > 0 {
        let k = ks.last();
        lemma_candidates_valid(ks.drop_last(), base, local, ls, remote);
        lemma_last_with_key(local, k);
        lemma_last_with_key(remote.watch@, k);
        assert(remote.watch.len() == remote.watch@.len());
        let rest = candidates_of(ks.drop_last(), base, local, ls, remote);
        let all = candidates_of(ks, base, local, ls, remote);
        assert forall|i: int| 0 <= i < all.len() implies {
            let c = #[trigger] all[i];
            &&& if c.0.0 {
                c.0.1 < remote.watch@.len()
            } else {
                c.0.1 < local.len()
            }
            &&& ks.contains(key_of(source_item(local, remote.watch@, c.0)))
        } by {
            if i < rest.len() {
                assert(all[i] == rest[i]);
                let c = rest[i];
                let kk = key_of(source_item(local, remote.watch@, c.0));
                assert(ks.drop_last().contains(kk));
                let w = choose|w: int| 0 <= w < ks.drop_last().len() && ks.drop_last()[w] == kk;
                assert(ks[w] == kk);
            } else {
                assert(ks[ks.len() - 1] == k);
                assert(ks.contains(k));
            }
        }
    }
}

/// No title occurs twice.
pub open spec fn no_dup_keys(ks: Seq<(usize, u64)>) -> bool {
    forall|a: int, b: int| 0 <= a < b < ks.len() ==> ks[a] != ks[b]
}

proof fn lemma_distinct_keys(ks: Seq<(usize, u64)>)
    ensures
        no_dup_keys(distinct_keys(ks)),
    decreases ks.len(),
{
    if ks.len() > 0 {
        lemma_distinct_keys(ks.drop_last());
        let r = distinct_keys(ks.drop_last());
        if !r.contains(ks.last()) {
            let q = r.push(ks.last());
            assert forall|a: int, b: int| 0 <= a < b < q.len() implies q[a] != q[b] by {
                if b == q.len() - 1 {
                    assert(q[a] == r[a]);
                    if q[a] == q[b] {
                        assert(r.contains(ks.last()));
                    }
                } else {
                    assert(q[a] == r[a] && q[b] == r[b]);
                }
            }
        }
    }
}

/// Records kept for different titles have different titles.
proof fn lemma_candidates_distinct(
    ks: Seq<(usize, u64)>,
    base: SyncDoc,
    local: Seq<WatchItem>,
    ls: Map<(usize, u64), u64>,
    remote: SyncDoc,
)
    requires
        no_dup_keys(ks),
        local.len() <= usize::MAX,
    ensures
        forall|a: int, b: int|
            0 <= a < b < candidates_of(ks, base, local, ls, remote).len() ==> key_of(
                source_item(local, remote.watch@, (#[trigger] candidates_of(ks, base, local, ls, remote)[a]).0),
            ) != key_of(
                source_item(local, remote.watch@, (#[trigger] candidates_of(ks, base, local, ls, remote)[b]).0),
            ),
    decreases ks.len(),
{
    if ks.len() > 0 {
        let k = ks.last();
        let d = ks.drop_last();
        assert(no_dup_keys(d)) by {
            assert forall|a: int, b: int| 0 <= a < b < d.len() implies d[a] != d[b] by {
                assert(d[a] == ks[a] && d[b] == ks[b]);
            }
        }
        lemma_candidates_distinct(d, base, local, ls, remote);
        lemma_candidates_valid(d, base, local, ls, remote);
        lemma_last_with_key(local, k);
        lemma_last_with_key(remote.watch@, k);
        assert(remote.watch.len() == remote.watch@.len());
        let rest = candidates_of(d, base, local, ls, remote);
        let all = candidates_of(ks, base, local, ls, remote);
        if all.len() > rest.len() {
            let c = all[all.len() - 1];
            assert(key_of(source_item(local, remote.watch@, c.0)) == k);
            assert forall|a: int| 0 <= a < rest.len() implies key_of(
                source_item(local, remote.watch@, (#[trigger] rest[a]).0),
            ) != k by {
                let kk = key_of(source_item(local, remote.watch@, rest[a].0));
                assert(d.contains(kk));
                let w = choose|w: int| 0 <= w < d.len() && d[w] == kk;
                assert(ks[w] == kk);
                assert(ks[ks.len() - 1] == k);
            }
        }
        assert forall|a: int, b: int| 0 <= a < b < all.len() implies key_of(
            source_item(local, remote.watch@, (#[trigger] all[a]).0),
        ) != key_of(source_item(local, remote.watch@, (#[trigger] all[b]).0)) by {
            assert(all[a] == rest[a]);
            if b < rest.len() {
                assert(all[b] == rest[b]);
            }
        }
    }
}

/// The merged list holds at most `MAX_ITEMS` records, one stamp each.
pub proof fn law_merge_capped(
    base: SyncDoc,
    local: Seq<WatchItem>,
    ls: Map<(usize, u64), u64>,
    remote: SyncDoc,
    items: Seq<WatchItem>,
    stamps: Seq<((usize, u64), u64)>,
)
    requires
        is_merge_of(base, local, ls, remote, items, stamps),
    ensures
        items.len() <= MAX_ITEMS,
        stamps.len() == items.len(),
{
}

/// The merged list is ordered most recently changed first, and each stamp
/// belongs to the record beside it.
pub proof fn law_merge_most_recent_first(
    base: SyncDoc,
    local: Seq<WatchItem>,
    ls: Map<(usize, u64), u64>,
    remote: SyncDoc,
    items: Seq<WatchItem>,
    stamps: Seq<((usize, u64), u64)>,
)
    requires
        is_merge_of(base, local, ls, remote, items, stamps),
    ensures
        forall|i: int, j: int| 0 <= i < j < stamps.len() ==> (#[trigger] stamps[i]).1 >= (#[trigger] stamps[j]).1,
        forall|i: int| 0 <= i < items.len() ==> (#[trigger] stamps[i]).0 == key_of(items[i]),
{
    let (sorted, p) = choose|sorted: Seq<((bool, usize), u64)>, p: Seq<int>|
        #![trigger stably_sorted_desc(sorted, merge_candidates(base, local, ls, remote), p)]
        stably_sorted_desc(sorted, merge_candidates(base, local, ls, remote), p) && merged_from(
            items,
            stamps,
            first_n(sorted, MAX_ITEMS as nat),
            local,
            remote.watch@,
        );
    let chosen = first_n(sorted, MAX_ITEMS as nat);
    assert forall|i: int, j: int| 0 <= i < j < stamps.len() implies (#[trigger] stamps[i]).1 >= (
    #[trigger] stamps[j]).1 by {
        assert(chosen[i] == sorted[i] && chosen[j] == sorted[j]);
        let _x = items[i];
        let _y = items[j];
        assert(stamps[i].1 == chosen[i].1 && stamps[j].1 == chosen[j].1);
    }
    assert forall|i: int| 0 <= i < items.len() implies (#[trigger] stamps[i]).0 == key_of(
        items[i],
    ) by {
        let _x = items[i];
        assert(stamps[i] == (key_of(items[i]), chosen[i].1));
    }
}

/// No title occurs twice in the merged list, whatever the inputs held.
pub proof fn law_merge_titles_unique(
    base: SyncDoc,
    local: Seq<WatchItem>,
    ls: Map<(usize, u64), u64>,
    remote: SyncDoc,
    items: Seq<WatchItem>,
    stamps: Seq<((usize, u64), u64)>,
)
    requires
        is_merge_of(base, local, ls, remote, items, stamps),
        local.len() <= usize::MAX,
    ensures
        unique_keys(items),
{
    let (sorted, p) = choose|sorted: Seq<((bool, usize), u64)>, p: Seq<int>|
        #![trigger stably_sorted_desc(sorted, merge_candidates(base, local, ls, remote), p)]
        stably_sorted_desc(sorted, merge_candidates(base, local, ls, remote), p) && merged_from(
            items,
            stamps,
            first_n(sorted, MAX_ITEMS as nat),
            local,
            remote.watch@,
        );
    let cands = merge_candidates(base, local, ls, remote);
    let ks = merge_keys(local, remote.watch@);
    lemma_distinct_keys(keys_of(local + remote.watch@));
    lemma_candidates_distinct(ks, base, local, ls, remote);
    let chosen = first_n(sorted, MAX_ITEMS as nat);
    assert forall|a: int, b: int| 0 <= a < b < items.len() implies key_of(#[trigger] items[a])
        != key_of(#[trigger] items[b]) by {
        assert(chosen[a] == sorted[a] && chosen[b] == sorted[b]);
        assert(items[a]@ == source_item(local, remote.watch@, chosen[a].0)@);
        assert(items[b]@ == source_item(local, remote.watch@, chosen[b].0)@);
        assert(sorted[a] == cands[p[a]] && sorted[b] == cands[p[b]]);
        assert(p[a] != p[b]);
        if p[a] < p[b] {
            assert(key_of(source_item(local, remote.watch@, cands[p[a]].0)) != key_of(
                source_item(local, remote.watch@, cands[p[b]].0),
            ));
        } else {
            assert(key_of(source_item(local, remote.watch@, cands[p[b]].0)) != key_of(
                source_item(local, remote.watch@, cands[p[a]].0),
            ));
        }
    }
}

/// The merged preferences are one side's: the local ones or the remote
/// ones (the defaults where the remote holds none).
pub proof fn law_prefs_merge_takes_a_side(
    base: SyncDoc,
    local: PrefsView,
    local_stamp: u64,
    remote: SyncDoc,
)
    ensures
        prefs_merge(base, local, local_stamp, remote).0 == local || prefs_merge(
            base,
            local,
            local_stamp,
            remote,
        ).0 == prefs_or_default(remote.prefs),
{
}

/// When neither side changed the preferences since the base, the local
/// ones stay, with the base's stamp.
pub proof fn law_prefs_merge_quiet(base: SyncDoc, local: PrefsView, local_stamp: u64, remote: SyncDoc)
    requires
        prefs_match(base.prefs, local),
        remote.prefs_updated_at <= base.prefs_updated_at,
        prefs_view_eq(prefs_or_default(remote.prefs), prefs_or_default(base.prefs)),
    ensures
        prefs_merge(base, local, local_stamp, remote) == (local, base.prefs_updated_at),
{
}

/// A change on one side only is taken, whatever the stamps.
pub proof fn law_prefs_merge_one_sided(
    base: SyncDoc,
    local: PrefsView,
    local_stamp: u64,
    remote: SyncDoc,
)
    ensures
        prefs_match(base.prefs, local) && (remote.prefs_updated_at > base.prefs_updated_at
            || !prefs_view_eq(prefs_or_default(remote.prefs), prefs_or_default(base.prefs))) ==> prefs_merge(
            base,
            local,
            local_stamp,
            remote,
        ).0 == prefs_or_default(remote.prefs),
        !prefs_match(base.prefs, local) && remote.prefs_updated_at <= base.prefs_updated_at
            && prefs_view_eq(prefs_or_default(remote.prefs), prefs_or_default(base.prefs)) ==> prefs_merge(
            base,
            local,
            local_stamp,
            remote,
        ).0 == local,
{
}

/// A local change not synchronised yet: the stamp it was given when first
/// seen, and the record as it was then.
#[derive(Debug, Clone)]
pub struct LedgerEntry {
    pub stamp: u64,
    pub item: WatchItem,
}

/// Pending local changes by title; where a title occurs twice the later
/// entry counts.
pub open spec fn ledger_map(s: Seq<((usize, u64), LedgerEntry)>) -> Map<(usize, u64), (u64, ItemView)>
    decreases s.len(),
{
    if s.len() == 0 {
        Map::empty()
    } else {
        ledger_map(s.drop_last()).insert(s.last().0, (s.last().1.stamp, s.last().1.item@))
    }
}

/// A title has a pending change exactly when an entry names it.
proof fn lemma_ledger_has(s: Seq<((usize, u64), LedgerEntry)>, k: (usize, u64))
    ensures
        ledger_map(s).contains_key(k) <==> exists|i: int| 0 <= i < s.len() && (#[trigger] s[i]).0 == k,
    decreases s.len(),
{
    if s.len() > 0 {
        let d = s.drop_last();
        lemma_ledger_has(d, k);
        if ledger_map(s).contains_key(k) && k != s.last().0 {
            let i = choose|i: int| 0 <= i < d.len() && (#[trigger] d[i]).0 == k;
            assert(s[i] == d[i]);
        }
        if exists|i: int| 0 <= i < s.len() && (#[trigger] s[i]).0 == k {
            let i = choose|i: int| 0 <= i < s.len() && (#[trigger] s[i]).0 == k;
            if i < s.len() - 1 {
                assert(d[i] == s[i]);
            }
        }
    }
}

/// The index of the entry that counts for a title, if any.
fn ledger_find(l: &Vec<((usize, u64), LedgerEntry)>, k: (usize, u64)) -> (r: Option<usize>)
    ensures
        match r {
            Some(i) => i < l@.len() && ledger_map(l@).contains_key(k) && ledger_map(l@)[k] == (
                l@[i as int].1.stamp,
                l@[i as int].1.item@,
            ),
            None => !ledger_map(l@).contains_key(k),
        },
{
    let mut r: Option<usize> = None;
    let mut i: usize = 0;
    while i < l.len()
        invariant
            i <= l@.len(),
            match r {
                Some(x) => x < i && ledger_map(l@.take(i as int)).contains_key(k) && ledger_map(
                    l@.take(i as int),
                )[k] == (l@[x as int].1.stamp, l@[x as int].1.item@),
                None => !ledger_map(l@.take(i as int)).contains_key(k),
            },
        decreases l@.len() - i,
    {
        assert(l@.take(i + 1).drop_last() =~= l@.take(i as int));
        let key = l[i].0;
        if key.0 == k.0 && key.1 == k.1 {
            r = Some(i);
        }
        i = i + 1;
    }
    assert(l@.take(l@.len() as int) =~= l@);
    r
}

/// Keeps the entries whose title satisfies the test: not `k` when `drop`
/// is a title, else titles stamped in `keep`.
fn ledger_filter(
    l: &mut Vec<((usize, u64), LedgerEntry)>,
    drop: Option<(usize, u64)>,
    keep: &Vec<((usize, u64), u64)>,
) -> (removed: bool)
    ensures
        match drop {
            Some(k) => ledger_map(final(l)@) == ledger_map(old(l)@).remove(k) && removed
                == ledger_map(old(l)@).contains_key(k),
            None => ledger_map(final(l)@) == ledger_map(old(l)@).restrict(stamp_map(keep@).dom())
                && removed == !ledger_map(old(l)@).dom().subset_of(stamp_map(keep@).dom()),
        },
{
    let ghost s = l@;
    let ghost dom = stamp_map(keep@).dom();
    let mut kept: Vec<((usize, u64), LedgerEntry)> = Vec::new();
    let mut removed = false;
    let mut i: usize = 0;
    let n0 = l.len();
    assert(l@ =~= s.skip(0));
    while l.len() > 0
        invariant
            i + l@.len() == s.len(),
            s.len() <= usize::MAX,
            l@ =~= s.skip(i as int),
            dom == stamp_map(keep@).dom(),
            match drop {
                Some(k) => ledger_map(kept@) == ledger_map(s.take(i as int)).remove(k) && removed
                    == (exists|j: int| 0 <= j < i && (#[trigger] s[j]).0 == k),
                None => ledger_map(kept@) == ledger_map(s.take(i as int)).restrict(dom) && removed
                    == (exists|j: int| 0 <= j < i && !dom.contains((#[trigger] s[j]).0)),
            },
        decreases l@.len(),
    {
        let e = l.remove(0);
        assert(e == s[i as int]);
        let ghost prev = kept@;
        let stays = match drop {
            Some(k) => !(e.0.0 == k.0 && e.0.1 == k.1),
            None => has_stamp(keep, e.0),
        };
        let ghost entry = e;
        if stays {
            kept.push(e);
        } else {
            removed = true;
        }
        proof {
            assert(s.take(i + 1).drop_last() =~= s.take(i as int));
            assert(s.take(i + 1).last() == entry);
            match drop {
                Some(k) => {
                    if stays {
                        assert(kept@.drop_last() =~= prev);
                        assert(ledger_map(kept@) =~= ledger_map(s.take(i + 1)).remove(k));
                    } else {
                        assert(ledger_map(prev) =~= ledger_map(s.take(i + 1)).remove(k));
                    }
                    assert(removed == (exists|j: int| 0 <= j < i + 1 && (#[trigger] s[j]).0 == k));
                },
                None => {
                    if stays {
                        assert(kept@.drop_last() =~= prev);
                        assert(ledger_map(kept@) =~= ledger_map(s.take(i + 1)).restrict(dom));
                    } else {
                        assert(ledger_map(prev) =~= ledger_map(s.take(i + 1)).restrict(dom));
                    }
                    assert(removed == (exists|j: int| 0 <= j < i + 1 && !dom.contains(
                        (#[trigger] s[j]).0,
                    )));
                },
            }
        }
        i = i + 1;
        assert(l@ =~= s.skip(i as int));
    }
    assert(s.take(s.len() as int) =~= s);
    proof {
        if drop is None {
            if removed {
                let j = choose|j: int| 0 <= j < s.len() && !dom.contains((#[trigger] s[j]).0);
                lemma_ledger_has(s, s[j].0);
                assert(ledger_map(s).contains_key(s[j].0));
            }
            if !ledger_map(s).dom().subset_of(dom) {
                let k = choose|k: (usize, u64)| ledger_map(s).dom().contains(k) && !dom.contains(k);
                lemma_ledger_has(s, k);
                let j = choose|j: int| 0 <= j < s.len() && (#[trigger] s[j]).0 == k;
                assert(!dom.contains(s[j].0));
            }
        } else {
            let k = drop.unwrap();
            lemma_ledger_has(s, k);
        }
    }
    *l = kept;
    removed
}

/// A title has a stamp exactly when an entry names it.
proof fn lemma_stamp_has(s: Seq<((usize, u64), u64)>, k: (usize, u64))
    ensures
        stamp_map(s).contains_key(k) <==> exists|i: int| 0 <= i < s.len() && (#[trigger] s[i]).0 == k,
    decreases s.len(),
{
    if s.len() > 0 {
        let d = s.drop_last();
        lemma_stamp_has(d, k);
        if stamp_map(s).contains_key(k) && k != s.last().0 {
            let i = choose|i: int| 0 <= i < d.len() && (#[trigger] d[i]).0 == k;
            assert(s[i] == d[i]);
        }
        if exists|i: int| 0 <= i < s.len() && (#[trigger] s[i]).0 == k {
            let i = choose|i: int| 0 <= i < s.len() && (#[trigger] s[i]).0 == k;
            if i < s.len() - 1 {
                assert(d[i] == s[i]);
            }
        }
    }
}

/// Whether a title has a stamp.
fn has_stamp(s: &Vec<((usize, u64), u64)>, k: (usize, u64)) -> (r: bool)
    ensures
        r == stamp_map(s@).dom().contains(k),
{
    proof {
        lemma_stamp_has(s@, k);
    }
    let mut i: usize = 0;
    while i < s.len()
        invariant
            i <= s@.len(),
            forall|j: int| 0 <= j < i ==> (#[trigger] s@[j]).0 != k,
        decreases s@.len() - i,
    {
        let key = s[i].0;
        if key.0 == k.0 && key.1 == k.1 {
            assert(s@[i as int].0 == k);
            proof {
                lemma_stamp_has(s@, k);
            }
            return true;
        }
        i = i + 1;
    }
    assert(!stamp_map(s@).contains_key(k));
    false
}

/// The stamp a new local change gets: 0 against a store never
/// synchronised, else when the list file was last modified.
pub open spec fn fresh_stamp(base: SyncDoc, local: LocalState) -> u64 {
    if base.rev == 0 {
        0
    } else {
        local.watch_mtime
    }
}

/// The stamps given so far, the pending changes, and whether the pending
/// changes were altered.
pub type StampState = (Map<(usize, u64), u64>, Map<(usize, u64), (u64, ItemView)>, bool);

/// Stamps the record at position `pos` of the local list: a record equal
/// to the base's keeps the base's stamp and clears its pending change; one
/// equal to its pending change keeps that change's stamp; any other is a
/// new change, stamped `fresh - pos` (at least 0) so that the list order
/// is kept, and recorded as pending.
pub open spec fn stamp_step(base: SyncDoc, fresh: u64, st: StampState, pos: nat, it: WatchItem) -> StampState {
    let k = key_of(it);
    let on_base = match last_with_key(base.watch@, k) {
        Some(b) => item_view_eq(base.watch@[b]@, it@),
        None => false,
    };
    if on_base {
        (st.0.insert(k, stamp_or_zero(stamp_map(base.stamps@), k)), st.1.remove(k), st.2
            || st.1.contains_key(k))
    } else if st.1.contains_key(k) && item_view_eq(st.1[k].1, it@) {
        (st.0.insert(k, st.1[k].0), st.1, st.2)
    } else {
        let s = if fresh >= pos {
            (fresh - pos) as u64
        } else {
            0
        };
        (st.0.insert(k, s), st.1.insert(k, (s, it@)), true)
    }
}

/// Stamps the local records in list order.
pub open spec fn stamp_fold(
    base: SyncDoc,
    fresh: u64,
    items: Seq<WatchItem>,
    ledger: Map<(usize, u64), (u64, ItemView)>,
) -> StampState
    decreases items.len(),
{
    if items.len() == 0 {
        (Map::empty(), ledger, false)
    } else {
        stamp_step(
            base,
            fresh,
            stamp_fold(base, fresh, items.drop_last(), ledger),
            (items.len() - 1) as nat,
            items.last(),
        )
    }
}

/// Stamps the local records against `base`, keeping the pending changes
/// in `ledger` up to date (changes of titles no longer listed are
/// dropped); says whether the pending changes were altered.
pub fn stamp_local(base: &SyncDoc, local: &LocalState, ledger: &mut Vec<((usize, u64), LedgerEntry)>) -> (r: (
    Vec<((usize, u64), u64)>,
    bool,
))
    ensures
        ({
            let st = stamp_fold(*base, fresh_stamp(*base, *local), local.watch@, ledger_map(old(ledger)@));
            &&& stamp_map(r.0@) == st.0
            &&& ledger_map(final(ledger)@) == st.1.restrict(st.0.dom())
            &&& r.1 == (st.2 || !st.1.dom().subset_of(st.0.dom()))
        }),
{
    let fresh = if base.rev == 0 {
        0
    } else {
        local.watch_mtime
    };
    let ghost l0 = ledger_map(ledger@);
    let mut stamps: Vec<((usize, u64), u64)> = Vec::new();
    let mut dirty = false;
    let mut pos: usize = 0;
    let n = local.watch.len();
    while pos < n
        invariant
            n == local.watch@.len(),
            pos <= n,
            fresh == fresh_stamp(*base, *local),
            ({
                let st = stamp_fold(*base, fresh, local.watch@.take(pos as int), l0);
                &&& stamp_map(stamps@) == st.0
                &&& ledger_map(ledger@) == st.1
                &&& dirty == st.2
            }),
        decreases n - pos,
    {
        let it = &local.watch[pos];
        let k = (it.entry.provider, it.entry.id);
        let ghost before = stamp_fold(*base, fresh, local.watch@.take(pos as int), l0);
        assert(local.watch@.take(pos + 1).drop_last() =~= local.watch@.take(pos as int));
        assert(local.watch@.take(pos + 1).last() == *it);
        let on_base = match last_index_with_key(&base.watch, k) {
            Some(b) => base.watch[b].same_as(it),
            None => false,
        };
        let stamp = if on_base {
            let had = ledger_filter(ledger, Some(k), &stamps);
            dirty = dirty || had;
            stamp_lookup(&base.stamps, k)
        } else {
            let found = ledger_find(ledger, k);
            let pending = match found {
                Some(i) => if ledger[i].1.item.same_as(it) {
                    Some(ledger[i].1.stamp)
                } else {
                    None
                },
                None => None,
            };
            match pending {
                Some(st) => st,
                None => {
                    let s = fresh.saturating_sub(pos as u64);
                    let ghost lm = ledger_map(ledger@);
                    ledger_filter(ledger, Some(k), &stamps);
                    let ghost mid = ledger@;
                    let entry = LedgerEntry { stamp: s, item: it.duplicate() };
                    ledger.push((k, entry));
                    proof {
                        assert(ledger@.drop_last() =~= mid);
                        assert(ledger@.last() == (k, entry));
                        assert(ledger_map(ledger@) =~= lm.remove(k).insert(k, (s, it@)));
                        assert(lm.remove(k).insert(k, (s, it@)) =~= lm.insert(k, (s, it@)));
                    }
                    dirty = true;
                    s
                },
            }
        };
        let ghost sprev = stamps@;
        stamps.push((k, stamp));
        assert(stamps@.drop_last() =~= sprev);
        pos = pos + 1;
    }
    assert(local.watch@.take(n as int) =~= local.watch@);
    let removed = ledger_filter(ledger, None, &stamps);
    (stamps, dirty || removed)
}

/// How often the loop wakes up, in seconds.
pub const TICK_SECS: u64 = 10;

/// How long an idle loop waits between pulls of the remote document, and
/// how long it rests after a failed round, in milliseconds.
pub const PULL_INTERVAL_MS: u64 = 60_000;

/// What reading a local file gave: its value, nothing (it does not exist),
/// or an error.
#[derive(Debug, Clone)]
pub enum FileState<T> {
    Data(T),
    Missing,
    Unreadable,
}

/// The local files as the syncing loop reads them: the list (a missing
/// list counts as empty only while the base has none), the preferences (the
/// base's, or the defaults, when missing), the files' times, and whether one
/// was missing; nothing when a file cannot be used.
pub fn read_local(
    watch_file: FileState<Vec<WatchItem>>,
    prefs_file: FileState<PlayerPrefs>,
    base: &SyncDoc,
    watch_mtime: u64,
    prefs_mtime: u64,
) -> (r: Option<LocalState>)
    ensures
        r is Some <==> ((watch_file is Data || (watch_file is Missing && base.watch@.len() == 0))
            && !(prefs_file is Unreadable)),
        r matches Some(l) ==> {
            &&& l.watch@ == (match watch_file {
                FileState::Data(w) => w@,
                _ => Seq::empty(),
            })
            &&& l.prefs@ == (match prefs_file {
                FileState::Data(p) => p@,
                _ => prefs_or_default(base.prefs),
            })
            &&& l.watch_mtime == watch_mtime
            &&& l.prefs_mtime == prefs_mtime
            &&& l.missing == (watch_file is Missing || prefs_file is Missing)
        },
{
    let (watch, watch_missing) = match watch_file {
        FileState::Data(w) => (w, false),
        FileState::Missing => {
            if base.watch.len() == 0 {
                (Vec::new(), true)
            } else {
                return None;
            }
        },
        FileState::Unreadable => return None,
    };
    let (prefs, prefs_missing) = match prefs_file {
        FileState::Data(p) => (p, false),
        FileState::Missing => (prefs_or_default_exec(&base.prefs), true),
        FileState::Unreadable => return None,
    };
    Some(LocalState { watch, prefs, watch_mtime, prefs_mtime, missing: watch_missing || prefs_missing })
}

/// When a file was last modified, never later than now; now when unknown.
pub fn mtime_or_now(mtime: Option<u64>, now: u64) -> (r: u64)
    ensures
        r == match mtime {
            Some(m) => if m <= now {
                m
            } else {
                now
            },
            None => now,
        },
{
    match mtime {
        Some(m) => if m <= now {
            m
        } else {
            now
        },
        None => now,
    }
}

/// Two lists hold the same records.
pub open spec fn same_items(a: Seq<WatchItem>, b: Seq<WatchItem>) -> bool {
    a.len() == b.len() && forall|i: int| 0 <= i < a.len() ==> item_view_eq((#[trigger] a[i])@, b[i]@)
}

/// Whether two lists hold the same records.
pub fn items_equal(a: &Vec<WatchItem>, b: &Vec<WatchItem>) -> (r: bool)
    ensures
        r == same_items(a@, b@),
{
    if a.len() != b.len() {
        return false;
    }
    let mut i: usize = 0;
    while i < a.len()
        invariant
            i <= a@.len(),
            a@.len() == b@.len(),
            forall|j: int| 0 <= j < i ==> item_view_eq((#[trigger] a@[j])@, b@[j]@),
        decreases a@.len() - i,
    {
        if !a[i].same_as(&b[i]) {
            return false;
        }
        i = i + 1;
    }
    true
}

/// Whether two lists of stamps give every title the same stamp.
pub fn stamps_equal(a: &Vec<((usize, u64), u64)>, b: &Vec<((usize, u64), u64)>) -> (r: bool)
    ensures
        r == (stamp_map(a@) == stamp_map(b@)),
{
    let ghost ma = stamp_map(a@);
    let ghost mb = stamp_map(b@);
    let mut i: usize = 0;
    while i < a.len()
        invariant
            i <= a@.len(),
            ma == stamp_map(a@),
            mb == stamp_map(b@),
            forall|j: int| 0 <= j < i ==> mb.contains_key((#[trigger] a@[j]).0) && mb[a@[j].0] == ma[a@[j].0],
        decreases a@.len() - i,
    {
        let k = a[i].0;
        proof {
            lemma_stamp_has(a@, k);
        }
        assert(a@[i as int].0 == k);
        if !has_stamp(b, k) {
            assert(ma.contains_key(k) && !mb.contains_key(k));
            return false;
        }
        if stamp_lookup(b, k) != stamp_lookup(a, k) {
            assert(ma[k] != mb[k]);
            return false;
        }
        i = i + 1;
    }
    let mut j: usize = 0;
    while j < b.len()
        invariant
            j <= b@.len(),
            ma == stamp_map(a@),
            mb == stamp_map(b@),
            forall|t: int| 0 <= t < a@.len() ==> mb.contains_key((#[trigger] a@[t]).0) && mb[a@[t].0] == ma[a@[t].0],
            forall|t: int| 0 <= t < j ==> ma.contains_key((#[trigger] b@[t]).0),
        decreases b@.len() - j,
    {
        let k = b[j].0;
        proof {
            lemma_stamp_has(b@, k);
        }
        assert(b@[j as int].0 == k);
        if !has_stamp(a, k) {
            assert(mb.contains_key(k) && !ma.contains_key(k));
            return false;
        }
        j = j + 1;
    }
    assert forall|k: (usize, u64)| ma.contains_key(k) <==> mb.contains_key(k) by {
        lemma_stamp_has(a@, k);
        lemma_stamp_has(b@, k);
        if ma.contains_key(k) {
            let t = choose|t: int| 0 <= t < a@.len() && (#[trigger] a@[t]).0 == k;
        }
        if mb.contains_key(k) {
            let t = choose|t: int| 0 <= t < b@.len() && (#[trigger] b@[t]).0 == k;
        }
    }
    assert forall|k: (usize, u64)| ma.contains_key(k) implies ma[k] == mb[k] by {
        lemma_stamp_has(a@, k);
        let t = choose|t: int| 0 <= t < a@.len() && (#[trigger] a@[t]).0 == k;
    }
    assert(ma =~= mb);
    true
}

/// Whether the local files differ from what was last synchronised.
pub open spec fn local_differs(local: LocalState, doc: SyncDoc) -> bool {
    !same_items(local.watch@, doc.watch@) || !prefs_match(doc.prefs, local.prefs@) || local.missing
}

/// Whether the local files differ from what was last synchronised.
pub fn local_changed(local: &LocalState, doc: &SyncDoc) -> (r: bool)
    ensures
        r == local_differs(*local, *doc),
{
    let prefs_same = match &doc.prefs {
        Some(p) => p.same_as(&local.prefs),
        None => false,
    };
    !items_equal(&local.watch, &doc.watch) || !prefs_same || local.missing
}

/// The syncing loop's clock: when the remote document was last pulled, and
/// until when the loop rests after a failed round.
#[derive(Debug, Clone, Copy)]
pub struct SyncClock {
    pub last_pull: u64,
    pub cooldown_until: u64,
}

impl SyncClock {
    /// A clock that never pulled and does not rest.
    pub fn new() -> (r: SyncClock)
        ensures
            r.last_pull == 0,
            r.cooldown_until == 0,
    {
        SyncClock { last_pull: 0, cooldown_until: 0 }
    }

    /// Whether the loop rests at this time.
    pub fn resting(&self, now: u64) -> (r: bool)
        ensures
            r == (now < self.cooldown_until),
    {
        now < self.cooldown_until
    }

    /// Whether a round is due: always when the local files changed, else
    /// once a pull interval has passed since the last pull (which this
    /// then becomes).
    pub fn due(&mut self, now: u64, local_changed: bool) -> (r: bool)
        ensures
            final(self).cooldown_until == old(self).cooldown_until,
            local_changed ==> r && final(self).last_pull == old(self).last_pull,
            !local_changed ==> r == (now >= old(self).last_pull && now - old(self).last_pull >= PULL_INTERVAL_MS),
            !local_changed && r ==> final(self).last_pull == now,
            !local_changed && !r ==> final(self).last_pull == old(self).last_pull,
    {
        if local_changed {
            return true;
        }
        if now.saturating_sub(self.last_pull) < PULL_INTERVAL_MS {
            return false;
        }
        self.last_pull = now;
        true
    }

    /// Records how a round ended: after a failure the loop rests for a pull
    /// interval.
    pub fn after_round(&mut self, ok: bool, now: u64)
        requires
            now <= u64::MAX - PULL_INTERVAL_MS,
        ensures
            final(self).last_pull == old(self).last_pull,
            ok ==> final(self).cooldown_until == old(self).cooldown_until,
            !ok ==> final(self).cooldown_until == now + PULL_INTERVAL_MS,
    {
        if !ok {
            self.cooldown_until = now + PULL_INTERVAL_MS;
        }
    }
}

/// Whether a round can start from the document last synchronised instead
/// of pulling: only when the local files changed and a document was ever
/// synchronised.
pub fn uses_cached_remote(local_changed: bool, snapshot_rev: u64) -> (r: bool)
    ensures
        r == (local_changed && snapshot_rev > 0),
{
    local_changed && snapshot_rev > 0
}

/// Whether a round merges against a fresh base: when the remote document is
/// older than the one last synchronised (the store was reset).
pub fn uses_fresh_base(remote_rev: u64, snapshot_rev: u64) -> (r: bool)
    ensures
        r == (remote_rev < snapshot_rev),
{
    remote_rev < snapshot_rev
}

/// What one round of synchronisation computes against a base.
pub struct SyncRound {
    pub watch: Vec<WatchItem>,
    pub stamps: Vec<((usize, u64), u64)>,
    pub prefs: PlayerPrefs,
    pub prefs_updated_at: u64,
    pub ledger_dirty: bool,
    pub remote_dirty: bool,
}

/// One round: stamps the local records, merges the lists and the
/// preferences three ways against `base`, and says whether the pending
/// changes were altered and whether the remote document must be updated.
pub fn sync_round(
    base: &SyncDoc,
    ledger: &mut Vec<((usize, u64), LedgerEntry)>,
    local: &LocalState,
    remote: &SyncDoc,
) -> (r: SyncRound)
    ensures
        ({
            let st = stamp_fold(*base, fresh_stamp(*base, *local), local.watch@, ledger_map(old(ledger)@));
            &&& ledger_map(final(ledger)@) == st.1.restrict(st.0.dom())
            &&& r.ledger_dirty == (st.2 || !st.1.dom().subset_of(st.0.dom()))
            &&& is_merge_of(*base, local.watch@, st.0, *remote, r.watch@, r.stamps@)
        }),
        (r.prefs@, r.prefs_updated_at) == prefs_merge(*base, local.prefs@, prefs_stamp(*base, *local), *remote),
        r.remote_dirty == (!same_items(r.watch@, remote.watch@) || stamp_map(r.stamps@) != stamp_map(
            remote.stamps@,
        ) || !prefs_match(remote.prefs, r.prefs@)),
{
    let (local_stamps, ledger_dirty) = stamp_local(base, local, ledger);
    let prefs_stamp = local_prefs_stamp(base, local);
    let (watch, stamps) = merge_watch(base, &local.watch, &local_stamps, remote);
    let (prefs, prefs_updated_at) = merge_prefs(base, &local.prefs, prefs_stamp, remote);
    let prefs_same = match &remote.prefs {
        Some(p) => p.same_as(&prefs),
        None => false,
    };
    let remote_dirty = !items_equal(&watch, &remote.watch) || !stamps_equal(&stamps, &remote.stamps)
        || !prefs_same;
    SyncRound { watch, stamps, prefs, prefs_updated_at, ledger_dirty, remote_dirty }
}

/// How a push of the merged document was answered.
#[derive(Debug, Clone)]
pub enum PushOutcome {
    Accepted(SyncDoc),
    Conflict(SyncDoc),
    Failed,
}

/// Reads the service's reply to a push: the stored document when it took
/// it, the newer document when another client pushed first, else failure.
pub fn push_outcome(ok: bool, conflict: bool, doc: Option<SyncDoc>) -> (r: PushOutcome)
    ensures
        ok && doc is Some ==> r == PushOutcome::Accepted(doc->0),
        !ok && conflict && doc is Some ==> r == PushOutcome::Conflict(doc->0),
        doc is None || (!ok && !conflict) ==> r is Failed,
{
    match doc {
        Some(d) => if ok {
            PushOutcome::Accepted(d)
        } else if conflict {
            PushOutcome::Conflict(d)
        } else {
            PushOutcome::Failed
        },
        None => PushOutcome::Failed,
    }
}

/// How many times a round merges and pushes before it gives up on a
/// remote document that keeps changing under it.
pub const SYNC_ATTEMPTS: u32 = 2;

/// What a round does after a push of its merge was answered.
#[derive(Debug, Clone)]
pub enum RoundStep {
    /// The service stored this document: apply it locally.
    Apply(SyncDoc),
    /// Another client pushed first: merge again against this document.
    Retry(SyncDoc),
    /// Stop, keeping the pending changes; `reached` says whether the round
    /// reached the service.
    GiveUp { reached: bool },
}

/// The next step of a round after its push at `attempt` (counted from 0)
/// was answered: apply what was stored; after a conflict, merge again
/// against the newer document unless this was the last attempt, when the
/// round stops as one that reached the service; after a failure, stop as
/// one that did not.
pub fn after_push(attempt: u32, outcome: PushOutcome) -> (r: RoundStep)
    ensures
        (outcome is Accepted) ==> r == RoundStep::Apply(outcome->Accepted_0),
        (outcome is Conflict) ==> r == (if attempt + 1 < SYNC_ATTEMPTS {
            RoundStep::Retry(outcome->Conflict_0)
        } else {
            (RoundStep::GiveUp { reached: true })
        }),
        (outcome is Failed) ==> r == (RoundStep::GiveUp { reached: false }),
        (r is Retry) ==> attempt + 1 < SYNC_ATTEMPTS,
{
    match outcome {
        PushOutcome::Accepted(d) => RoundStep::Apply(d),
        PushOutcome::Conflict(d) => if attempt < SYNC_ATTEMPTS - 1 {
            RoundStep::Retry(d)
        } else {
            RoundStep::GiveUp { reached: true }
        },
        PushOutcome::Failed => RoundStep::GiveUp { reached: false },
    }
}

/// The remote document a pull gives: the document when the service says
/// the request succeeded.
pub fn pulled_doc(ok: bool, doc: Option<SyncDoc>) -> (r: Option<SyncDoc>)
    ensures
        r == if ok {
            doc
        } else {
            None
        },
{
    if ok {
        doc
    } else {
        None
    }
}

/// What to do with the local files after a round.
#[derive(Debug, Clone, Copy, PartialEq, Eq, Structural)]
pub enum LocalWrite {
    /// The files changed while the round ran: leave everything as it is.
    Stale,
    /// Write the merged list and preferences; tell the application when
    /// they differ from what it has.
    Write { notify: bool },
    /// Nothing to write.
    Keep,
}

/// What to do with the local files after a round, given them as read now
/// and as read when the round started.
pub fn local_write(current: &LocalState, local: &LocalState, watch: &Vec<WatchItem>, prefs: &PlayerPrefs) -> (r: LocalWrite)
    ensures
        !same_items(current.watch@, local.watch@) || !prefs_view_eq(current.prefs@, local.prefs@) ==> r
            == LocalWrite::Stale,
        same_items(current.watch@, local.watch@) && prefs_view_eq(current.prefs@, local.prefs@) ==> {
            let changed = !same_items(watch@, local.watch@) || !prefs_view_eq(prefs@, local.prefs@);
            &&& (changed || local.missing) ==> r == LocalWrite::Write { notify: changed }
            &&& !(changed || local.missing) ==> r == LocalWrite::Keep
        },
{
    if !items_equal(&current.watch, &local.watch) || !current.prefs.same_as(&local.prefs) {
        return LocalWrite::Stale;
    }
    let changed = !items_equal(watch, &local.watch) || !prefs.same_as(&local.prefs);
    if changed || local.missing {
        LocalWrite::Write { notify: changed }
    } else {
        LocalWrite::Keep
    }
}

/// Whether the snapshot must be written after a round: when the document's
/// revision moved or the pending changes were altered.
pub fn snapshot_changed(new_rev: u64, snapshot_rev: u64, ledger_dirty: bool) -> (r: bool)
    ensures
        r == (new_rev != snapshot_rev || ledger_dirty),
{
    new_rev != snapshot_rev || ledger_dirty
}

} // verus!
