use streamvault::config::{PlayerPrefs, WatchItem};
use streamvault::providers::{MediaEntry, MediaType};
use streamvault::sync::{
    item_key, local_prefs_stamp, merge_prefs, merge_watch, stamp_local, LedgerEntry, LocalState,
    SyncConfig, SyncDoc, MAX_ITEMS,
};

type Stamps = Vec<((usize, u64), u64)>;

fn make_entry(id: u64) -> MediaEntry {
    MediaEntry {
        id,
        name: format!("Title {id}"),
        slug: String::new(),
        provider: 0,
        language: "it".into(),
        media_type: MediaType::Movie,
        alternative_names: Vec::new(),
        year: None,
        score: None,
        image_url: None,
        description: None,
    }
}

fn make_item(id: u64, time: f64) -> WatchItem {
    WatchItem {
        entry: make_entry(id),
        current_time: time.to_bits(),
        duration: 100.0f64.to_bits(),
        season: None,
        episode: None,
    }
}

fn key(i: &WatchItem) -> (usize, u64) {
    (i.entry.provider, i.entry.id)
}

fn make_doc(rev: u64, items: Vec<(WatchItem, u64)>) -> SyncDoc {
    let stamps = items.iter().map(|(i, s)| (key(i), *s)).collect();
    SyncDoc {
        rev,
        prefs_updated_at: 0,
        watch: items.into_iter().map(|(i, _)| i).collect(),
        stamps,
        prefs: None,
    }
}

fn local_state(watch: Vec<WatchItem>, watch_mtime: u64) -> LocalState {
    LocalState {
        watch,
        prefs: PlayerPrefs::default(),
        watch_mtime,
        prefs_mtime: 0,
        missing: false,
    }
}

fn get(stamps: &Stamps, k: (usize, u64)) -> Option<u64> {
    stamps.iter().rev().find(|(kk, _)| *kk == k).map(|(_, s)| *s)
}

fn stamps_of(base: &SyncDoc, local: &LocalState, ledger: &mut Vec<((usize, u64), LedgerEntry)>) -> Stamps {
    stamp_local(base, local, ledger).0
}

fn time(i: &WatchItem) -> f64 {
    f64::from_bits(i.current_time)
}

#[test]
fn stamp_unchanged_item_keeps_base_stamp() {
    let base = make_doc(1, vec![(make_item(1, 10.0), 5)]);
    let stamps = stamps_of(&base, &local_state(vec![make_item(1, 10.0)], 900), &mut Vec::new());
    assert_eq!(get(&stamps, (0, 1)), Some(5));
}

#[test]
fn stamp_changed_item_uses_file_mtime() {
    let base = make_doc(1, vec![(make_item(1, 10.0), 5)]);
    let stamps = stamps_of(&base, &local_state(vec![make_item(1, 42.0)], 900), &mut Vec::new());
    assert_eq!(get(&stamps, (0, 1)), Some(900));
}

#[test]
fn stamp_fresh_base_is_zero() {
    let base = make_doc(0, vec![]);
    let stamps = stamps_of(&base, &local_state(vec![make_item(1, 42.0)], 900), &mut Vec::new());
    assert_eq!(get(&stamps, (0, 1)), Some(0));
}

#[test]
fn stamp_new_items_preserve_list_order() {
    let base = make_doc(1, vec![]);
    let stamps = stamps_of(
        &base,
        &local_state(vec![make_item(1, 1.0), make_item(2, 2.0)], 900),
        &mut Vec::new(),
    );
    assert!(get(&stamps, (0, 1)).unwrap() > get(&stamps, (0, 2)).unwrap());
}

#[test]
fn ledger_preserves_first_change_stamp_across_ticks() {
    let base = make_doc(1, vec![(make_item(1, 10.0), 5)]);
    let mut ledger = Vec::new();
    let (s1, d1) = stamp_local(&base, &local_state(vec![make_item(1, 42.0)], 900), &mut ledger);
    let (s2, d2) = stamp_local(&base, &local_state(vec![make_item(1, 42.0)], 2000), &mut ledger);
    assert!(d1);
    assert!(!d2);
    assert_eq!(get(&s1, (0, 1)), Some(900));
    assert_eq!(get(&s2, (0, 1)), Some(900));
}

#[test]
fn ledger_refreshes_stamp_when_item_changes_again() {
    let base = make_doc(1, vec![(make_item(1, 10.0), 5)]);
    let mut ledger = Vec::new();
    stamp_local(&base, &local_state(vec![make_item(1, 42.0)], 900), &mut ledger);
    let (s2, d2) = stamp_local(&base, &local_state(vec![make_item(1, 60.0)], 2000), &mut ledger);
    assert!(d2);
    assert_eq!(get(&s2, (0, 1)), Some(2000));
}

#[test]
fn ledger_pruned_when_item_matches_base_again() {
    let base = make_doc(1, vec![(make_item(1, 10.0), 5)]);
    let mut ledger = Vec::new();
    stamp_local(&base, &local_state(vec![make_item(1, 42.0)], 900), &mut ledger);
    let (s2, d2) = stamp_local(&base, &local_state(vec![make_item(1, 10.0)], 2000), &mut ledger);
    assert!(d2);
    assert!(ledger.is_empty());
    assert_eq!(get(&s2, (0, 1)), Some(5));
}

#[test]
fn ledger_drops_titles_no_longer_listed() {
    let base = make_doc(1, vec![]);
    let mut ledger = Vec::new();
    stamp_local(&base, &local_state(vec![make_item(1, 1.0), make_item(2, 2.0)], 50), &mut ledger);
    assert_eq!(ledger.len(), 2);
    let (_, dirty) = stamp_local(&base, &local_state(vec![make_item(2, 2.0)], 60), &mut ledger);
    assert!(dirty);
    assert_eq!(ledger.len(), 1);
    assert_eq!(ledger[0].0, (0, 2));
}

#[test]
fn merge_takes_newer_remote() {
    let base = make_doc(1, vec![(make_item(1, 10.0), 5)]);
    let remote = make_doc(2, vec![(make_item(1, 50.0), 9)]);
    let local = vec![make_item(1, 10.0)];
    let stamps = stamps_of(&base, &local_state(local.clone(), 900), &mut Vec::new());
    let (m, s) = merge_watch(&base, &local, &stamps, &remote);
    assert_eq!(m.len(), 1);
    assert!((time(&m[0]) - 50.0).abs() < 0.01);
    assert_eq!(get(&s, (0, 1)), Some(9));
}

#[test]
fn merge_takes_newer_local() {
    let base = make_doc(1, vec![(make_item(1, 10.0), 5)]);
    let remote = make_doc(2, vec![(make_item(1, 50.0), 9)]);
    let local = vec![make_item(1, 70.0)];
    let stamps = stamps_of(&base, &local_state(local.clone(), 900), &mut Vec::new());
    let (m, _) = merge_watch(&base, &local, &stamps, &remote);
    assert_eq!(m.len(), 1);
    assert!((time(&m[0]) - 70.0).abs() < 0.01);
}

#[test]
fn merge_stale_local_change_loses_to_newer_remote_stamp() {
    let base = make_doc(1, vec![(make_item(1, 10.0), 5)]);
    let remote = make_doc(2, vec![(make_item(1, 50.0), 2000)]);
    let local = vec![make_item(1, 30.0)];
    let stamps = stamps_of(&base, &local_state(local.clone(), 1000), &mut Vec::new());
    let (m, _) = merge_watch(&base, &local, &stamps, &remote);
    assert_eq!(m.len(), 1);
    assert!((time(&m[0]) - 50.0).abs() < 0.01);
}

#[test]
fn merge_local_delete_wins_when_remote_unchanged() {
    let base = make_doc(1, vec![(make_item(1, 10.0), 5)]);
    let remote = make_doc(2, vec![(make_item(1, 10.0), 5)]);
    let (m, s) = merge_watch(&base, &Vec::new(), &Vec::new(), &remote);
    assert!(m.is_empty());
    assert!(s.is_empty());
}

#[test]
fn merge_remote_delete_wins_when_local_unchanged() {
    let base = make_doc(1, vec![(make_item(1, 10.0), 5)]);
    let remote = make_doc(2, vec![]);
    let local = vec![make_item(1, 10.0)];
    let stamps = stamps_of(&base, &local_state(local.clone(), 900), &mut Vec::new());
    let (m, _) = merge_watch(&base, &local, &stamps, &remote);
    assert!(m.is_empty());
}

#[test]
fn merge_remote_update_survives_local_delete() {
    let base = make_doc(1, vec![(make_item(1, 10.0), 5)]);
    let remote = make_doc(2, vec![(make_item(1, 60.0), 8)]);
    let (m, _) = merge_watch(&base, &Vec::new(), &Vec::new(), &remote);
    assert_eq!(m.len(), 1);
    assert!((time(&m[0]) - 60.0).abs() < 0.01);
}

#[test]
fn merge_local_update_survives_remote_delete() {
    let base = make_doc(1, vec![(make_item(1, 10.0), 5)]);
    let remote = make_doc(2, vec![]);
    let local = vec![make_item(1, 60.0)];
    let stamps = stamps_of(&base, &local_state(local.clone(), 900), &mut Vec::new());
    let (m, _) = merge_watch(&base, &local, &stamps, &remote);
    assert_eq!(m.len(), 1);
    assert!((time(&m[0]) - 60.0).abs() < 0.01);
}

#[test]
fn merge_keeps_additions_from_both_sides() {
    let base = make_doc(1, vec![]);
    let remote = make_doc(2, vec![(make_item(2, 20.0), 6)]);
    let local = vec![make_item(1, 10.0)];
    let stamps: Stamps = vec![((0, 1), 3)];
    let (m, _) = merge_watch(&base, &local, &stamps, &remote);
    assert_eq!(m.len(), 2);
    assert_eq!(m[0].entry.id, 2);
    assert_eq!(m[1].entry.id, 1);
}

#[test]
fn merge_sorts_most_recent_first() {
    let base = make_doc(1, vec![]);
    let remote = make_doc(2, vec![(make_item(3, 3.0), 5)]);
    let local = vec![make_item(1, 1.0), make_item(2, 2.0)];
    let stamps: Stamps = vec![((0, 1), 3), ((0, 2), 7)];
    let (m, _) = merge_watch(&base, &local, &stamps, &remote);
    let ids: Vec<u64> = m.iter().map(|i| i.entry.id).collect();
    assert_eq!(ids, vec![2, 3, 1]);
}

#[test]
fn merge_caps_item_count() {
    let base = make_doc(1, vec![]);
    let remote = make_doc(2, vec![]);
    let local: Vec<WatchItem> = (0..150).map(|i| make_item(i, 1.0)).collect();
    let stamps: Stamps = local
        .iter()
        .enumerate()
        .map(|(pos, i)| (key(i), 10_000 - pos as u64))
        .collect();
    let (m, s) = merge_watch(&base, &local, &stamps, &remote);
    assert_eq!(m.len(), MAX_ITEMS);
    assert_eq!(s.len(), MAX_ITEMS);
    assert_eq!(m[0].entry.id, 0);
}

#[test]
fn merge_of_agreeing_sides_is_unchanged() {
    let base = make_doc(3, vec![(make_item(1, 1.0), 4)]);
    let both = vec![(make_item(2, 2.0), 9), (make_item(1, 5.0), 7), (make_item(3, 3.0), 7)];
    let remote = make_doc(4, both.clone());
    let local: Vec<WatchItem> = both.iter().map(|(i, _)| i.clone()).collect();
    let (m, s) = merge_watch(&base, &local, &remote.stamps, &remote);
    let ids: Vec<u64> = m.iter().map(|i| i.entry.id).collect();
    assert_eq!(ids, vec![2, 1, 3]);
    assert_eq!(s, remote.stamps);
}

fn prefs(lang: &str) -> PlayerPrefs {
    PlayerPrefs {
        audio_lang: lang.into(),
        subtitle_lang: String::new(),
        subtitles_on: false,
        speed: 1.0f64.to_bits(),
    }
}

fn prefs_doc(p: Option<PlayerPrefs>, stamp: u64) -> SyncDoc {
    SyncDoc {
        rev: 1,
        prefs_updated_at: stamp,
        watch: Vec::new(),
        stamps: Vec::new(),
        prefs: p,
    }
}

#[test]
fn prefs_local_only_change_wins() {
    let base = prefs_doc(Some(prefs("it")), 5);
    let remote = prefs_doc(Some(prefs("it")), 5);
    let (p, ts) = merge_prefs(&base, &prefs("en"), 9, &remote);
    assert_eq!(p.audio_lang, "en");
    assert_eq!(ts, 9);
}

#[test]
fn prefs_remote_only_change_wins() {
    let base = prefs_doc(Some(prefs("it")), 5);
    let remote = prefs_doc(Some(prefs("es")), 8);
    let (p, ts) = merge_prefs(&base, &prefs("it"), 5, &remote);
    assert_eq!(p.audio_lang, "es");
    assert_eq!(ts, 8);
}

#[test]
fn prefs_conflict_newer_remote_wins() {
    let base = prefs_doc(Some(prefs("it")), 5);
    let remote = prefs_doc(Some(prefs("es")), 20);
    let (p, _) = merge_prefs(&base, &prefs("en"), 10, &remote);
    assert_eq!(p.audio_lang, "es");
}

#[test]
fn prefs_conflict_newer_local_wins() {
    let base = prefs_doc(Some(prefs("it")), 5);
    let remote = prefs_doc(Some(prefs("es")), 8);
    let (p, ts) = merge_prefs(&base, &prefs("en"), 30, &remote);
    assert_eq!(p.audio_lang, "en");
    assert_eq!(ts, 30);
}

#[test]
fn prefs_no_changes_keep_local() {
    let base = prefs_doc(Some(prefs("it")), 5);
    let remote = prefs_doc(Some(prefs("it")), 5);
    let (p, ts) = merge_prefs(&base, &prefs("it"), 5, &remote);
    assert_eq!(p.audio_lang, "it");
    assert_eq!(ts, 5);
}

#[test]
fn prefs_fresh_base_defaults_lose_to_remote() {
    let base = prefs_doc(None, 0);
    let remote = prefs_doc(Some(prefs("es")), 8);
    let fresh = SyncDoc {
        rev: 0,
        ..prefs_doc(None, 0)
    };
    let stamp = local_prefs_stamp(&fresh, &local_state(vec![], 0));
    let (p, ts) = merge_prefs(&base, &PlayerPrefs::default(), stamp, &remote);
    assert_eq!(p.audio_lang, "es");
    assert_eq!(ts, 8);
}

#[test]
fn local_prefs_stamp_cases() {
    let base = prefs_doc(Some(prefs("it")), 5);
    let mut local = local_state(vec![], 0);
    local.prefs = prefs("it");
    local.prefs_mtime = 77;
    assert_eq!(local_prefs_stamp(&base, &local), 5);
    local.prefs = prefs("en");
    assert_eq!(local_prefs_stamp(&base, &local), 77);
}

#[test]
fn item_keys_read_provider_colon_id() {
    let mut i = make_item(42, 0.0);
    i.entry.provider = 3;
    assert_eq!(item_key(&i), "3:42");
}

#[test]
fn sync_needs_enabled_endpoint_and_token() {
    let ok = SyncConfig {
        enabled: true,
        endpoint: "https://e".into(),
        token: "t".into(),
    };
    assert!(ok.is_usable());
    assert!(!SyncConfig { enabled: false, ..ok.clone() }.is_usable());
    assert!(!SyncConfig { endpoint: "  ".into(), ..ok.clone() }.is_usable());
    assert!(!SyncConfig { token: "".into(), ..ok }.is_usable());
}
