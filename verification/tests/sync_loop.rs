use streamvault::config::{PlayerPrefs, WatchItem};
use streamvault::providers::{MediaEntry, MediaType};
use streamvault::sync::{
    items_equal, local_changed, local_write, mtime_or_now, pulled_doc, push_outcome, read_local,
    snapshot_changed, stamps_equal, sync_round, uses_cached_remote, uses_fresh_base, FileState,
    LocalState, LocalWrite, PushOutcome, SyncClock, SyncDoc, PULL_INTERVAL_MS,
    after_push, RoundStep, SYNC_ATTEMPTS,
};

fn entry(id: u64) -> MediaEntry {
    MediaEntry {
        id,
        name: format!("Title {id}"),
        slug: String::new(),
        provider: 0,
        language: "it".into(),
        media_type: MediaType::Movie,
        alternative_names: Vec::new(),
        year: None,
        score: None,
        image_url: None,
        description: None,
    }
}

fn item(id: u64, time: f64) -> WatchItem {
    WatchItem { entry: entry(id), current_time: time.to_bits(), duration: 100.0f64.to_bits(), season: None, episode: None }
}

fn doc(rev: u64, items: Vec<(WatchItem, u64)>, prefs: Option<PlayerPrefs>) -> SyncDoc {
    let stamps = items.iter().map(|(i, s)| ((i.entry.provider, i.entry.id), *s)).collect();
    SyncDoc { rev, prefs_updated_at: 0, watch: items.into_iter().map(|(i, _)| i).collect(), stamps, prefs }
}

fn local(watch: Vec<WatchItem>, mtime: u64) -> LocalState {
    LocalState { watch, prefs: PlayerPrefs::default(), watch_mtime: mtime, prefs_mtime: 0, missing: false }
}

fn prefs(speed: u64) -> PlayerPrefs {
    PlayerPrefs { audio_lang: "it".into(), subtitle_lang: String::new(), subtitles_on: false, speed }
}

#[test]
fn local_files_read_into_state() {
    let base = doc(1, vec![], Some(prefs(2)));
    let l = read_local(FileState::Missing, FileState::Missing, &base, 5, 6).unwrap();
    assert!(l.watch.is_empty());
    assert_eq!(l.prefs.speed, 2);
    assert!(l.missing);
    assert_eq!((l.watch_mtime, l.prefs_mtime), (5, 6));
    let l = read_local(FileState::Data(vec![item(1, 1.0)]), FileState::Data(prefs(3)), &base, 5, 6).unwrap();
    assert_eq!(l.watch.len(), 1);
    assert_eq!(l.prefs.speed, 3);
    assert!(!l.missing);
    let with_items = doc(1, vec![(item(1, 1.0), 1)], None);
    assert!(read_local(FileState::Missing, FileState::Data(prefs(1)), &with_items, 0, 0).is_none());
    assert!(read_local(FileState::Unreadable, FileState::Data(prefs(1)), &base, 0, 0).is_none());
    assert!(read_local(FileState::Data(vec![]), FileState::Unreadable, &base, 0, 0).is_none());
    let l = read_local(FileState::Data(vec![]), FileState::Missing, &doc(0, vec![], None), 0, 0).unwrap();
    assert_eq!(l.prefs.speed, 0);
}

#[test]
fn file_times_never_in_the_future() {
    assert_eq!(mtime_or_now(Some(10), 20), 10);
    assert_eq!(mtime_or_now(Some(30), 20), 20);
    assert_eq!(mtime_or_now(None, 20), 20);
}

#[test]
fn comparisons() {
    assert!(items_equal(&vec![item(1, 1.0)], &vec![item(1, 1.0)]));
    assert!(!items_equal(&vec![item(1, 1.0)], &vec![item(1, 2.0)]));
    assert!(!items_equal(&vec![item(1, 1.0)], &vec![]));
    let a = vec![((0, 1), 5), ((0, 2), 6)];
    let b = vec![((0, 2), 6), ((0, 1), 5)];
    assert!(stamps_equal(&a, &b));
    assert!(stamps_equal(&vec![((0, 1), 4), ((0, 1), 5)], &vec![((0, 1), 5)]));
    assert!(!stamps_equal(&a, &vec![((0, 1), 5)]));
    assert!(!stamps_equal(&a, &vec![((0, 1), 5), ((0, 2), 7)]));
}

#[test]
fn local_change_detection() {
    let d = doc(1, vec![(item(1, 1.0), 1)], Some(PlayerPrefs::default()));
    assert!(!local_changed(&local(vec![item(1, 1.0)], 0), &d));
    assert!(local_changed(&local(vec![item(1, 2.0)], 0), &d));
    let no_prefs = doc(1, vec![(item(1, 1.0), 1)], None);
    assert!(local_changed(&local(vec![item(1, 1.0)], 0), &no_prefs));
    let mut l = local(vec![item(1, 1.0)], 0);
    l.missing = true;
    assert!(local_changed(&l, &d));
}

#[test]
fn loop_clock() {
    let mut c = SyncClock::new();
    assert!(!c.resting(0));
    assert!(c.due(100, true));
    assert_eq!(c.last_pull, 0);
    assert!(c.due(PULL_INTERVAL_MS, false));
    assert_eq!(c.last_pull, PULL_INTERVAL_MS);
    assert!(!c.due(PULL_INTERVAL_MS + 10, false));
    c.after_round(false, 1000);
    assert!(c.resting(1000 + PULL_INTERVAL_MS - 1));
    assert!(!c.resting(1000 + PULL_INTERVAL_MS));
    c.after_round(true, 5000);
    assert_eq!(c.cooldown_until, 1000 + PULL_INTERVAL_MS);
}

#[test]
fn round_sources() {
    assert!(uses_cached_remote(true, 3));
    assert!(!uses_cached_remote(true, 0));
    assert!(!uses_cached_remote(false, 3));
    assert!(uses_fresh_base(1, 2));
    assert!(!uses_fresh_base(2, 2));
}

#[test]
fn round_merges_and_flags_push() {
    let base = doc(1, vec![(item(1, 10.0), 5)], Some(PlayerPrefs::default()));
    let remote = doc(1, vec![(item(1, 10.0), 5)], Some(PlayerPrefs::default()));
    let mut ledger = Vec::new();
    let r = sync_round(&base, &mut ledger, &local(vec![item(1, 10.0)], 900), &remote);
    assert!(!r.remote_dirty);
    assert!(!r.ledger_dirty);
    assert_eq!(r.watch.len(), 1);
    let r = sync_round(&base, &mut ledger, &local(vec![item(1, 42.0)], 900), &remote);
    assert!(r.remote_dirty);
    assert!(r.ledger_dirty);
    assert_eq!(f64::from_bits(r.watch[0].current_time), 42.0);
    assert_eq!(r.stamps, vec![((0, 1), 900)]);
    assert_eq!(ledger.len(), 1);
}

#[test]
fn push_replies() {
    let d = doc(4, vec![], None);
    assert!(matches!(push_outcome(true, false, Some(d.clone())), PushOutcome::Accepted(x) if x.rev == 4));
    assert!(matches!(push_outcome(false, true, Some(d.clone())), PushOutcome::Conflict(x) if x.rev == 4));
    assert!(matches!(push_outcome(false, false, Some(d.clone())), PushOutcome::Failed));
    assert!(matches!(push_outcome(true, false, None), PushOutcome::Failed));
    assert_eq!(pulled_doc(true, Some(d.clone())).map(|x| x.rev), Some(4));
    assert!(pulled_doc(false, Some(d)).is_none());
}

#[test]
fn writing_back_local_files() {
    let l = local(vec![item(1, 1.0)], 0);
    let same = local(vec![item(1, 1.0)], 7);
    assert_eq!(local_write(&local(vec![item(1, 2.0)], 0), &l, &vec![item(1, 1.0)], &PlayerPrefs::default()), LocalWrite::Stale);
    assert_eq!(local_write(&same, &l, &vec![item(1, 1.0)], &PlayerPrefs::default()), LocalWrite::Keep);
    assert_eq!(local_write(&same, &l, &vec![item(2, 1.0)], &PlayerPrefs::default()), LocalWrite::Write { notify: true });
    let mut missing = local(vec![item(1, 1.0)], 0);
    missing.missing = true;
    assert_eq!(local_write(&same, &missing, &vec![item(1, 1.0)], &PlayerPrefs::default()), LocalWrite::Write { notify: false });
    assert!(snapshot_changed(2, 1, false));
    assert!(snapshot_changed(1, 1, true));
    assert!(!snapshot_changed(1, 1, false));
}

#[test]
fn snapshot_lives_in_the_configuration_directory() {
    let p = streamvault::sync::snapshot_path();
    assert!(p.ends_with("StreamVault/sync_snapshot.json"));
}

#[test]
fn times_compare_as_numbers() {
    assert!(items_equal(&vec![item(1, 0.0)], &vec![item(1, -0.0)]));
    assert!(!items_equal(&vec![item(1, f64::NAN)], &vec![item(1, f64::NAN)]));
    assert!(streamvault::config::f64_bits_equal(0.0f64.to_bits(), (-0.0f64).to_bits()));
    assert!(!streamvault::config::f64_bits_equal(f64::NAN.to_bits(), f64::NAN.to_bits()));
    assert!(streamvault::config::f64_bits_equal(1.5f64.to_bits(), 1.5f64.to_bits()));
    assert!(!streamvault::config::f64_bits_equal(1.5f64.to_bits(), 2.5f64.to_bits()));
    let fast = PlayerPrefs { speed: 0.0f64.to_bits(), ..PlayerPrefs::default() };
    let neg = PlayerPrefs { speed: (-0.0f64).to_bits(), ..PlayerPrefs::default() };
    assert!(fast.same_as(&neg));
    let nan = PlayerPrefs { speed: f64::NAN.to_bits(), ..PlayerPrefs::default() };
    assert!(!nan.same_as(&nan.duplicate()));
}

#[test]
fn a_round_retries_one_conflict_then_gives_up() {
    assert_eq!(SYNC_ATTEMPTS, 2);
    match after_push(0, PushOutcome::Accepted(doc(7, vec![], None))) {
        RoundStep::Apply(d) => assert_eq!(d.rev, 7),
        other => panic!("unexpected {other:?}"),
    }
    match after_push(0, PushOutcome::Conflict(doc(9, vec![], None))) {
        RoundStep::Retry(d) => assert_eq!(d.rev, 9),
        other => panic!("unexpected {other:?}"),
    }
    assert!(matches!(after_push(1, PushOutcome::Conflict(doc(10, vec![], None))), RoundStep::GiveUp { reached: true }));
    assert!(matches!(after_push(0, PushOutcome::Failed), RoundStep::GiveUp { reached: false }));
    assert!(matches!(after_push(1, PushOutcome::Failed), RoundStep::GiveUp { reached: false }));
}
