use gel_point::coordinator::next_snapshot;
use gel_point::errors::SmallError;
use gel_point::sync::{decide, Action, ResourceSync, SyncEvent, SyncOutcome, UNCONFIRMED_HASH};

fn s(text: &str) -> String {
    text.to_string()
}

/// Drives a sync with the given events and returns its outcome.
fn drive(prior: Option<&str>, events: Vec<SyncEvent>) -> ResourceSync {
    let mut sync = ResourceSync::start(prior.map(s));
    for event in events {
        sync = sync.advance(event);
    }
    sync
}

fn finished(sync: ResourceSync) -> Result<(String, String), String> {
    match sync.into_outcome() {
        Some(Ok(o)) => Ok((o.content, o.hash)),
        Some(Err(e)) => Err(e.message().to_string()),
        None => panic!("the sync is not over"),
    }
}

#[test]
fn policy_truth_table() {
    assert_eq!(decide(&Some(s("h")), &Some(s("h"))), Action::UseLocal);
    assert_eq!(decide(&Some(s("h")), &Some(s("g"))), Action::FetchAndReplace);
    assert_eq!(decide(&Some(s("h")), &None), Action::FetchAndReplace);
    assert_eq!(decide(&None, &Some(s("g"))), Action::UseLocal);
    assert_eq!(decide(&None, &None), Action::UseLocalWithTempHash);
}

#[test]
fn matching_hash_reads_local_without_fetching() {
    let sync = ResourceSync::start(Some(s("h1")));
    let sync = sync.advance(SyncEvent::HashFetched(Some(s("h1"))));
    assert!(matches!(sync, ResourceSync::ReadLocal { .. }));
    let sync = sync.advance(SyncEvent::LocalRead(Ok(s("local words"))));
    assert!(sync.is_finished());
    assert_eq!(finished(sync), Ok((s("local words"), s("h1"))));
}

#[test]
fn changed_hash_fetches_and_writes() {
    let sync = drive(Some("old"), vec![SyncEvent::HashFetched(Some(s("new")))]);
    assert!(matches!(sync, ResourceSync::FetchContent { .. }));
    let sync = sync.advance(SyncEvent::ContentFetched(Some(s("fresh"))));
    match &sync {
        ResourceSync::WriteLocal { content, hash } => {
            assert_eq!(content, "fresh");
            assert_eq!(hash, "new");
        }
        _ => panic!("expected a write of the local copy"),
    }
    let sync = sync.advance(SyncEvent::Written(Ok(())));
    assert_eq!(finished(sync), Ok((s("fresh"), s("new"))));
}

#[test]
fn first_run_with_network_fetches() {
    let sync = drive(
        None,
        vec![
            SyncEvent::HashFetched(Some(s("h"))),
            SyncEvent::ContentFetched(Some(s("body"))),
            SyncEvent::Written(Ok(())),
        ],
    );
    assert_eq!(finished(sync), Ok((s("body"), s("h"))));
}

#[test]
fn content_fetch_failure_falls_back_to_local() {
    let sync = drive(
        Some("old"),
        vec![SyncEvent::HashFetched(Some(s("new"))), SyncEvent::ContentFetched(None)],
    );
    assert!(matches!(sync, ResourceSync::ReadLocal { .. }));
    let sync = sync.advance(SyncEvent::LocalRead(Ok(s("stale"))));
    assert_eq!(finished(sync), Ok((s("stale"), s(UNCONFIRMED_HASH))));
}

#[test]
fn unreachable_remote_keeps_recorded_hash() {
    let events = || vec![SyncEvent::HashFetched(None), SyncEvent::LocalRead(Ok(s("cached")))];
    let first = finished(drive(Some("h7"), events())).unwrap();
    assert_eq!(first, (s("cached"), s("h7")));
    let second = finished(drive(Some(&first.1), events())).unwrap();
    assert_eq!(second, first);
}

#[test]
fn offline_first_run_records_unconfirmed_hash() {
    let events = || vec![SyncEvent::HashFetched(None), SyncEvent::LocalRead(Ok(s("bundled")))];
    let first = finished(drive(None, events())).unwrap();
    assert_eq!(first, (s("bundled"), s("TEMP-HASH")));
    let second = finished(drive(Some(&first.1), events())).unwrap();
    assert_eq!(second, (s("bundled"), s("TEMP-HASH")));
}

#[test]
fn unconfirmed_hash_is_replaced_once_online() {
    let sync = drive(
        Some(UNCONFIRMED_HASH),
        vec![
            SyncEvent::HashFetched(Some(s("real"))),
            SyncEvent::ContentFetched(Some(s("body"))),
            SyncEvent::Written(Ok(())),
        ],
    );
    assert_eq!(finished(sync), Ok((s("body"), s("real"))));
}

#[test]
fn no_remote_and_no_local_fails() {
    let sync = drive(
        None,
        vec![SyncEvent::HashFetched(None), SyncEvent::LocalRead(Err(s("not found")))],
    );
    assert_eq!(finished(sync), Err(s("failed to read local content: not found")));
}

#[test]
fn failed_fetch_and_missing_local_fails() {
    let sync = drive(
        Some("old"),
        vec![
            SyncEvent::HashFetched(Some(s("new"))),
            SyncEvent::ContentFetched(None),
            SyncEvent::LocalRead(Err(s("gone"))),
        ],
    );
    assert_eq!(finished(sync), Err(s("failed to read local content: gone")));
}

#[test]
fn unreadable_local_copy_is_fetched_again() {
    let sync = drive(
        Some("h"),
        vec![SyncEvent::HashFetched(Some(s("h"))), SyncEvent::LocalRead(Err(s("deleted")))],
    );
    assert!(matches!(sync, ResourceSync::FetchContent { .. }));
    let sync = sync.advance(SyncEvent::ContentFetched(Some(s("again"))));
    let sync = sync.advance(SyncEvent::Written(Ok(())));
    assert_eq!(finished(sync), Ok((s("again"), s("h"))));
}

#[test]
fn unreadable_local_copy_and_failed_fetch_fails() {
    let sync = drive(
        Some("h"),
        vec![
            SyncEvent::HashFetched(Some(s("h"))),
            SyncEvent::LocalRead(Err(s("deleted"))),
            SyncEvent::ContentFetched(None),
        ],
    );
    assert_eq!(finished(sync), Err(s("failed to read local content: deleted")));
}

#[test]
fn failed_write_serves_content_unconfirmed() {
    let sync = drive(
        None,
        vec![
            SyncEvent::HashFetched(Some(s("h"))),
            SyncEvent::ContentFetched(Some(s("body"))),
            SyncEvent::Written(Err(s("disk full"))),
        ],
    );
    assert_eq!(finished(sync), Ok((s("body"), s(UNCONFIRMED_HASH))));
}

#[test]
fn unexpected_event_leaves_step_unchanged() {
    let sync = ResourceSync::start(None).advance(SyncEvent::Written(Ok(())));
    assert!(matches!(sync, ResourceSync::FetchHash { prior: None }));
    let done = drive(None, vec![SyncEvent::HashFetched(None), SyncEvent::LocalRead(Ok(s("c")))]);
    let still = done.advance(SyncEvent::HashFetched(Some(s("x"))));
    assert_eq!(finished(still), Ok((s("c"), s(UNCONFIRMED_HASH))));
}

#[test]
fn failing_resource_leaves_other_intact() {
    let words = finished(drive(
        Some("w0"),
        vec![
            SyncEvent::HashFetched(Some(s("w1"))),
            SyncEvent::ContentFetched(Some(s("apple"))),
            SyncEvent::Written(Ok(())),
        ],
    ));
    let puzzles = drive(
        None,
        vec![SyncEvent::HashFetched(None), SyncEvent::LocalRead(Err(s("missing")))],
    );
    assert_eq!(words, Ok((s("apple"), s("w1"))));
    let words_outcome: Result<SyncOutcome, SmallError> =
        Ok(SyncOutcome { content: s("apple"), hash: s("w1") });
    let puzzles_outcome = puzzles.into_outcome().unwrap();
    assert!(puzzles_outcome.is_err());
    let snap = next_snapshot(&words_outcome, &puzzles_outcome);
    assert_eq!(snap.words, "w1");
    assert_eq!(snap.puzzles, UNCONFIRMED_HASH);
    assert_eq!(snap.to_text(), "w1,TEMP-HASH");
}
