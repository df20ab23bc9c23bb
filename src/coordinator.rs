//! Joining the syncs of the tracked resources: the hashes they start from
//! and the snapshot written once all of them are over.
use vstd::prelude::*;
use crate::errors::SmallError;
use crate::snapshot::{parse_hash_snapshot, snapshot_of, HashSnapshot};
use crate::sync::{outcome_view, unconfirmed, SyncOutcome, UNCONFIRMED_HASH};

verus! {

/// The hash to record for a resource once its sync is over: the hash its
/// content was served under, or the unconfirmed hash when the sync failed.
pub open spec fn recorded_hash(outcome: Result<(Seq<char>, Seq<char>), Seq<char>>) -> Seq<char> {
    match outcome {
        Ok((_, hash)) => hash,
        Err(_) => unconfirmed(),
    }
}

/// The snapshot written after the syncs that ended in `words` and `puzzles`.
pub open spec fn snapshot_after(
    words: Result<(Seq<char>, Seq<char>), Seq<char>>,
    puzzles: Result<(Seq<char>, Seq<char>), Seq<char>>,
) -> (Seq<char>, Seq<char>) {
    (recorded_hash(words), recorded_hash(puzzles))
}

/// The hashes that the syncs start from, given the text of the persisted
/// snapshot, or `None` when there is none to read.
pub open spec fn priors_of(text: Option<Seq<char>>) -> (Option<Seq<char>>, Option<Seq<char>>) {
    match text {
        Some(t) => match snapshot_of(t) {
            Some((words, puzzles)) => (Some(words), Some(puzzles)),
            None => (None, None),
        },
        None => (None, None),
    }
}

fn recorded(outcome: &Result<SyncOutcome, SmallError>) -> (hash: String)
    ensures
        hash@ == recorded_hash(outcome_view(*outcome)),
{
    match outcome {
        Ok(o) => o.hash.clone(),
        Err(_) => UNCONFIRMED_HASH.to_owned(),
    }
}

/// The snapshot to persist once the sync of every resource is over.
pub fn next_snapshot(
    words: &Result<SyncOutcome, SmallError>,
    puzzles: &Result<SyncOutcome, SmallError>,
) -> (s: HashSnapshot)
    ensures
        s@ == snapshot_after(outcome_view(*words), outcome_view(*puzzles)),
{
    HashSnapshot { words: recorded(words), puzzles: recorded(puzzles) }
}

/// The hashes recorded by the last run: those of the persisted snapshot, or
/// none when it is missing, empty or malformed.
pub fn prior_hashes(text: Option<String>) -> (r: (Option<String>, Option<String>))
    ensures
        (r.0.deep_view(), r.1.deep_view()) == priors_of(text.deep_view()),
{
    match text {
        Some(t) => match parse_hash_snapshot(t.as_str()) {
            Some(s) => (Some(s.words), Some(s.puzzles)),
            None => (None, None),
        },
        None => (None, None),
    }
}

/// The entry of each resource in the next snapshot depends on the outcome
/// of its own sync alone: whatever happens to the other resource leaves it
/// as it is.
pub proof fn lemma_snapshot_entries_independent(
    words: Result<(Seq<char>, Seq<char>), Seq<char>>,
    puzzles: Result<(Seq<char>, Seq<char>), Seq<char>>,
    other_words: Result<(Seq<char>, Seq<char>), Seq<char>>,
    other_puzzles: Result<(Seq<char>, Seq<char>), Seq<char>>,
)
    ensures
        snapshot_after(words, puzzles).0 == snapshot_after(words, other_puzzles).0,
        snapshot_after(words, puzzles).1 == snapshot_after(other_words, puzzles).1,
{
}

} // verus!
