//! Reconciling one resource with its remote copy.
//!
//! The caller performs the network and file work that a step asks for and
//! hands its result back as an event; the step that follows is decided here.
use vstd::prelude::*;
use crate::errors::{in_context, ResultExtDisplay, SmallError};

verus! {

/// The hash recorded for content that no remote hash has confirmed. A run
/// that finds it recorded still asks the remote for the current hash.
pub const UNCONFIRMED_HASH: &'static str = "TEMP-HASH";

/// The context of the error when the local copy cannot be read.
pub const READ_CONTEXT: &'static str = "failed to read local content";

pub open spec fn unconfirmed() -> Seq<char> {
    UNCONFIRMED_HASH@
}

/// What to do once the remote hash has been asked for.
#[derive(Clone, Copy, Debug, PartialEq, Eq)]
pub enum Action {
    /// Serve the local copy under the recorded hash.
    UseLocal,
    /// Fetch the remote content and replace the local copy with it.
    FetchAndReplace,
    /// Serve the local copy under the unconfirmed hash.
    UseLocalWithTempHash,
}

/// The reconciliation policy, from the remote hash (`None` when it could not
/// be fetched) and the hash recorded by the last run.
pub open spec fn decision(remote: Option<Seq<char>>, local_hash: Option<Seq<char>>) -> Action {
    match remote {
        Some(r) => if local_hash == Some(r) {
            Action::UseLocal
        } else {
            Action::FetchAndReplace
        },
        None => if local_hash is Some {
            Action::UseLocal
        } else {
            Action::UseLocalWithTempHash
        },
    }
}

/// Decides how to reconcile a resource.
pub fn decide(remote: &Option<String>, local_hash: &Option<String>) -> (a: Action)
    ensures
        a == decision(remote.deep_view(), local_hash.deep_view()),
{
    match remote {
        Some(r) => match local_hash {
            Some(l) => if r.eq(l) {
                Action::UseLocal
            } else {
                Action::FetchAndReplace
            },
            None => Action::FetchAndReplace,
        },
        None => match local_hash {
            Some(_) => Action::UseLocal,
            None => Action::UseLocalWithTempHash,
        },
    }
}

/// The content served for a resource and the hash recorded with it.
#[derive(Debug)]
pub struct SyncOutcome {
    pub content: String,
    pub hash: String,
}

/// The sync of one resource, named by the work it waits for.
pub enum ResourceSync {
    /// Fetch the remote hash. `prior` is the hash recorded by the last run.
    FetchHash { prior: Option<String> },
    /// Read the local copy, to serve it under `hash`. `remote` is the remote
    /// hash when it is known: the content is then fetched if the read fails.
    ReadLocal { hash: String, remote: Option<String> },
    /// Fetch the remote content announced under `hash`. `read_error` is the
    /// error of an earlier read of the local copy, if one failed.
    FetchContent { hash: String, read_error: Option<String> },
    /// Overwrite the local copy with `content`, then record `hash`.
    WriteLocal { content: String, hash: String },
    /// The sync is over.
    Finished(Result<SyncOutcome, SmallError>),
}

/// The result of the work that a step asked for.
pub enum SyncEvent {
    /// The remote hash, or `None` when it could not be fetched.
    HashFetched(Option<String>),
    /// The local copy, or the error that reading it gave.
    LocalRead(Result<String, String>),
    /// The remote content, or `None` when it could not be fetched.
    ContentFetched(Option<String>),
    /// Whether the local copy was written, or the error that writing gave.
    Written(Result<(), String>),
}

/// The abstract state of a sync.
pub enum SyncState {
    FetchHash { prior: Option<Seq<char>> },
    ReadLocal { hash: Seq<char>, remote: Option<Seq<char>> },
    FetchContent { hash: Seq<char>, read_error: Option<Seq<char>> },
    WriteLocal { content: Seq<char>, hash: Seq<char> },
    /// The content and hash served, or the message of the error.
    Finished(Result<(Seq<char>, Seq<char>), Seq<char>>),
}

/// The abstract result of a piece of work.
pub enum SyncInput {
    HashFetched(Option<Seq<char>>),
    LocalRead(Result<Seq<char>, Seq<char>>),
    ContentFetched(Option<Seq<char>>),
    Written(Result<(), Seq<char>>),
}

pub open spec fn outcome_view(r: Result<SyncOutcome, SmallError>) -> Result<(Seq<char>, Seq<char>), Seq<char>> {
    match r {
        Ok(o) => Ok((o.content@, o.hash@)),
        Err(e) => Err(e@),
    }
}

impl View for ResourceSync {
    type V = SyncState;

    open spec fn view(&self) -> SyncState {
        match self {
            ResourceSync::FetchHash { prior } => SyncState::FetchHash { prior: prior.deep_view() },
            ResourceSync::ReadLocal { hash, remote } => SyncState::ReadLocal {
                hash: hash@,
                remote: remote.deep_view(),
            },
            ResourceSync::FetchContent { hash, read_error } => SyncState::FetchContent {
                hash: hash@,
                read_error: read_error.deep_view(),
            },
            ResourceSync::WriteLocal { content, hash } => SyncState::WriteLocal {
                content: content@,
                hash: hash@,
            },
            ResourceSync::Finished(r) => SyncState::Finished(outcome_view(*r)),
        }
    }
}

impl View for SyncEvent {
    type V = SyncInput;

    open spec fn view(&self) -> SyncInput {
        match self {
            SyncEvent::HashFetched(h) => SyncInput::HashFetched(h.deep_view()),
            SyncEvent::LocalRead(r) => SyncInput::LocalRead(
                match r {
                    Ok(c) => Ok(c@),
                    Err(e) => Err(e@),
                },
            ),
            SyncEvent::ContentFetched(c) => SyncInput::ContentFetched(c.deep_view()),
            SyncEvent::Written(w) => SyncInput::Written(
                match w {
                    Ok(_) => Ok(()),
                    Err(e) => Err(e@),
                },
            ),
        }
    }
}

/// The error that ends a sync when the local copy cannot be read and no
/// remote content replaces it.
pub open spec fn read_failure(error: Seq<char>) -> SyncState {
    SyncState::Finished(Err(in_context(READ_CONTEXT@, error)))
}

/// The state that follows `s` once `e` comes in. An input that `s` does not
/// wait for leaves it as it is.
pub open spec fn next_state(s: SyncState, e: SyncInput) -> SyncState {
    match (s, e) {
        (SyncState::FetchHash { prior }, SyncInput::HashFetched(remote)) => match decision(
            remote,
            prior,
        ) {
            Action::UseLocal => SyncState::ReadLocal {
                hash: if remote is Some {
                    remote->0
                } else {
                    prior->0
                },
                remote,
            },
            Action::FetchAndReplace => SyncState::FetchContent {
                hash: remote->0,
                read_error: None,
            },
            Action::UseLocalWithTempHash => SyncState::ReadLocal {
                hash: unconfirmed(),
                remote: None,
            },
        },
        (SyncState::ReadLocal { hash, remote }, SyncInput::LocalRead(read)) => match read {
            Ok(content) => SyncState::Finished(Ok((content, hash))),
            Err(error) => match remote {
                Some(r) => SyncState::FetchContent { hash: r, read_error: Some(error) },
                None => read_failure(error),
            },
        },
        (SyncState::FetchContent { hash, read_error }, SyncInput::ContentFetched(fetched)) => {
            match fetched {
                Some(content) => SyncState::WriteLocal { content, hash },
                None => match read_error {
                    Some(error) => read_failure(error),
                    None => SyncState::ReadLocal { hash: unconfirmed(), remote: None },
                },
            }
        },
        (SyncState::WriteLocal { content, hash }, SyncInput::Written(written)) => match written {
            Ok(_) => SyncState::Finished(Ok((content, hash))),
            Err(_) => SyncState::Finished(Ok((content, unconfirmed()))),
        },
        _ => s,
    }
}

impl ResourceSync {
    /// A sync of a resource whose last run recorded `prior`.
    pub fn start(prior: Option<String>) -> (s: Self)
        ensures
            s@ == (SyncState::FetchHash { prior: prior.deep_view() }),
    {
        ResourceSync::FetchHash { prior }
    }

    /// Whether the sync is over.
    pub fn is_finished(&self) -> (b: bool)
        ensures
            b == (self@ is Finished),
    {
        match self {
            ResourceSync::Finished(_) => true,
            _ => false,
        }
    }

    /// The outcome of a sync that is over.
    pub fn into_outcome(self) -> (r: Option<Result<SyncOutcome, SmallError>>)
        ensures
            match self@ {
                SyncState::Finished(o) => r matches Some(x) && outcome_view(x) == o,
                _ => r is None,
            },
    {
        match self {
            ResourceSync::Finished(r) => Some(r),
            _ => None,
        }
    }

    /// The step that follows once `event` comes in.
    pub fn advance(self, event: SyncEvent) -> (next: Self)
        ensures
            next@ == next_state(self@, event@),
    {
        match (self, event) {
            (ResourceSync::FetchHash { prior }, SyncEvent::HashFetched(remote)) => {
                let action = decide(&remote, &prior);
                match (action, remote, prior) {
                    (Action::FetchAndReplace, Some(r), _) => ResourceSync::FetchContent {
                        hash: r,
                        read_error: None,
                    },
                    (Action::UseLocal, Some(r), _) => ResourceSync::ReadLocal {
                        hash: r.clone(),
                        remote: Some(r),
                    },
                    (Action::UseLocal, None, Some(p)) => ResourceSync::ReadLocal {
                        hash: p,
                        remote: None,
                    },
                    _ => ResourceSync::ReadLocal {
                        hash: UNCONFIRMED_HASH.to_owned(),
                        remote: None,
                    },
                }
            },
            (ResourceSync::ReadLocal { hash, remote }, SyncEvent::LocalRead(read)) => match read {
                Ok(content) => ResourceSync::Finished(Ok(SyncOutcome { content, hash })),
                Err(error) => match remote {
                    Some(r) => ResourceSync::FetchContent { hash: r, read_error: Some(error) },
                    None => ResourceSync::Finished(read_error(error)),
                },
            },
            (
                ResourceSync::FetchContent { hash, read_error: earlier },
                SyncEvent::ContentFetched(fetched),
            ) => match fetched {
                Some(content) => ResourceSync::WriteLocal { content, hash },
                None => match earlier {
                    Some(error) => ResourceSync::Finished(read_error(error)),
                    None => ResourceSync::ReadLocal {
                        hash: UNCONFIRMED_HASH.to_owned(),
                        remote: None,
                    },
                },
            },
            (ResourceSync::WriteLocal { content, hash }, SyncEvent::Written(written)) => {
                match written {
                    Ok(_) => ResourceSync::Finished(Ok(SyncOutcome { content, hash })),
                    Err(_) => ResourceSync::Finished(
                        Ok(SyncOutcome { content, hash: UNCONFIRMED_HASH.to_owned() }),
                    ),
                }
            },
            (s, _) => s,
        }
    }
}

/// The failed outcome for a local copy that could not be read.
fn read_error(error: String) -> (r: Result<SyncOutcome, SmallError>)
    ensures
        outcome_view(r) == Err::<(Seq<char>, Seq<char>), Seq<char>>(in_context(READ_CONTEXT@, error@)),
{
    let failed: Result<SyncOutcome, String> = Err(error);
    failed.context(READ_CONTEXT)
}

/// The state reached from `s` once `inputs` have come in, in order.
pub open spec fn run(s: SyncState, inputs: Seq<SyncInput>) -> SyncState
    decreases inputs.len(),
{
    if inputs.len() == 0 {
        s
    } else {
        run(next_state(s, inputs[0]), inputs.drop_first())
    }
}

/// When the remote hash equals the recorded one, the next step reads the
/// local copy rather than fetching content, and the sync serves that copy
/// unchanged under the same hash.
pub proof fn lemma_matching_hash_serves_local(hash: Seq<char>, content: Seq<char>)
    ensures
        ({
            let checked = next_state(
                SyncState::FetchHash { prior: Some(hash) },
                SyncInput::HashFetched(Some(hash)),
            );
            &&& checked == (SyncState::ReadLocal { hash, remote: Some(hash) })
            &&& next_state(checked, SyncInput::LocalRead(Ok(content))) == SyncState::Finished(
                Ok((content, hash)),
            )
        }),
{
}

/// When the remote hash differs from the recorded one, or none is recorded,
/// and the content is fetched, the local copy is overwritten with it and the
/// remote hash becomes the recorded one.
pub proof fn lemma_changed_hash_replaces_local(
    prior: Option<Seq<char>>,
    remote: Seq<char>,
    content: Seq<char>,
)
    requires
        prior != Some(remote),
    ensures
        ({
            let checked = next_state(
                SyncState::FetchHash { prior },
                SyncInput::HashFetched(Some(remote)),
            );
            let fetched = next_state(checked, SyncInput::ContentFetched(Some(content)));
            &&& checked == (SyncState::FetchContent { hash: remote, read_error: None })
            &&& fetched == (SyncState::WriteLocal { content, hash: remote })
            &&& next_state(fetched, SyncInput::Written(Ok(()))) == SyncState::Finished(
                Ok((content, remote)),
            )
        }),
{
}

/// The inputs of a run in which the remote hash cannot be fetched and the
/// local copy reads as `content`.
pub open spec fn offline_run(content: Seq<char>) -> Seq<SyncInput> {
    seq![SyncInput::HashFetched(None), SyncInput::LocalRead(Ok(content))]
}

/// When the remote hash cannot be fetched but a hash is recorded and the
/// local copy reads, the sync serves that copy and keeps the recorded hash;
/// so a run that fails the same way again ends the same way.
pub proof fn lemma_unreachable_remote_keeps_hash(hash: Seq<char>, content: Seq<char>)
    ensures
        run(SyncState::FetchHash { prior: Some(hash) }, offline_run(content))
            == SyncState::Finished(Ok((content, hash))),
{
    reveal_with_fuel(run, 3);
    assert(offline_run(content).drop_first().drop_first().len() == 0);
}

/// With neither a remote hash nor a recorded one, the sync serves the local
/// copy under the unconfirmed hash; a second such run serves the same
/// content and still records the unconfirmed hash.
pub proof fn lemma_offline_runs_stay_unconfirmed(content: Seq<char>)
    ensures
        run(SyncState::FetchHash { prior: None }, offline_run(content)) == SyncState::Finished(
            Ok((content, unconfirmed())),
        ),
        run(SyncState::FetchHash { prior: Some(unconfirmed()) }, offline_run(content))
            == SyncState::Finished(Ok((content, unconfirmed()))),
{
    reveal_with_fuel(run, 3);
    assert(offline_run(content).drop_first().drop_first().len() == 0);
}

/// The hash that a sync which cannot reach the remote serves under: the
/// recorded one, or the unconfirmed hash when none is recorded.
pub open spec fn offline_hash(prior: Option<Seq<char>>) -> Seq<char> {
    match prior {
        Some(p) => p,
        None => unconfirmed(),
    }
}

/// The states a sync can be in once it found the remote hash unreachable,
/// when it serves under `hash`.
pub open spec fn stays_offline(s: SyncState, hash: Seq<char>) -> bool {
    match s {
        SyncState::ReadLocal { hash: h, remote } => h == hash && remote is None,
        SyncState::Finished(Ok((_, h))) => h == hash,
        SyncState::Finished(Err(_)) => true,
        _ => false,
    }
}

proof fn lemma_offline_closed(s: SyncState, hash: Seq<char>, inputs: Seq<SyncInput>)
    requires
        stays_offline(s, hash),
    ensures
        stays_offline(run(s, inputs), hash),
    decreases inputs.len(),
{
    if inputs.len() > 0 {
        lemma_offline_closed(next_state(s, inputs[0]), hash, inputs.drop_first());
    }
}

/// A sync whose remote hash cannot be fetched never confirms a hash on its
/// own: whatever comes in afterwards, if it serves content, it serves it
/// under the recorded hash, or under the unconfirmed hash when none is
/// recorded.
pub proof fn lemma_unreachable_remote_never_confirms(
    prior: Option<Seq<char>>,
    inputs: Seq<SyncInput>,
)
    requires
        inputs.len() > 0,
        inputs[0] == SyncInput::HashFetched(None),
    ensures
        run(SyncState::FetchHash { prior }, inputs) matches SyncState::Finished(Ok((_, h))) ==> h
            == offline_hash(prior),
{
    let checked = next_state(SyncState::FetchHash { prior }, inputs[0]);
    assert(stays_offline(checked, offline_hash(prior)));
    lemma_offline_closed(checked, offline_hash(prior), inputs.drop_first());
}

} // verus!
