//! The steps that lead to an open change journal: the volume is opened,
//! the journal is asked for, and where it does not answer it is created,
//! once, and asked for again.
//!
//! The device requests themselves are made by the caller; the state says
//! which one is due, and takes in whether it succeeded.

use vstd::prelude::*;
use crate::volume::VolumeError;

verus! {

/// What the caller is to do next to get at a volume's journal.
#[derive(Clone, Copy, Debug, PartialEq, Eq, Structural)]
pub enum OpenAction {
    /// Open the volume for reading and writing.
    OpenReadWrite,
    /// Ask for the journal's data.
    QueryJournal,
    /// Create the journal.
    CreateJournal,
    /// Close the volume and open it again, for reading only.
    ReopenReadOnly,
    /// The journal is there: enumerate it.
    Enumerate,
    /// Give the volume up.
    GiveUp(VolumeError),
}

/// How far the opening of a volume's journal has come.
#[derive(Clone, Copy, Debug, PartialEq, Eq, Structural)]
pub enum OpenState {
    /// Nothing was done yet.
    Opening,
    /// The volume is open; the journal was not asked for yet.
    Querying,
    /// The journal could not be queried; it is being created.
    Creating,
    /// The journal was created; the volume is being opened again.
    Reopening,
    /// The volume is open again; the journal is asked for a second time.
    QueryingAgain,
    /// The journal answered.
    Ready,
    /// The volume was given up.
    Failed(VolumeError),
}

impl OpenState {
    /// The request that is due in this state.
    pub open spec fn action_spec(self) -> OpenAction {
        match self {
            OpenState::Opening => OpenAction::OpenReadWrite,
            OpenState::Querying => OpenAction::QueryJournal,
            OpenState::Creating => OpenAction::CreateJournal,
            OpenState::Reopening => OpenAction::ReopenReadOnly,
            OpenState::QueryingAgain => OpenAction::QueryJournal,
            OpenState::Ready => OpenAction::Enumerate,
            OpenState::Failed(error) => OpenAction::GiveUp(error),
        }
    }

    /// The state that follows when the request that was due succeeded
    /// (`ok`) or failed.
    pub open spec fn next_spec(self, ok: bool) -> OpenState {
        match self {
            OpenState::Opening => if ok {
                OpenState::Querying
            } else {
                OpenState::Failed(VolumeError::AccessDenied)
            },
            OpenState::Querying => if ok {
                OpenState::Ready
            } else {
                OpenState::Creating
            },
            OpenState::Creating => if ok {
                OpenState::Reopening
            } else {
                OpenState::Failed(VolumeError::UnsupportedVolume)
            },
            OpenState::Reopening => if ok {
                OpenState::QueryingAgain
            } else {
                OpenState::Failed(VolumeError::ReopenFailed)
            },
            OpenState::QueryingAgain => if ok {
                OpenState::Ready
            } else {
                OpenState::Failed(VolumeError::JournalAbsent)
            },
            OpenState::Ready => OpenState::Ready,
            OpenState::Failed(error) => OpenState::Failed(error),
        }
    }

    /// Requests that may still be made before the journal answers or the
    /// volume is given up.
    pub open spec fn steps_left(self) -> nat {
        match self {
            OpenState::Opening => 5,
            OpenState::Querying => 4,
            OpenState::Creating => 3,
            OpenState::Reopening => 2,
            OpenState::QueryingAgain => 1,
            OpenState::Ready => 0,
            OpenState::Failed(_) => 0,
        }
    }

    /// No further request is due: the journal answered, or the volume was
    /// given up.
    pub open spec fn is_final(self) -> bool {
        self is Ready || self is Failed
    }

    /// The state in which the opening of a volume starts.
    pub fn start() -> (state: OpenState)
        ensures
            state == OpenState::Opening,
    {
        OpenState::Opening
    }

    /// The request that is due.
    pub fn action(self) -> (action: OpenAction)
        ensures
            action == self.action_spec(),
    {
        match self {
            OpenState::Opening => OpenAction::OpenReadWrite,
            OpenState::Querying => OpenAction::QueryJournal,
            OpenState::Creating => OpenAction::CreateJournal,
            OpenState::Reopening => OpenAction::ReopenReadOnly,
            OpenState::QueryingAgain => OpenAction::QueryJournal,
            OpenState::Ready => OpenAction::Enumerate,
            OpenState::Failed(error) => OpenAction::GiveUp(error),
        }
    }

    /// The state after the request that was due succeeded (`ok`) or failed.
    pub fn next(self, ok: bool) -> (state: OpenState)
        ensures
            state == self.next_spec(ok),
            !self.is_final() ==> state.steps_left() < self.steps_left(),
            self.is_final() ==> state == self,
    {
        match self {
            OpenState::Opening => if ok {
                OpenState::Querying
            } else {
                OpenState::Failed(VolumeError::AccessDenied)
            },
            OpenState::Querying => if ok {
                OpenState::Ready
            } else {
                OpenState::Creating
            },
            OpenState::Creating => if ok {
                OpenState::Reopening
            } else {
                OpenState::Failed(VolumeError::UnsupportedVolume)
            },
            OpenState::Reopening => if ok {
                OpenState::QueryingAgain
            } else {
                OpenState::Failed(VolumeError::ReopenFailed)
            },
            OpenState::QueryingAgain => if ok {
                OpenState::Ready
            } else {
                OpenState::Failed(VolumeError::JournalAbsent)
            },
            OpenState::Ready => OpenState::Ready,
            OpenState::Failed(error) => OpenState::Failed(error),
        }
    }
}

/// The journal is created at most once: after a creation, whatever the
/// later requests bring, no state asks for another.
pub proof fn lemma_journal_created_once(state: OpenState, ok: bool, later: Seq<bool>)
    requires
        state == OpenState::Creating,
    ensures
        forall|n: int|
            0 <= n <= later.len() ==> #[trigger] state_after(state.next_spec(ok), later.take(n))
                != OpenState::Creating,
{
    assert forall|n: int| 0 <= n <= later.len() implies #[trigger] state_after(
        state.next_spec(ok),
        later.take(n),
    ) != OpenState::Creating by {
        lemma_steps_never_grow(state.next_spec(ok), later.take(n));
    }
}

/// The state that the outcomes of a run of requests lead to.
pub open spec fn state_after(state: OpenState, outcomes: Seq<bool>) -> OpenState
    decreases outcomes.len(),
{
    if outcomes.len() == 0 {
        state
    } else {
        state_after(state, outcomes.drop_last()).next_spec(outcomes.last())
    }
}

/// No outcome leads back: the requests that may still be made never
/// become more.
pub proof fn lemma_steps_never_grow(state: OpenState, outcomes: Seq<bool>)
    ensures
        state_after(state, outcomes).steps_left() <= state.steps_left(),
    decreases outcomes.len(),
{
    if outcomes.len() > 0 {
        lemma_steps_never_grow(state, outcomes.drop_last());
    }
}

} // verus!
