//! Brick removal, a guarded two-phase flow. The operator picks a volume; if
//! its `cluster.force-migration` option is on, removal risks corrupting data
//! and needs a second confirmation; the operator then picks a brick and
//! confirms it by name. Only `remove-brick ... start` is ever issued here:
//! `commit` is left to the operator, once the data has migrated off.

use vstd::prelude::*;

verus! {

/// Where a removal stands.
pub enum RemovalState {
    /// The operator is choosing a volume.
    SelectingVolume,
    /// The volume's `cluster.force-migration` option is being read.
    CheckingMigrationFlag { volume: String },
    /// The option is on: the operator was warned and must confirm again.
    ConfirmingForceMigration { volume: String },
    /// The operator is choosing a brick of the volume.
    SelectingBrick { volume: String },
    /// The operator must confirm the removal of this brick.
    ConfirmingRemoval { volume: String, brick: String },
    /// `remove-brick <volume> <brick> start` was issued.
    StartIssued { volume: String, brick: String },
    /// The removal was given up; nothing more happens.
    Aborted,
    /// The flow is over.
    Finished,
}

/// What the console reports back to the flow.
pub enum RemovalEvent {
    /// The operator chose this volume.
    VolumeChosen(String),
    /// The value of `cluster.force-migration`, if it could be read.
    MigrationFlag(Option<bool>),
    /// The operator chose this brick.
    BrickChosen(String),
    /// The operator answered yes.
    Confirmed,
    /// The operator answered no, or chose to leave.
    Declined,
    /// Whether `remove-brick ... start` succeeded.
    StartResult(bool),
}

/// What the console does next.
pub enum RemovalAction {
    /// Run `volume get <volume> cluster.force-migration` and report the value.
    QueryMigrationFlag { volume: String },
    /// Warn that force-migration is on and ask again; the default is no.
    WarnForceMigration { volume: String },
    /// Show the volume's bricks for the operator to choose one; `caution`
    /// says that the option could not be read and the flow goes on anyway.
    ChooseBrick { volume: String, caution: bool },
    /// Ask the operator to confirm removing `brick` from `volume`.
    ConfirmRemoval { volume: String, brick: String },
    /// Run `volume remove-brick <volume> <brick> start`.
    IssueRemoveStart { volume: String, brick: String },
    /// Tell the operator the `commit` command to run once migration is over.
    ShowCommit { volume: String, brick: String },
    /// Report that the start failed.
    ReportStartFailed { volume: String, brick: String },
    /// Report that the removal was given up.
    ReportAborted,
    /// Nothing to do.
    Nothing,
}

/// The transition of the removal flow on one event. An event that does not
/// fit the state changes nothing.
pub open spec fn removal_step(s: RemovalState, e: RemovalEvent) -> (RemovalState, RemovalAction) {
    match s {
        RemovalState::SelectingVolume => match e {
            RemovalEvent::VolumeChosen(v) => (
                RemovalState::CheckingMigrationFlag { volume: v },
                RemovalAction::QueryMigrationFlag { volume: v },
            ),
            RemovalEvent::Declined => (RemovalState::Aborted, RemovalAction::ReportAborted),
            _ => (s, RemovalAction::Nothing),
        },
        RemovalState::CheckingMigrationFlag { volume } => match e {
            RemovalEvent::MigrationFlag(Some(true)) => (
                RemovalState::ConfirmingForceMigration { volume },
                RemovalAction::WarnForceMigration { volume },
            ),
            RemovalEvent::MigrationFlag(flag) => (
                RemovalState::SelectingBrick { volume },
                RemovalAction::ChooseBrick { volume, caution: flag is None },
            ),
            _ => (s, RemovalAction::Nothing),
        },
        RemovalState::ConfirmingForceMigration { volume } => match e {
            RemovalEvent::Confirmed => (
                RemovalState::SelectingBrick { volume },
                RemovalAction::ChooseBrick { volume, caution: false },
            ),
            RemovalEvent::Declined => (RemovalState::Aborted, RemovalAction::ReportAborted),
            _ => (s, RemovalAction::Nothing),
        },
        RemovalState::SelectingBrick { volume } => match e {
            RemovalEvent::BrickChosen(b) => (
                RemovalState::ConfirmingRemoval { volume, brick: b },
                RemovalAction::ConfirmRemoval { volume, brick: b },
            ),
            RemovalEvent::Declined => (RemovalState::Aborted, RemovalAction::ReportAborted),
            _ => (s, RemovalAction::Nothing),
        },
        RemovalState::ConfirmingRemoval { volume, brick } => match e {
            RemovalEvent::Confirmed => (
                RemovalState::StartIssued { volume, brick },
                RemovalAction::IssueRemoveStart { volume, brick },
            ),
            RemovalEvent::Declined => (RemovalState::Aborted, RemovalAction::ReportAborted),
            _ => (s, RemovalAction::Nothing),
        },
        RemovalState::StartIssued { volume, brick } => match e {
            RemovalEvent::StartResult(true) => (
                RemovalState::Finished,
                RemovalAction::ShowCommit { volume, brick },
            ),
            RemovalEvent::StartResult(false) => (
                RemovalState::Finished,
                RemovalAction::ReportStartFailed { volume, brick },
            ),
            _ => (s, RemovalAction::Nothing),
        },
        RemovalState::Aborted => (s, RemovalAction::Nothing),
        RemovalState::Finished => (s, RemovalAction::Nothing),
    }
}

/// The actions taken on a run of events from state `s`.
pub open spec fn removal_actions(s: RemovalState, events: Seq<RemovalEvent>) -> Seq<RemovalAction>
    decreases events.len(),
{
    if events.len() == 0 {
        seq![]
    } else {
        let (next, action) = removal_step(s, events[0]);
        seq![action] + removal_actions(next, events.drop_first())
    }
}

impl RemovalState {
    /// Whether the flow has ended.
    pub open spec fn spec_is_terminal(&self) -> bool {
        self is Aborted || self is Finished
    }

    /// Whether the flow has ended.
    #[verifier::when_used_as_spec(spec_is_terminal)]
    pub fn is_terminal(&self) -> (r: bool)
        ensures
            r == self.spec_is_terminal(),
    {
        match self {
            RemovalState::Aborted | RemovalState::Finished => true,
            _ => false,
        }
    }

    /// The state and action that follow `e`.
    pub fn step(self, e: RemovalEvent) -> (r: (RemovalState, RemovalAction))
        ensures
            r == removal_step(self, e),
    {
        match self {
            RemovalState::SelectingVolume => match e {
                RemovalEvent::VolumeChosen(v) => {
                    let a = v.clone();
                    (RemovalState::CheckingMigrationFlag { volume: v }, RemovalAction::QueryMigrationFlag { volume: a })
                },
                RemovalEvent::Declined => (RemovalState::Aborted, RemovalAction::ReportAborted),
                _ => (RemovalState::SelectingVolume, RemovalAction::Nothing),
            },
            RemovalState::CheckingMigrationFlag { volume } => match e {
                RemovalEvent::MigrationFlag(Some(true)) => {
                    let a = volume.clone();
                    (RemovalState::ConfirmingForceMigration { volume }, RemovalAction::WarnForceMigration { volume: a })
                },
                RemovalEvent::MigrationFlag(flag) => {
                    let a = volume.clone();
                    (
                        RemovalState::SelectingBrick { volume },
                        RemovalAction::ChooseBrick { volume: a, caution: flag.is_none() },
                    )
                },
                _ => (RemovalState::CheckingMigrationFlag { volume }, RemovalAction::Nothing),
            },
            RemovalState::ConfirmingForceMigration { volume } => match e {
                RemovalEvent::Confirmed => {
                    let a = volume.clone();
                    (RemovalState::SelectingBrick { volume }, RemovalAction::ChooseBrick { volume: a, caution: false })
                },
                RemovalEvent::Declined => (RemovalState::Aborted, RemovalAction::ReportAborted),
                _ => (RemovalState::ConfirmingForceMigration { volume }, RemovalAction::Nothing),
            },
            RemovalState::SelectingBrick { volume } => match e {
                RemovalEvent::BrickChosen(b) => {
                    let a = volume.clone();
                    let ab = b.clone();
                    (
                        RemovalState::ConfirmingRemoval { volume, brick: b },
                        RemovalAction::ConfirmRemoval { volume: a, brick: ab },
                    )
                },
                RemovalEvent::Declined => (RemovalState::Aborted, RemovalAction::ReportAborted),
                _ => (RemovalState::SelectingBrick { volume }, RemovalAction::Nothing),
            },
            RemovalState::ConfirmingRemoval { volume, brick } => match e {
                RemovalEvent::Confirmed => {
                    let a = volume.clone();
                    let ab = brick.clone();
                    (
                        RemovalState::StartIssued { volume, brick },
                        RemovalAction::IssueRemoveStart { volume: a, brick: ab },
                    )
                },
                RemovalEvent::Declined => (RemovalState::Aborted, RemovalAction::ReportAborted),
                _ => (RemovalState::ConfirmingRemoval { volume, brick }, RemovalAction::Nothing),
            },
            RemovalState::StartIssued { volume, brick } => match e {
                RemovalEvent::StartResult(true) => (
                    RemovalState::Finished,
                    RemovalAction::ShowCommit { volume, brick },
                ),
                RemovalEvent::StartResult(false) => (
                    RemovalState::Finished,
                    RemovalAction::ReportStartFailed { volume, brick },
                ),
                _ => (RemovalState::StartIssued { volume, brick }, RemovalAction::Nothing),
            },
            RemovalState::Aborted => (RemovalState::Aborted, RemovalAction::Nothing),
            RemovalState::Finished => (RemovalState::Finished, RemovalAction::Nothing),
        }
    }
}

/// Once a removal is aborted, no event makes it do anything.
pub proof fn lemma_aborted_is_final(events: Seq<RemovalEvent>)
    ensures
        forall|i: int|
            0 <= i < removal_actions(RemovalState::Aborted, events).len() ==> #[trigger] removal_actions(
                RemovalState::Aborted,
                events,
            )[i] is Nothing,
    decreases events.len(),
{
    if events.len() > 0 {
        lemma_aborted_is_final(events.drop_first());
    }
}

/// When force-migration is on and the operator declines the second
/// confirmation, no `remove-brick ... start` is issued, whatever follows.
pub proof fn lemma_declined_force_migration_never_starts(volume: String, later: Seq<RemovalEvent>)
    ensures
        forall|i: int|
            0 <= i < removal_actions(
                RemovalState::ConfirmingForceMigration { volume },
                seq![RemovalEvent::Declined] + later,
            ).len() ==> !(#[trigger] removal_actions(
                RemovalState::ConfirmingForceMigration { volume },
                seq![RemovalEvent::Declined] + later,
            )[i] is IssueRemoveStart),
{
    let events = seq![RemovalEvent::Declined] + later;
    assert(events.drop_first() =~= later);
    lemma_aborted_is_final(later);
}

} // verus!
