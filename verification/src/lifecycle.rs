//! The course of one file through a run.
//!
//! A file is discovered, passes or fails the filter, and is then either
//! reported (in a dry run) or transferred, with a bounded number of attempts.
//! The steps that touch the file system are not taken here: `step` says what
//! to do next, the caller does it and comes back with what happened.

use vstd::prelude::*;
use crate::config::{Configuration, ConfigurationView};
use crate::entry::{FileEntry, FileEntryView};
use crate::filter::{accepted, accepts};
use crate::transfer::{
    destination_of, plan, plan_of, Failure, TransferPlan, TransferPlanView,
};

verus! {

/// How often a transfer is tried before the file is given up.
pub const MAX_ATTEMPTS: u8 = 3;

/// How long to wait before an attempt that follows a failed one, in seconds.
pub const RETRY_DELAY_SECONDS: u64 = 1;

/// Where a file stands.
#[derive(Debug, Clone, Copy, PartialEq, Eq, Structural)]
pub enum FileState {
    /// Found by the traversal; the filter has not seen it yet.
    Discovered,
    /// Passed the filter.
    Accepted,
    /// Failed the filter. Nothing more happens to the file.
    Rejected,
    /// A dry run has said what it would do. Nothing more happens to the file.
    Reported,
    /// The attempt with this number, counted from 1, is under way.
    Attempting(u8),
    /// An attempt went through. Nothing more happens to the file.
    Succeeded,
    /// The last attempt failed too. Nothing more happens to the file.
    Failed,
}

/// What the caller comes back with.
#[derive(Debug, Clone, Copy, PartialEq, Eq, Structural)]
pub enum Event {
    /// Nothing was asked of the file system; go on.
    Proceed,
    /// The attempt went through.
    Succeeded,
    /// The attempt failed.
    Failed(Failure),
}

/// What the caller is asked to do.
#[derive(Debug, Clone, PartialEq, Eq)]
pub enum Action {
    /// Nothing outside; come back with `Event::Proceed` unless the state is final.
    Nothing,
    /// Say that this transfer would be made, and make none.
    Report(TransferPlan),
    /// Wait for `delay_seconds`, create the directories that the destination
    /// lacks, then copy or move the file; come back with the outcome.
    Attempt { plan: TransferPlan, delay_seconds: u64 },
    /// Say that this transfer was given up, and why.
    GiveUp { plan: TransferPlan, failure: Failure },
}

/// What an `Action` holds, as text.
pub enum ActionView {
    Nothing,
    Report(TransferPlanView),
    Attempt { plan: TransferPlanView, delay_seconds: u64 },
    GiveUp { plan: TransferPlanView, failure: Failure },
}

impl View for Action {
    type V = ActionView;

    open spec fn view(&self) -> ActionView {
        match self {
            Action::Nothing => ActionView::Nothing,
            Action::Report(plan) => ActionView::Report(plan@),
            Action::Attempt { plan, delay_seconds } => ActionView::Attempt {
                plan: plan@,
                delay_seconds: *delay_seconds,
            },
            Action::GiveUp { plan, failure } => ActionView::GiveUp {
                plan: plan@,
                failure: *failure,
            },
        }
    }
}

impl ActionView {
    /// Whether the action changes anything in the file system.
    pub open spec fn mutates(self) -> bool {
        self is Attempt
    }
}

impl FileState {
    /// Whether nothing more happens to a file in this state.
    pub open spec fn is_final(self) -> bool {
        self is Rejected || self is Reported || self is Succeeded || self is Failed
    }

    /// Whether the file is in a final state.
    pub fn is_terminal(&self) -> (r: bool)
        ensures
            r == self.is_final(),
    {
        match self {
            FileState::Rejected | FileState::Reported | FileState::Succeeded | FileState::Failed => true,
            _ => false,
        }
    }
}

/// The state that follows `state` once `event` has come in.
///
/// An event that the state does not wait for leaves the state as it is.
pub open spec fn next_state(
    config: ConfigurationView,
    entry: FileEntryView,
    state: FileState,
    event: Event,
) -> FileState {
    match (state, event) {
        (FileState::Discovered, Event::Proceed) => if accepted(config, entry) {
            FileState::Accepted
        } else {
            FileState::Rejected
        },
        (FileState::Accepted, Event::Proceed) => if config.dry_run {
            FileState::Reported
        } else {
            FileState::Attempting(1)
        },
        (FileState::Attempting(_), Event::Succeeded) => FileState::Succeeded,
        (FileState::Attempting(n), Event::Failed(_)) => if n < MAX_ATTEMPTS {
            FileState::Attempting((n + 1) as u8)
        } else {
            FileState::Failed
        },
        _ => state,
    }
}

/// What is to be done on the way from `state` to `next_state`.
///
/// The first attempt starts at once, each later one after the retry delay.
pub open spec fn action_of(
    config: ConfigurationView,
    entry: FileEntryView,
    state: FileState,
    event: Event,
) -> ActionView {
    match (state, event) {
        (FileState::Accepted, Event::Proceed) => if config.dry_run {
            ActionView::Report(plan_of(config, entry))
        } else {
            ActionView::Attempt { plan: plan_of(config, entry), delay_seconds: 0 }
        },
        (FileState::Attempting(n), Event::Failed(failure)) => if n < MAX_ATTEMPTS {
            ActionView::Attempt { plan: plan_of(config, entry), delay_seconds: RETRY_DELAY_SECONDS }
        } else {
            ActionView::GiveUp { plan: plan_of(config, entry), failure }
        },
        _ => ActionView::Nothing,
    }
}

/// Takes one step for `entry`: the state it is in from now on, and what the
/// caller is to do.
pub fn step(config: &Configuration, entry: &FileEntry, state: FileState, event: Event) -> (r: (
    FileState,
    Action,
))
    ensures
        r.0 == next_state(config@, entry@, state, event),
        r.1@ == action_of(config@, entry@, state, event),
{
    match (state, event) {
        (FileState::Discovered, Event::Proceed) => {
            if accepts(config, entry) {
                (FileState::Accepted, Action::Nothing)
            } else {
                (FileState::Rejected, Action::Nothing)
            }
        },
        (FileState::Accepted, Event::Proceed) => {
            let p = plan(config, entry);
            if config.dry_run {
                (FileState::Reported, Action::Report(p))
            } else {
                (FileState::Attempting(1), Action::Attempt { plan: p, delay_seconds: 0 })
            }
        },
        (FileState::Attempting(_), Event::Succeeded) => (FileState::Succeeded, Action::Nothing),
        (FileState::Attempting(n), Event::Failed(failure)) => {
            let p = plan(config, entry);
            if n < MAX_ATTEMPTS {
                (
                    FileState::Attempting(n + 1),
                    Action::Attempt { plan: p, delay_seconds: RETRY_DELAY_SECONDS },
                )
            } else {
                (FileState::Failed, Action::GiveUp { plan: p, failure })
            }
        },
        _ => (state, Action::Nothing),
    }
}

/// What holds of every state that a file can reach from `Discovered`.
pub open spec fn fits(config: ConfigurationView, entry: FileEntryView, state: FileState) -> bool {
    match state {
        FileState::Discovered => true,
        FileState::Accepted => accepted(config, entry),
        FileState::Rejected => !accepted(config, entry),
        FileState::Reported => accepted(config, entry) && config.dry_run,
        FileState::Attempting(n) => accepted(config, entry) && !config.dry_run && 1 <= n
            <= MAX_ATTEMPTS,
        FileState::Succeeded => accepted(config, entry) && !config.dry_run,
        FileState::Failed => accepted(config, entry) && !config.dry_run,
    }
}

/// Whether `state` waits for `event`.
pub open spec fn awaits(state: FileState, event: Event) -> bool {
    match state {
        FileState::Discovered => event is Proceed,
        FileState::Accepted => event is Proceed,
        FileState::Attempting(_) => event is Succeeded || event is Failed,
        _ => false,
    }
}

/// An upper bound on the steps that a file in `state` still has before it.
pub open spec fn steps_left(state: FileState) -> nat {
    match state {
        FileState::Discovered => 5,
        FileState::Accepted => 4,
        FileState::Attempting(n) => if n < MAX_ATTEMPTS {
            (MAX_ATTEMPTS - n + 1) as nat
        } else {
            1
        },
        _ => 0,
    }
}

/// A file starts in a state that fits, and no step leads out of the states
/// that fit, whatever event comes in.
pub proof fn lemma_step_keeps_fit(
    config: ConfigurationView,
    entry: FileEntryView,
    state: FileState,
    event: Event,
)
    requires
        fits(config, entry, state),
    ensures
        fits(config, entry, FileState::Discovered),
        fits(config, entry, next_state(config, entry, state, event)),
{
}

/// Each step that a state waits for brings the file nearer to its end: no
/// file takes more than five steps, and none is tried more than
/// `MAX_ATTEMPTS` times.
pub proof fn lemma_step_makes_progress(
    config: ConfigurationView,
    entry: FileEntryView,
    state: FileState,
    event: Event,
)
    requires
        awaits(state, event),
    ensures
        steps_left(next_state(config, entry, state, event)) < steps_left(state),
        steps_left(state) == 0 <==> state.is_final(),
        next_state(config, entry, state, event) matches FileState::Attempting(n) ==> n
            <= MAX_ATTEMPTS,
{
}

/// A final state stays, and asks for nothing.
pub proof fn lemma_final_states_stay(
    config: ConfigurationView,
    entry: FileEntryView,
    state: FileState,
    event: Event,
)
    requires
        state.is_final(),
    ensures
        next_state(config, entry, state, event) == state,
        action_of(config, entry, state, event) is Nothing,
{
}

/// A dry run asks for nothing that changes the file system, in any state
/// that a file can reach and whatever event comes in.
pub proof fn lemma_dry_run_changes_nothing(
    config: ConfigurationView,
    entry: FileEntryView,
    state: FileState,
    event: Event,
)
    requires
        config.dry_run,
        fits(config, entry, state),
    ensures
        !action_of(config, entry, state, event).mutates(),
        !(next_state(config, entry, state, event) is Attempting),
{
}

/// The plan that an action carries, if it carries one.
pub open spec fn plan_in(action: ActionView) -> Option<TransferPlanView> {
    match action {
        ActionView::Nothing => None,
        ActionView::Report(plan) => Some(plan),
        ActionView::Attempt { plan, .. } => Some(plan),
        ActionView::GiveUp { plan, .. } => Some(plan),
    }
}

/// Whatever is asked for a file is asked with the file's own plan: from the
/// file's path, to its computed destination, in the mode of the run. So a
/// run that copies never asks for a move, and a run that moves never asks
/// for a copy.
pub proof fn lemma_actions_follow_the_plan(
    config: ConfigurationView,
    entry: FileEntryView,
    state: FileState,
    event: Event,
)
    ensures
        plan_in(action_of(config, entry, state, event)) matches Some(plan) ==> {
            &&& plan == plan_of(config, entry)
            &&& plan.source == entry.path
            &&& plan.destination == destination_of(config, entry)
            &&& plan.mode == config.mode
        },
{
}

/// In a run that is no dry run, a file that passes the filter is tried at
/// once at its computed destination, and an attempt that goes through is the
/// only way to `Succeeded`.
pub proof fn lemma_accepted_file_is_transferred(config: ConfigurationView, entry: FileEntryView)
    requires
        accepted(config, entry),
        !config.dry_run,
    ensures
        next_state(config, entry, FileState::Discovered, Event::Proceed) == FileState::Accepted,
        next_state(config, entry, FileState::Accepted, Event::Proceed) == FileState::Attempting(1),
        action_of(config, entry, FileState::Accepted, Event::Proceed) == (ActionView::Attempt {
            plan: plan_of(config, entry),
            delay_seconds: 0,
        }),
        forall|state: FileState, event: Event|
            #![trigger next_state(config, entry, state, event)]
            next_state(config, entry, state, event) is Succeeded ==> state is Succeeded || (state
                is Attempting && event is Succeeded),
{
}

/// A file that fails the filter is left alone: nothing is ever asked for it.
pub proof fn lemma_rejected_file_is_left_alone(
    config: ConfigurationView,
    entry: FileEntryView,
    state: FileState,
    event: Event,
)
    requires
        !accepted(config, entry),
        fits(config, entry, state),
    ensures
        action_of(config, entry, state, event) is Nothing,
{
}

/// A file is given up only when the attempt numbered `MAX_ATTEMPTS` has
/// failed, and every attempt but the first waits for the retry delay.
pub proof fn lemma_retries_are_bounded(
    config: ConfigurationView,
    entry: FileEntryView,
    state: FileState,
    event: Event,
)
    requires
        fits(config, entry, state),
    ensures
        next_state(config, entry, state, event) is Failed && !(state is Failed) ==> state
            == FileState::Attempting(MAX_ATTEMPTS) && event is Failed,
        action_of(config, entry, state, event) matches ActionView::Attempt { delay_seconds, .. }
            ==> delay_seconds == if state is Accepted {
            0
        } else {
            RETRY_DELAY_SECONDS
        },
{
}

/// The state of a file that started in `state` and has seen `events`, the
/// oldest first.
pub open spec fn state_after(
    config: ConfigurationView,
    entry: FileEntryView,
    state: FileState,
    events: Seq<Event>,
) -> FileState
    decreases events.len(),
{
    if events.len() == 0 {
        state
    } else {
        next_state(
            config,
            entry,
            state_after(config, entry, state, events.drop_last()),
            events.last(),
        )
    }
}

/// What was asked for a file that started in `state`, one action for each
/// of `events`.
pub open spec fn actions_along(
    config: ConfigurationView,
    entry: FileEntryView,
    state: FileState,
    events: Seq<Event>,
) -> Seq<ActionView>
    decreases events.len(),
{
    if events.len() == 0 {
        Seq::empty()
    } else {
        actions_along(config, entry, state, events.drop_last()).push(
            action_of(
                config,
                entry,
                state_after(config, entry, state, events.drop_last()),
                events.last(),
            ),
        )
    }
}

/// How many of `actions` are attempts.
pub open spec fn attempts_in(actions: Seq<ActionView>) -> nat
    decreases actions.len(),
{
    if actions.len() == 0 {
        0
    } else if actions.last() is Attempt {
        attempts_in(actions.drop_last()) + 1
    } else {
        attempts_in(actions.drop_last())
    }
}

/// The attempts that a file in `state` can have had at most.
pub open spec fn attempts_behind(state: FileState) -> nat {
    match state {
        FileState::Attempting(n) => n as nat,
        FileState::Succeeded => MAX_ATTEMPTS as nat,
        FileState::Failed => MAX_ATTEMPTS as nat,
        _ => 0,
    }
}

/// Whatever events come in, and in whatever order, a file stays in the
/// states that fit it.
pub proof fn lemma_run_keeps_fit(
    config: ConfigurationView,
    entry: FileEntryView,
    events: Seq<Event>,
)
    ensures
        fits(config, entry, state_after(config, entry, FileState::Discovered, events)),
    decreases events.len(),
{
    if events.len() > 0 {
        lemma_run_keeps_fit(config, entry, events.drop_last());
    }
}

/// A dry run never asks for a change to the file system: of all that is
/// asked for a file from its discovery on, whatever events come in, nothing
/// is an attempt.
pub proof fn lemma_dry_run_never_mutates(
    config: ConfigurationView,
    entry: FileEntryView,
    events: Seq<Event>,
)
    requires
        config.dry_run,
    ensures
        forall|k: int|
            0 <= k < events.len() ==> !(#[trigger] actions_along(
                config,
                entry,
                FileState::Discovered,
                events,
            )[k]).mutates(),
        actions_along(config, entry, FileState::Discovered, events).len() == events.len(),
    decreases events.len(),
{
    if events.len() > 0 {
        lemma_dry_run_never_mutates(config, entry, events.drop_last());
        lemma_run_keeps_fit(config, entry, events.drop_last());
    }
}

/// No file is tried more than `MAX_ATTEMPTS` times, whatever events come in.
pub proof fn lemma_attempts_are_bounded(
    config: ConfigurationView,
    entry: FileEntryView,
    events: Seq<Event>,
)
    ensures
        attempts_in(actions_along(config, entry, FileState::Discovered, events))
            <= attempts_behind(state_after(config, entry, FileState::Discovered, events))
            <= MAX_ATTEMPTS,
    decreases events.len(),
{
    if events.len() > 0 {
        let before = events.drop_last();
        lemma_attempts_are_bounded(config, entry, before);
        lemma_run_keeps_fit(config, entry, before);
        lemma_run_keeps_fit(config, entry, events);
        let actions = actions_along(config, entry, FileState::Discovered, events);
        assert(actions.drop_last() =~= actions_along(
            config,
            entry,
            FileState::Discovered,
            before,
        ));
    }
}

} // verus!
