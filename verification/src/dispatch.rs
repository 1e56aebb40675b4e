//! The dispatcher of the multiplexed variant: what it does with the steps
//! that requests ask for, and how it moves between serving requests and
//! recovering.

use crate::error::RedisError;
use crate::request::{Next, PendingRequest};
use crate::slot_map::texts;
use vstd::prelude::*;

verus! {

/// What the dispatcher must do before it serves requests again.
#[derive(Debug, PartialEq, Eq)]
pub enum PollFlushAction {
    /// Nothing.
    Nothing,
    /// Refresh the slot map.
    RebuildSlots,
    /// Reconnect to these nodes.
    Reconnect(Vec<String>),
}

/// Mathematical model of a [`PollFlushAction`].
pub enum ActionModel {
    Nothing,
    RebuildSlots,
    Reconnect(Seq<Seq<char>>),
}

impl View for PollFlushAction {
    type V = ActionModel;

    open spec fn view(&self) -> ActionModel {
        match self {
            PollFlushAction::Nothing => ActionModel::Nothing,
            PollFlushAction::RebuildSlots => ActionModel::RebuildSlots,
            PollFlushAction::Reconnect(addrs) => ActionModel::Reconnect(texts(addrs@)),
        }
    }
}

/// Two actions in one: a refresh of the slot map outweighs reconnects, and
/// reconnects add up.
pub open spec fn joined_action(first: ActionModel, next: ActionModel) -> ActionModel {
    match first {
        ActionModel::Nothing => next,
        ActionModel::RebuildSlots => ActionModel::RebuildSlots,
        ActionModel::Reconnect(addrs) => match next {
            ActionModel::RebuildSlots => ActionModel::RebuildSlots,
            ActionModel::Reconnect(more) => ActionModel::Reconnect(addrs + more),
            ActionModel::Nothing => ActionModel::Reconnect(addrs),
        },
    }
}

impl PollFlushAction {
    /// This action together with the next one.
    pub fn change_state(self, next_state: PollFlushAction) -> (joined: PollFlushAction)
        ensures
            joined@ == joined_action(self@, next_state@),
    {
        match self {
            PollFlushAction::Nothing => next_state,
            PollFlushAction::RebuildSlots => PollFlushAction::RebuildSlots,
            PollFlushAction::Reconnect(addrs) => match next_state {
                PollFlushAction::RebuildSlots => PollFlushAction::RebuildSlots,
                PollFlushAction::Reconnect(new_addrs) => {
                    let mut addrs = addrs;
                    let mut new_addrs = new_addrs;
                    let ghost first = texts(addrs@);
                    let ghost more = texts(new_addrs@);
                    addrs.append(&mut new_addrs);
                    assert(texts(addrs@) =~= first + more);
                    PollFlushAction::Reconnect(addrs)
                },
                PollFlushAction::Nothing => PollFlushAction::Reconnect(addrs),
            },
        }
    }
}

/// Where a request goes after the step it asked for.
#[derive(Debug)]
pub enum Requeue<C> {
    /// Nowhere: its result was delivered.
    Finished(Result<crate::request::Response, RedisError>),
    /// Back in flight: it is sent again at once.
    InFlight(PendingRequest<C>),
    /// Back in flight after a wait of so many milliseconds.
    InFlightLater(PendingRequest<C>, u64),
    /// Back among the pending requests, to be sent after the recovery.
    Pending(PendingRequest<C>),
}

/// The action that a request's step adds to what the dispatcher must do.
pub open spec fn action_of<C>(next: Next<C>) -> ActionModel {
    match next {
        Next::RefreshSlots { .. } => ActionModel::RebuildSlots,
        Next::Reconnect { target, .. } => ActionModel::Reconnect(seq![target@]),
        _ => ActionModel::Nothing,
    }
}

/// Takes in the step of one request: says where the request goes and adds
/// what the step asks of the dispatcher to `action`. A request that asks
/// for a reconnect waits among the pending requests; one that asks for a
/// refresh of the slot map is sent again without waiting for it.
pub fn take_step<C>(action: PollFlushAction, next: Next<C>) -> (r: (PollFlushAction, Requeue<C>))
    ensures
        r.0@ == joined_action(action@, action_of(next)),
        match next {
            Next::Done(result) => r.1 matches Requeue::Finished(res) && res == result,
            Next::Retry { request } => r.1 matches Requeue::InFlight(req) && req == request,
            Next::Sleep { request, wait } => r.1 matches Requeue::InFlightLater(req, w) && req
                == request && w == wait,
            Next::Reconnect { request, .. } => r.1 matches Requeue::Pending(req) && req == request,
            Next::RefreshSlots { request } => r.1 matches Requeue::InFlight(req) && req == request,
        },
{
    match next {
        Next::Done(result) => (action.change_state(PollFlushAction::Nothing), Requeue::Finished(
            result,
        )),
        Next::Retry { request } => (action.change_state(PollFlushAction::Nothing), Requeue::InFlight(
            request,
        )),
        Next::Sleep { request, wait } => (
            action.change_state(PollFlushAction::Nothing),
            Requeue::InFlightLater(request, wait),
        ),
        Next::RefreshSlots { request } => (
            action.change_state(PollFlushAction::RebuildSlots),
            Requeue::InFlight(request),
        ),
        Next::Reconnect { request, target } => {
            let mut targets: Vec<String> = Vec::new();
            targets.push(target);
            assert(texts(targets@) =~= seq![target@]);
            (action.change_state(PollFlushAction::Reconnect(targets)), Requeue::Pending(request))
        },
    }
}

/// What a round of the dispatcher comes to.
#[derive(Debug, PartialEq, Eq)]
pub enum PollOutcome {
    /// Requests are in flight and nothing else is to do: wait.
    Pending,
    /// The round is over with this action to take.
    Ready(PollFlushAction),
}

/// Ends a round of the dispatcher: with nothing to do it waits as long as
/// requests are in flight; a recovery is handed on at once.
pub fn end_round(action: PollFlushAction, in_flight_is_empty: bool) -> (outcome: PollOutcome)
    ensures
        outcome == if action is Nothing && !in_flight_is_empty {
            PollOutcome::Pending
        } else {
            PollOutcome::Ready(action)
        },
{
    match action {
        PollFlushAction::Nothing => if in_flight_is_empty {
            PollOutcome::Ready(PollFlushAction::Nothing)
        } else {
            PollOutcome::Pending
        },
        other => PollOutcome::Ready(other),
    }
}

/// What the dispatcher is busy with.
#[derive(Debug, PartialEq, Eq)]
pub enum ConnectionState {
    /// Serving requests.
    PollComplete,
    /// Refreshing the slot map.
    RecoverSlots,
    /// Reconnecting to these nodes.
    Reconnect(Vec<String>),
}

/// The state in which a recovery is carried out.
pub fn start_recovery(action: PollFlushAction) -> (state: ConnectionState)
    ensures
        state == match action {
            PollFlushAction::Nothing => ConnectionState::PollComplete,
            PollFlushAction::RebuildSlots => ConnectionState::RecoverSlots,
            PollFlushAction::Reconnect(addrs) => ConnectionState::Reconnect(addrs),
        },
{
    match action {
        PollFlushAction::Nothing => ConnectionState::PollComplete,
        PollFlushAction::RebuildSlots => ConnectionState::RecoverSlots,
        PollFlushAction::Reconnect(addrs) => ConnectionState::Reconnect(addrs),
    }
}

/// The state after a recovery has ended: back to serving requests, unless
/// a refresh of the slot map failed, which is tried again while its error
/// is handed on.
pub fn end_recovery(state: ConnectionState, result: Result<(), RedisError>) -> (r: (
    ConnectionState,
    Option<RedisError>,
))
    ensures
        r == match (state, result) {
            (ConnectionState::RecoverSlots, Err(e)) => (ConnectionState::RecoverSlots, Some(e)),
            _ => (ConnectionState::PollComplete, None::<RedisError>),
        },
{
    match state {
        ConnectionState::RecoverSlots => match result {
            Err(e) => (ConnectionState::RecoverSlots, Some(e)),
            Ok(_) => (ConnectionState::PollComplete, None),
        },
        _ => (ConnectionState::PollComplete, None),
    }
}

/// Who is told of a failed refresh of the slot map.
#[derive(Clone, Copy, Debug, PartialEq, Eq, Structural)]
pub enum ErrorRecipient {
    /// A request in flight that still waits for its result.
    InFlight,
    /// The pending request that was queued last.
    LastPending,
    /// Nobody: the error is kept for later.
    Nobody,
}

/// Picks the request that is told of a failed refresh of the slot map, so
/// that a caller learns of it even if every attempt to recover fails.
pub fn refresh_error_recipient(waiting_in_flight: bool, pending: usize) -> (recipient:
    ErrorRecipient)
    ensures
        recipient == if waiting_in_flight {
            ErrorRecipient::InFlight
        } else if pending > 0 {
            ErrorRecipient::LastPending
        } else {
            ErrorRecipient::Nobody
        },
{
    if waiting_in_flight {
        ErrorRecipient::InFlight
    } else if pending > 0 {
        ErrorRecipient::LastPending
    } else {
        ErrorRecipient::Nobody
    }
}

} // verus!
