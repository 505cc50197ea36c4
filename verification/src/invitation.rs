//! Accepting room invitations.
//!
//! Every handler sees every membership change, so most of them are not for the
//! agent: [`handle_room_invitation`] keeps only an invitation that names the
//! agent itself, for a room it is invited to. For such an invitation it returns
//! a [`JoinTask`], which the caller runs as a unit of work of its own: it calls
//! the accept operation whenever the task asks for an attempt, sleeps when it
//! asks for a sleep, and reports each result with [`JoinTask::step`].

use crate::backoff::{
    lemma_delays_double,
    lemma_delays_within_ceiling,
    total_delay,
    BackoffAction,
    BackoffEvent,
    BackoffOutcome,
    BackoffPhase,
    BackoffState,
};
use crate::room::Membership;
use vstd::arithmetic::power2::{lemma2_to64, lemma_pow2_strictly_increases, pow2};
use vstd::prelude::*;

verus! {

/// Seconds to wait after the first failed attempt to join.
pub const JOIN_INITIAL_DELAY_SECS: u64 = 2;

/// The most seconds that joining may wait, all sleeps together.
pub const JOIN_CEILING_SECS: u64 = 3600;

/// How far an invitation has come.
#[derive(Debug, Clone, Copy, PartialEq, Eq, Structural)]
pub enum InvitationStatus {
    Pending,
    Accepted,
    Abandoned,
}

/// A membership change as the transport reports it.
#[derive(Debug, Clone, PartialEq, Eq)]
pub struct MembershipChange {
    /// The room the change happened in.
    pub room_id: String,
    /// The user whose membership changed: for an invitation, the invitee.
    pub target: String,
}

/// An invitation addressed to the agent. It lives as long as the task that
/// handles it.
#[derive(Debug, Clone, PartialEq, Eq)]
pub struct RoomInvitation {
    pub room_id: String,
    pub target: String,
    pub status: InvitationStatus,
}

/// The unit of work that joins one room.
#[derive(Debug, Clone, PartialEq, Eq)]
pub struct JoinTask {
    pub invitation: RoomInvitation,
    pub backoff: BackoffState,
}

/// The status of an invitation whose retry sequence is in the given phase.
pub open spec fn status_in_phase(phase: BackoffPhase) -> InvitationStatus {
    match phase {
        BackoffPhase::Succeeded => InvitationStatus::Accepted,
        BackoffPhase::Abandoned => InvitationStatus::Abandoned,
        _ => InvitationStatus::Pending,
    }
}

/// Whether a membership change is an invitation that the agent must accept:
/// it names the agent, and the agent is invited to the room.
pub open spec fn is_for_agent(
    own_identity: Seq<char>,
    change: MembershipChange,
    membership: Membership,
) -> bool {
    change.target@ == own_identity && membership is Invited
}

impl JoinTask {
    /// The task for a fresh invitation: pending, first attempt due.
    pub open spec fn begin(change: MembershipChange) -> Self {
        JoinTask {
            invitation: RoomInvitation {
                room_id: change.room_id,
                target: change.target,
                status: InvitationStatus::Pending,
            },
            backoff: BackoffState::initial(JOIN_INITIAL_DELAY_SECS, JOIN_CEILING_SECS),
        }
    }

    /// The status agrees with the retry sequence, and the time waited is
    /// within the ceiling.
    pub open spec fn wf(self) -> bool {
        &&& self.invitation.status == status_in_phase(self.backoff.phase)
        &&& self.backoff.wf()
    }

    /// The transition function: the retry sequence moves as the backoff
    /// controller says, and the invitation's status follows it.
    pub open spec fn spec_step<E>(self, event: BackoffEvent<E>) -> (Self, BackoffAction<E>) {
        let (backoff, action) = self.backoff.spec_step(event);
        (
            JoinTask {
                invitation: RoomInvitation {
                    status: status_in_phase(backoff.phase),
                    ..self.invitation
                },
                backoff,
            },
            action,
        )
    }

    /// Takes the result of an accept call, or the end of a sleep, and returns
    /// the next state and what to do next. `Attempt` asks for one call of the
    /// accept operation on the invitation's room.
    pub fn step<E>(self, event: BackoffEvent<E>) -> (next: (Self, BackoffAction<E>))
        ensures
            next == self.spec_step(event),
            self.wf() ==> next.0.wf(),
    {
        let JoinTask { invitation, backoff } = self;
        let (backoff, action) = backoff.step(event);
        let status = match backoff.phase {
            BackoffPhase::Succeeded => InvitationStatus::Accepted,
            BackoffPhase::Abandoned => InvitationStatus::Abandoned,
            _ => InvitationStatus::Pending,
        };
        let RoomInvitation { room_id, target, status: _ } = invitation;
        (JoinTask { invitation: RoomInvitation { room_id, target, status }, backoff }, action)
    }
}

/// Decides what a membership change asks of the agent.
///
/// Returns a task exactly if the change names the agent and the agent is
/// invited to the room; the task's first action is an attempt to accept. Any
/// other change is ignored: no task, no accept call.
pub fn handle_room_invitation(
    own_identity: &String,
    change: MembershipChange,
    membership: Membership,
) -> (task: Option<JoinTask>)
    ensures
        task is Some <==> is_for_agent(own_identity@, change, membership),
        task matches Some(t) ==> t == JoinTask::begin(change) && t.wf(),
{
    if change.target != *own_identity {
        return None;
    }
    match membership {
        Membership::Invited => {
            let MembershipChange { room_id, target } = change;
            Some(
                JoinTask {
                    invitation: RoomInvitation { room_id, target, status: InvitationStatus::Pending },
                    backoff: BackoffState::new(JOIN_INITIAL_DELAY_SECS, JOIN_CEILING_SECS),
                },
            )
        },
        _ => None,
    }
}

/// A change that names somebody else starts nothing, whatever the room.
pub proof fn lemma_foreign_invitation_ignored(
    own_identity: Seq<char>,
    change: MembershipChange,
    membership: Membership,
)
    requires
        change.target@ != own_identity,
    ensures
        !is_for_agent(own_identity, change, membership),
{
}

/// If the first accept call succeeds, the invitation is accepted at once and
/// no sleep was asked for.
pub proof fn lemma_accept_at_first_attempt<E>(change: MembershipChange)
    ensures
        ({
            let (task, action) = JoinTask::begin(change).spec_step(BackoffEvent::<E>::Succeeded);
            &&& task.invitation.status == InvitationStatus::Accepted
            &&& task.invitation.room_id == change.room_id
            &&& task.backoff.is_terminal()
            &&& task.backoff.waited == 0
            &&& action == BackoffAction::<E>::Finish(BackoffOutcome::Succeeded)
        }),
{
}

/// The schedule of a join, whatever is reported and in whatever order: the
/// sleeps last 2, 4, 8, ... seconds and add up to at most 3600 seconds. So
/// there are at most ten of them, the last one of 1024 seconds, and the accept
/// call is asked for at most ten times after the first attempt.
pub proof fn lemma_join_schedule<E>(change: MembershipChange, events: Seq<BackoffEvent<E>>)
    ensures
        ({
            let delays = JoinTask::begin(change).backoff.delays(events);
            &&& total_delay(delays) <= JOIN_CEILING_SECS
            &&& delays.len() <= 10
            &&& JoinTask::begin(change).backoff.retries(events) <= 10
            &&& forall|i: int|
                0 <= i < delays.len() ==> #[trigger] delays[i] == JOIN_INITIAL_DELAY_SECS * pow2(
                    i as nat,
                ) && delays[i] <= 1024
        }),
{
    let delays = JoinTask::begin(change).backoff.delays(events);
    let n = delays.len();
    lemma_delays_within_ceiling(JOIN_INITIAL_DELAY_SECS, JOIN_CEILING_SECS, events);
    lemma2_to64();
    if n > 10 {
        if n > 11 {
            lemma_pow2_strictly_increases(11, n);
        }
        assert(pow2(n) >= 2048);
    }
    assert forall|i: int| 0 <= i < delays.len() implies #[trigger] delays[i]
        == JOIN_INITIAL_DELAY_SECS * pow2(i as nat) && delays[i] <= 1024 by {
        lemma_delays_double(JOIN_INITIAL_DELAY_SECS, JOIN_CEILING_SECS, events, i);
        if i < 9 {
            lemma_pow2_strictly_increases(i as nat, 9);
        }
    }
}

/// A task that is over stays as it is: no event makes it call accept or sleep
/// again, and its status no longer changes.
pub proof fn lemma_finished_join_is_final<E>(task: JoinTask, event: BackoffEvent<E>)
    requires
        task.wf(),
        task.backoff.is_terminal(),
    ensures
        task.spec_step(event) == (task, BackoffAction::<E>::Idle),
{
}

} // verus!
