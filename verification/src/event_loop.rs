//! The order in which the driver serves its sources of work.

use vstd::arithmetic::power2::pow2;
use vstd::prelude::*;

use crate::distance::preimage_distance;
use crate::driver::{closest_with_self, is_bucket, SwarmDriver};
use crate::peer::{peer_views, PeerId};

verus! {

/// Where the loop stands.
#[derive(Clone, Copy, Debug, PartialEq, Eq, Structural)]
pub enum LoopPhase {
    /// The queue of local commands is to be looked at, without waiting.
    PollLocal,
    /// No local command is pending: whatever comes first is to be waited for.
    Wait,
    /// The loop has ended.
    Stopped,
}

/// What the loop finds.
#[derive(Clone, Copy, Debug, PartialEq, Eq, Structural)]
pub enum LoopEvent {
    /// There is a local command.
    LocalCmd,
    /// There is no local command at the moment.
    NoLocalCmd,
    /// There will be no local commands any more.
    LocalCmdsClosed,
    /// The swarm has something to tell.
    SwarmEvent,
    /// There is a command for the network.
    NetworkCmd,
    /// There will be no commands for the network any more.
    NetworkCmdsClosed,
    /// The bootstrap interval has passed.
    BootstrapTick,
    /// The interval for checking the farthest record has passed.
    FarthestRecordTick,
    /// The interval for relay reservations has passed.
    RelayTick,
}

/// What is to be done.
#[derive(Clone, Copy, Debug, PartialEq, Eq, Structural)]
pub enum LoopAction {
    HandleLocalCmd,
    Wait,
    Stop,
    HandleSwarmEvent,
    HandleNetworkCmd,
    Nothing,
    RunBootstrap,
    UpdateFarthestRecord,
    TryRelays,
}

impl LoopEvent {
    /// Whether the event is the outcome of looking at the queue of local commands.
    pub open spec fn is_local(self) -> bool {
        self is LocalCmd || self is NoLocalCmd || self is LocalCmdsClosed
    }
}

impl LoopPhase {
    /// Whether the event can be found in this phase.
    pub open spec fn expects(self, event: LoopEvent) -> bool {
        match self {
            LoopPhase::PollLocal => event.is_local(),
            LoopPhase::Wait => !event.is_local(),
            LoopPhase::Stopped => false,
        }
    }
}

/// The phase after an event.
pub open spec fn next_phase(event: LoopEvent) -> LoopPhase {
    match event {
        LoopEvent::NoLocalCmd => LoopPhase::Wait,
        LoopEvent::LocalCmdsClosed => LoopPhase::Stopped,
        _ => LoopPhase::PollLocal,
    }
}

/// What an event is answered with.
pub open spec fn loop_action(is_client: bool, event: LoopEvent) -> LoopAction {
    match event {
        LoopEvent::LocalCmd => LoopAction::HandleLocalCmd,
        LoopEvent::NoLocalCmd => LoopAction::Wait,
        LoopEvent::LocalCmdsClosed => LoopAction::Stop,
        LoopEvent::SwarmEvent => LoopAction::HandleSwarmEvent,
        LoopEvent::NetworkCmd => LoopAction::HandleNetworkCmd,
        LoopEvent::NetworkCmdsClosed => LoopAction::Nothing,
        LoopEvent::BootstrapTick => LoopAction::RunBootstrap,
        LoopEvent::FarthestRecordTick => if is_client {
            LoopAction::Nothing
        } else {
            LoopAction::UpdateFarthestRecord
        },
        LoopEvent::RelayTick => LoopAction::TryRelays,
    }
}

/// The phase in which the loop is after some events.
pub open spec fn phase_after(events: Seq<LoopEvent>) -> LoopPhase {
    if events.len() == 0 {
        LoopPhase::PollLocal
    } else {
        next_phase(events.last())
    }
}

/// Whether the loop can find these events one after the other.
pub open spec fn is_run(events: Seq<LoopEvent>) -> bool
    decreases events.len(),
{
    events.len() == 0 || is_run(events.drop_last()) && phase_after(events.drop_last()).expects(
        events.last(),
    )
}

impl SwarmDriver {
    /// One step of the event loop: what to do about an event, and where the loop stands then.
    pub fn run(&self, phase: LoopPhase, event: LoopEvent) -> (step: (LoopPhase, LoopAction))
        requires
            phase.expects(event),
        ensures
            step.0 == next_phase(event),
            step.1 == loop_action(self.is_client, event),
    {
        match event {
            LoopEvent::LocalCmd => (LoopPhase::PollLocal, LoopAction::HandleLocalCmd),
            LoopEvent::NoLocalCmd => (LoopPhase::Wait, LoopAction::Wait),
            LoopEvent::LocalCmdsClosed => (LoopPhase::Stopped, LoopAction::Stop),
            LoopEvent::SwarmEvent => (LoopPhase::PollLocal, LoopAction::HandleSwarmEvent),
            LoopEvent::NetworkCmd => (LoopPhase::PollLocal, LoopAction::HandleNetworkCmd),
            LoopEvent::NetworkCmdsClosed => (LoopPhase::PollLocal, LoopAction::Nothing),
            LoopEvent::BootstrapTick => (LoopPhase::PollLocal, LoopAction::RunBootstrap),
            LoopEvent::FarthestRecordTick => if self.is_client {
                (LoopPhase::PollLocal, LoopAction::Nothing)
            } else {
                (LoopPhase::PollLocal, LoopAction::UpdateFarthestRecord)
            },
            LoopEvent::RelayTick => (LoopPhase::PollLocal, LoopAction::TryRelays),
        }
    }

    /// The bucket that the record store's range is set to when the farthest record is checked
    /// for, if it is to be set. `sorted_peers` are the local peers by increasing distance to us.
    pub fn farthest_record_bucket(&self, sorted_peers: &Vec<PeerId>) -> (bucket: Option<u32>)
        ensures
            ({
                let closest = closest_with_self(self.self_peer_id@, peer_views(sorted_peers@));
                let d = preimage_distance(self.self_peer_id@, closest.last());
                &&& bucket is Some <==> !self.is_client && d > 0
                &&& bucket is Some ==> pow2(bucket->0 as nat) <= d < pow2((bucket->0 + 1) as nat)
                &&& self.is_client ==> bucket is None
                &&& !self.is_client ==> is_bucket(bucket, d)
            }),
    {
        if self.is_client {
            return None;
        }
        let closest = self.get_closest_k_value_local_peers(sorted_peers);
        assert(peer_views(closest@).last() == closest@.last()@);
        self.get_farthest_data_address_estimate(&closest)
    }
}

/// The range of the replication fetcher, where the record store has a farthest bucket or none.
pub open spec fn fetch_range(farthest_bucket: Option<u32>) -> u32 {
    match farthest_bucket {
        Some(bucket) => bucket,
        None => 1,
    }
}

/// The bootstrap interval, where another one may be suggested.
pub open spec fn next_interval(current: u64, suggested: Option<u64>) -> u64 {
    match suggested {
        Some(new) => new,
        None => current,
    }
}

/// The range that the replication fetcher is set to, given the record store's farthest bucket.
pub fn replication_range(farthest_bucket: Option<u32>) -> (range: u32)
    ensures
        range == match farthest_bucket {
            Some(bucket) => bucket,
            None => 1,
        },
        range == fetch_range(farthest_bucket),
{
    match farthest_bucket {
        Some(bucket) => bucket,
        None => 1,
    }
}

/// The bootstrap interval that goes on after a bootstrap run, in seconds.
pub fn bootstrap_interval(current: u64, suggested: Option<u64>) -> (interval: u64)
    ensures
        interval == match suggested {
            Some(new) => new,
            None => current,
        },
        interval == next_interval(current, suggested),
{
    match suggested {
        Some(new) => new,
        None => current,
    }
}

/// Local commands come first: whatever else the loop takes up, it takes up right after it has
/// found no local command pending.
pub proof fn law_local_commands_come_first(events: Seq<LoopEvent>, i: int)
    requires
        is_run(events),
        0 <= i < events.len(),
        !events[i].is_local(),
    ensures
        i > 0,
        events[i - 1] is NoLocalCmd,
    decreases events.len(),
{
    if i < events.len() - 1 {
        law_local_commands_come_first(events.drop_last(), i);
    }
}

/// The loop runs on until the local commands are closed, and only until then.
pub proof fn law_runs_until_closed(events: Seq<LoopEvent>)
    requires
        is_run(events),
    ensures
        phase_after(events) is Stopped <==> events.contains(LoopEvent::LocalCmdsClosed),
        forall|i: int| 0 <= i < events.len() - 1 ==> !(events[i] is LocalCmdsClosed),
    decreases events.len(),
{
    if events.len() > 0 {
        let earlier = events.drop_last();
        law_runs_until_closed(earlier);
        assert(!(phase_after(earlier) is Stopped));
        assert forall|i: int| 0 <= i < events.len() - 1 implies !(events[i] is LocalCmdsClosed) by {
            if events[i] is LocalCmdsClosed {
                assert(earlier[i] == LoopEvent::LocalCmdsClosed);
                assert(earlier.contains(LoopEvent::LocalCmdsClosed));
            }
        }
        if phase_after(events) is Stopped {
            assert(events[events.len() - 1] == LoopEvent::LocalCmdsClosed);
        }
    }
}

/// Each event is answered by what it calls for, and by nothing that another event calls for. Only
/// the check of the farthest record depends on who we are: it is left out by clients alone.
pub proof fn law_each_event_is_answered(is_client: bool, event: LoopEvent)
    ensures
        loop_action(is_client, event) is HandleLocalCmd <==> event is LocalCmd,
        loop_action(is_client, event) is Wait <==> event is NoLocalCmd,
        loop_action(is_client, event) is Stop <==> event is LocalCmdsClosed,
        loop_action(is_client, event) is HandleSwarmEvent <==> event is SwarmEvent,
        loop_action(is_client, event) is HandleNetworkCmd <==> event is NetworkCmd,
        loop_action(is_client, event) is RunBootstrap <==> event is BootstrapTick,
        loop_action(is_client, event) is TryRelays <==> event is RelayTick,
        loop_action(is_client, event) is UpdateFarthestRecord <==> event is FarthestRecordTick
            && !is_client,
        loop_action(is_client, event) != loop_action(!is_client, event) ==> event
            is FarthestRecordTick,
{
}

/// After anything was handled, local commands are looked for again. The loop waits only after it
/// found none, and stops only when there will be none any more.
pub proof fn law_loop_comes_back_to_local_commands(is_client: bool, event: LoopEvent)
    ensures
        next_phase(event) is Wait <==> loop_action(is_client, event) is Wait,
        next_phase(event) is Stopped <==> loop_action(is_client, event) is Stop,
        next_phase(event) is PollLocal <==> !(event is NoLocalCmd || event is LocalCmdsClosed),
{
}

/// The fetcher's range is the farthest bucket where there is one, and else one. The bootstrap
/// interval changes only to one that was suggested.
pub proof fn law_settings_follow_what_was_found(bucket: u32, current: u64, new: u64)
    ensures
        fetch_range(Some(bucket)) == bucket,
        fetch_range(None) == 1,
        next_interval(current, Some(new)) == new,
        next_interval(current, None) == current,
{
}

} // verus!
