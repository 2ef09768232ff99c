//! How often replication may be triggered.
//!
//! Under high churn many peers are added, and each of them asks for replication. The pace is
//! kept down so that the messages stay few.

use vstd::prelude::*;

verus! {

/// The shortest time between two replications, in seconds.
pub const REPLICATION_INTERVAL: u64 = 60;

/// When replication was last triggered.
#[derive(Clone, Copy, Debug, PartialEq, Eq, Structural)]
pub struct ReplicationThrottle {
    pub last: Option<u64>,
}

/// Whether replication may be triggered at a time.
pub open spec fn may_trigger(last: Option<u64>, now: u64) -> bool {
    match last {
        None => true,
        Some(last) => now - last >= REPLICATION_INTERVAL,
    }
}

/// When replication was last triggered, after it was asked for at the given times.
pub open spec fn last_trigger(times: Seq<u64>) -> Option<u64>
    decreases times.len(),
{
    if times.len() == 0 {
        None
    } else {
        let last = last_trigger(times.drop_last());
        if may_trigger(last, times.last()) {
            Some(times.last())
        } else {
            last
        }
    }
}

/// Whether asking for replication at the given times triggers it at the time with number `i`.
pub open spec fn triggers(times: Seq<u64>, i: int) -> bool {
    may_trigger(last_trigger(times.take(i)), times[i])
}

impl ReplicationThrottle {
    /// Replication was not triggered yet.
    pub fn new() -> (throttle: ReplicationThrottle)
        ensures
            throttle.last is None,
    {
        ReplicationThrottle { last: None }
    }

    /// Asks for replication at a time, in seconds. Returns whether it is triggered.
    pub fn try_trigger(&mut self, now: u64) -> (triggered: bool)
        ensures
            triggered == may_trigger(old(self).last, now),
            final(self).last == if triggered {
                Some(now)
            } else {
                old(self).last
            },
            forall|times: Seq<u64>|
                last_trigger(times) == old(self).last ==> (#[trigger] last_trigger(
                    times.push(now),
                )) == final(self).last && triggered == triggers(
                    times.push(now),
                    times.len() as int,
                ),
    {
        let triggered = match self.last {
            None => true,
            Some(last) => now >= last && now - last >= REPLICATION_INTERVAL,
        };
        if triggered {
            self.last = Some(now);
        }
        proof {
            assert forall|times: Seq<u64>| last_trigger(times) == old(self).last implies (
            #[trigger] last_trigger(times.push(now))) == self.last && triggered == triggers(
                times.push(now),
                times.len() as int,
            ) by {
                assert(times.push(now).drop_last() =~= times);
                assert(times.push(now).take(times.len() as int) =~= times);
            }
        }
        triggered
    }
}

proof fn lemma_last_trigger(times: Seq<u64>, i: int)
    requires
        0 <= i < times.len(),
        triggers(times, i),
    ensures
        last_trigger(times) is Some,
        last_trigger(times)->0 >= times[i],
    decreases times.len(),
{
    if i == times.len() - 1 {
        assert(times.take(i) =~= times.drop_last());
    } else {
        assert(times.drop_last().take(i) =~= times.take(i));
        lemma_last_trigger(times.drop_last(), i);
    }
}

/// Replication is triggered at most once per interval.
pub proof fn law_replication_is_spaced_out(times: Seq<u64>, i: int, j: int)
    requires
        0 <= i < j < times.len(),
        triggers(times, i),
        triggers(times, j),
    ensures
        times[j] - times[i] >= REPLICATION_INTERVAL,
{
    assert(times.take(j).take(i) =~= times.take(i));
    lemma_last_trigger(times.take(j), i);
}

proof fn lemma_last_trigger_is_one(times: Seq<u64>)
    ensures
        match last_trigger(times) {
            Some(last) => exists|k: int|
                0 <= k < times.len() && #[trigger] triggers(times, k) && times[k] == last,
            None => times.len() == 0,
        },
    decreases times.len(),
{
    if times.len() > 0 {
        let earlier = times.drop_last();
        lemma_last_trigger_is_one(earlier);
        assert(times.take(times.len() - 1) =~= earlier);
        if may_trigger(last_trigger(earlier), times.last()) {
            assert(triggers(times, times.len() - 1));
        } else {
            let k = choose|k: int|
                0 <= k < earlier.len() && #[trigger] triggers(earlier, k) && earlier[k]
                    == last_trigger(earlier)->0;
            assert(earlier.take(k) =~= times.take(k));
            assert(triggers(times, k));
        }
    }
}

/// Replication is triggered exactly when it was not triggered in the sixty seconds before: the
/// first time always, and later neither too early nor held back for longer.
pub proof fn law_replication_waits_a_minute(times: Seq<u64>, i: int)
    requires
        0 <= i < times.len(),
    ensures
        triggers(times, i) <==> forall|k: int|
            0 <= k < i && #[trigger] triggers(times, k) ==> times[k] + 60 <= times[i],
{
    let earlier = times.take(i);
    lemma_last_trigger_is_one(earlier);
    if triggers(times, i) {
        assert forall|k: int| 0 <= k < i && #[trigger] triggers(times, k) implies times[k] + 60
            <= times[i] by {
            assert(earlier.take(k) =~= times.take(k));
            lemma_last_trigger(earlier, k);
        }
    } else {
        let k = choose|k: int|
            0 <= k < earlier.len() && #[trigger] triggers(earlier, k) && earlier[k]
                == last_trigger(earlier)->0;
        assert(earlier.take(k) =~= times.take(k));
        assert(triggers(times, k));
        assert(times[k] + 60 > times[i]);
    }
}

} // verus!
