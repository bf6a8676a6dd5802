//! The health probe that watches a peer while a call to it is under way.
//!
//! A probe waits, checks the peer, and waits again, until it gives the peer
//! up. It always waits first, so a call that finishes sooner than the wait is
//! never probed at all. Nothing here sleeps or calls the peer: a [`Probe`]
//! says what to do next, and
//! [`TransportChannelPool::check_connectability`] says what a check's outcome
//! means.

use crate::dynamic_pool::CountedItem;
use crate::failure::HealthCheckError;
use crate::status::uri_text;
use crate::time::clamp_to_duration;
use crate::time::duration_from_nanos;
use crate::time::duration_nanos;
use crate::time::nanos_of;
use crate::transport::looks_up;
use crate::transport::PooledChannel;
use crate::transport::TransportChannelPool;
use crate::transport::TransportView;
use crate::transport::SMART_CONNECT_INTERVAL_NANOS;
use std::time::Duration;
use tonic::transport::Uri;
use vstd::prelude::*;

verus! {

/// What the health probe does next.
#[derive(Debug)]
pub enum ProbeStep<C> {
    /// The wait is not over: the probe goes on waiting for this long.
    Wait(Duration),
    /// The probe ends with this verdict.
    Stop(HealthCheckError),
    /// A channel has to be connected and added before the peer can be checked.
    Connect,
    /// The peer is checked on this channel.
    Check(CountedItem<C>),
}

/// What a [`Probe`] stands for.
pub struct ProbeView {
    /// When the wait that the probe is in ends, in nanoseconds on the clock.
    pub wake_at: nat,
}

/// The health probe of one attempt.
pub struct Probe {
    wake_at: u128,
}

impl View for Probe {
    type V = ProbeView;

    closed spec fn view(&self) -> ProbeView {
        ProbeView { wake_at: self.wake_at as nat }
    }
}

/// How long the health probe waits before each of its checks.
pub fn smart_connect_interval() -> (interval: Duration)
    ensures
        duration_nanos(interval) == SMART_CONNECT_INTERVAL_NANOS,
{
    duration_from_nanos(SMART_CONNECT_INTERVAL_NANOS)
}

/// What the probe does, once its wait is over, with what the peer's pool had
/// for it: without a pool the peer is given up, since the pool was dropped
/// under the request; otherwise the peer is checked, on a channel that is
/// connected first where the pool had none to lend.
pub open spec fn probe_step_for<C>(found: PooledChannel<C>) -> ProbeStep<C> {
    match found {
        PooledChannel::NoPool => ProbeStep::Stop(HealthCheckError::NoChannel),
        PooledChannel::NeedsChannel => ProbeStep::Connect,
        PooledChannel::Ready(item) => ProbeStep::Check(item),
    }
}

/// Whether `step` is what a probe in state `probe` does at the time `now`
/// for the peer at `address`, turning the pools `before` into `after`, where
/// `pick` picks the channel.
///
/// Before the wait is over the probe keeps waiting and touches nothing.
/// After it, the probe looks the peer up as [`looks_up`] says.
pub open spec fn probes<C: Clone>(
    probe: ProbeView,
    before: TransportView<C>,
    address: Seq<char>,
    now: nat,
    pick: nat,
    after: TransportView<C>,
    step: ProbeStep<C>,
) -> bool {
    if now < probe.wake_at {
        &&& step matches ProbeStep::Wait(rest)
        &&& duration_nanos(rest) == clamp_to_duration((probe.wake_at - now) as nat)
        &&& after == before
    } else {
        exists|found: PooledChannel<C>|
            #![trigger looks_up(before, address, pick, after, found)]
            looks_up(before, address, pick, after, found) && step == probe_step_for(found)
    }
}

impl<C> ProbeStep<C> {
    /// Computes [`probe_step_for`].
    pub fn after_wait(found: PooledChannel<C>) -> (step: ProbeStep<C>)
        ensures
            step == probe_step_for(found),
    {
        match found {
            PooledChannel::NoPool => ProbeStep::Stop(HealthCheckError::NoChannel),
            PooledChannel::NeedsChannel => ProbeStep::Connect,
            PooledChannel::Ready(item) => ProbeStep::Check(item),
        }
    }
}

impl Probe {
    /// A probe that starts at the time `now`, which is when the attempt's call
    /// starts. It begins with a wait of [`SMART_CONNECT_INTERVAL_NANOS`].
    pub fn start(now: Duration) -> (probe: Probe)
        ensures
            probe@.wake_at == duration_nanos(now) + SMART_CONNECT_INTERVAL_NANOS,
    {
        Probe { wake_at: nanos_of(now) + SMART_CONNECT_INTERVAL_NANOS }
    }

    /// Begins the next wait at the time `now`, after a check that found the
    /// peer alive.
    pub fn rest(&mut self, now: Duration)
        ensures
            final(self)@.wake_at == duration_nanos(now) + SMART_CONNECT_INTERVAL_NANOS,
    {
        self.wake_at = nanos_of(now) + SMART_CONNECT_INTERVAL_NANOS;
    }

    /// How long the probe still has to wait at the time `now`.
    pub fn remaining(&self, now: Duration) -> (rest: Duration)
        ensures
            duration_nanos(rest) == if duration_nanos(now) < self@.wake_at {
                clamp_to_duration((self@.wake_at - duration_nanos(now)) as nat)
            } else {
                0
            },
    {
        let at = nanos_of(now);
        if at < self.wake_at {
            duration_from_nanos(self.wake_at - at)
        } else {
            duration_from_nanos(0)
        }
    }

    /// Decides what the probe does at the time `now`, with `pick` picking the
    /// channel to check on as [`TransportChannelPool::get_pooled_channel_at`]
    /// picks it.
    pub fn wake_at<C: Clone>(
        &self,
        pools: &mut TransportChannelPool<C>,
        uri: &Uri,
        now: Duration,
        pick: usize,
    ) -> (step: ProbeStep<C>)
        ensures
            probes(
                self@,
                old(pools)@,
                uri_text(*uri),
                duration_nanos(now),
                pick as nat,
                final(pools)@,
                step,
            ),
    {
        let at = nanos_of(now);
        if at < self.wake_at {
            ProbeStep::Wait(duration_from_nanos(self.wake_at - at))
        } else {
            let found = pools.get_pooled_channel_at(uri, pick);
            ProbeStep::after_wait(found)
        }
    }

    /// Decides what the probe does at the time `now`, checking on a channel
    /// picked at random.
    ///
    /// The pick is random, so the step is one of those that [`Probe::wake_at`]
    /// gives.
    pub fn wake<C: Clone>(
        &self,
        pools: &mut TransportChannelPool<C>,
        uri: &Uri,
        now: Duration,
    ) -> (step: ProbeStep<C>)
        ensures
            exists|pick: nat| #[trigger]
                probes(
                    self@,
                    old(pools)@,
                    uri_text(*uri),
                    duration_nanos(now),
                    pick,
                    final(pools)@,
                    step,
                ),
    {
        let at = nanos_of(now);
        let ghost before = pools@;
        if at < self.wake_at {
            let step = ProbeStep::Wait(duration_from_nanos(self.wake_at - at));
            assert(probes(self@, before, uri_text(*uri), at as nat, 0, pools@, step));
            step
        } else {
            let found = pools.get_pooled_channel(uri);
            let step = ProbeStep::after_wait(found);
            proof {
                let pick = choose|pick: nat| #[trigger]
                    looks_up(before, uri_text(*uri), pick, pools@, found);
                assert(probes(self@, before, uri_text(*uri), at as nat, pick, pools@, step));
            }
            step
        }
    }
}

/// A call that finishes sooner than the probe's first wait is never probed:
/// until [`SMART_CONNECT_INTERVAL_NANOS`] after its start, the probe does
/// nothing but wait, borrows no channel and asks for no check.
pub proof fn quick_call_is_not_probed<C: Clone>(
    probe: ProbeView,
    started: nat,
    before: TransportView<C>,
    address: Seq<char>,
    now: nat,
    pick: nat,
    after: TransportView<C>,
    step: ProbeStep<C>,
)
    requires
        probe.wake_at == started + SMART_CONNECT_INTERVAL_NANOS,
        now < started + SMART_CONNECT_INTERVAL_NANOS,
        probes(probe, before, address, now, pick, after, step),
    ensures
        step is Wait,
        after == before,
{
}

} // verus!
