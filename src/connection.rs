//! A client's connection as the server sees it: its outgoing batches, its
//! snapshot interpolation state, and the objects it owns and observes.
use crate::batcher::{all_frames, frame_bytes, Batcher};
use crate::network_messages::TransportChannel;
use crate::snapshot::{Snapshot, SnapshotInterpolation, SnapshotSettings};
use vstd::prelude::*;

verus! {

#[derive(Debug, Clone, Copy, PartialEq, Eq, Structural)]
pub enum SendError {
    /// The message is larger than the transport can carry; nothing is sent.
    MessageTooLarge,
}

pub struct NetworkConnectionToClient {
    pub connection_id: u64,
    pub address: String,
    pub is_ready: bool,
    pub is_authenticated: bool,
    pub reliable_batcher: Batcher,
    pub unreliable_batcher: Batcher,
    pub owned: Vec<u32>,
    pub observing: Vec<u32>,
    pub interpolation: SnapshotInterpolation,
}

impl NetworkConnectionToClient {
    pub open spec fn wf(&self) -> bool {
        &&& self.reliable_batcher.wf()
        &&& self.unreliable_batcher.wf()
        &&& self.interpolation.wf()
    }

    pub fn new(
        connection_id: u64,
        address: String,
        reliable_threshold: usize,
        unreliable_threshold: usize,
        settings: SnapshotSettings,
        send_interval: u32,
        buffer_time_multiplier: u64,
        local_time: i64,
    ) -> (c: NetworkConnectionToClient)
        requires
            send_interval > 0,
            settings.drift_ema_window >= 1,
            settings.delivery_time_ema_window >= 1,
        ensures
            c.wf(),
            c.connection_id == connection_id,
            !c.is_ready,
            !c.is_authenticated,
            c.owned@.len() == 0,
            c.observing@.len() == 0,
            c.reliable_batcher.threshold() == reliable_threshold,
            c.unreliable_batcher.threshold() == unreliable_threshold,
            all_frames(c.reliable_batcher.frames(), c.reliable_batcher.pending()).len() == 0,
            all_frames(c.unreliable_batcher.frames(), c.unreliable_batcher.pending()).len() == 0,
            c.interpolation.snapshots().len() == 0,
    {
        NetworkConnectionToClient {
            connection_id,
            address,
            is_ready: false,
            is_authenticated: false,
            reliable_batcher: Batcher::new(reliable_threshold),
            unreliable_batcher: Batcher::new(unreliable_threshold),
            owned: Vec::new(),
            observing: Vec::new(),
            interpolation: SnapshotInterpolation::new(settings, send_interval, buffer_time_multiplier, local_time),
        }
    }

    /// Queues a message on `channel`, stamped `timestamp_bits`; a message
    /// longer than `max_message_size` is refused whole.
    pub fn send(&mut self, segment: &[u8], channel: TransportChannel, timestamp_bits: u64, max_message_size: usize) -> (r: Result<(), SendError>)
        requires
            old(self).wf(),
        ensures
            final(self).wf(),
            r is Err <==> segment@.len() > max_message_size,
            r is Err ==> final(self).reliable_batcher == old(self).reliable_batcher
                && final(self).unreliable_batcher == old(self).unreliable_batcher,
            r is Ok && channel == TransportChannel::Reliable ==> final(self).unreliable_batcher == old(self).unreliable_batcher
                && (final(self).reliable_batcher.frames(), final(self).reliable_batcher.pending()) == crate::batcher::add_spec(
                    old(self).reliable_batcher.frames(), old(self).reliable_batcher.pending(),
                    old(self).reliable_batcher.threshold(), segment@, timestamp_bits),
            r is Ok && channel == TransportChannel::Unreliable ==> final(self).reliable_batcher == old(self).reliable_batcher
                && (final(self).unreliable_batcher.frames(), final(self).unreliable_batcher.pending()) == crate::batcher::add_spec(
                    old(self).unreliable_batcher.frames(), old(self).unreliable_batcher.pending(),
                    old(self).unreliable_batcher.threshold(), segment@, timestamp_bits),
            final(self).reliable_batcher.threshold() == old(self).reliable_batcher.threshold(),
            final(self).unreliable_batcher.threshold() == old(self).unreliable_batcher.threshold(),
            final(self).interpolation.snapshots() == old(self).interpolation.snapshots(),
    {
        if segment.len() > max_message_size {
            return Err(SendError::MessageTooLarge);
        }
        match channel {
            TransportChannel::Reliable => self.reliable_batcher.add_message(segment, timestamp_bits),
            TransportChannel::Unreliable => self.unreliable_batcher.add_message(segment, timestamp_bits),
        }
        Ok(())
    }

    /// Takes every frame waiting to be sent: the reliable ones, then the
    /// unreliable ones, each oldest first.
    pub fn update(&mut self) -> (r: Vec<(TransportChannel, Vec<u8>)>)
        requires
            old(self).wf(),
        ensures
            final(self).wf(),
            ({
                let rel = all_frames(old(self).reliable_batcher.frames(), old(self).reliable_batcher.pending());
                let unrel = all_frames(old(self).unreliable_batcher.frames(), old(self).unreliable_batcher.pending());
                &&& r@.len() == rel.len() + unrel.len()
                &&& forall|i: int| 0 <= i < rel.len() ==> (#[trigger] r@[i]).0 == TransportChannel::Reliable && r@[i].1@ == frame_bytes(rel[i])
                &&& forall|i: int| rel.len() <= i < r@.len() ==> (#[trigger] r@[i]).0 == TransportChannel::Unreliable
                    && r@[i].1@ == frame_bytes(unrel[i - rel.len()])
            }),
            all_frames(final(self).reliable_batcher.frames(), final(self).reliable_batcher.pending()).len() == 0,
            all_frames(final(self).unreliable_batcher.frames(), final(self).unreliable_batcher.pending()).len() == 0,
            final(self).reliable_batcher.threshold() == old(self).reliable_batcher.threshold(),
            final(self).unreliable_batcher.threshold() == old(self).unreliable_batcher.threshold(),
            final(self).interpolation.snapshots() == old(self).interpolation.snapshots(),
    {
        let mut rel = self.reliable_batcher.drain();
        let mut unrel = self.unreliable_batcher.drain();
        let ghost relv = rel@;
        let ghost unrelv = unrel@;
        let mut out: Vec<(TransportChannel, Vec<u8>)> = Vec::new();
        let mut i: usize = 0;
        let nrel = rel.len();
        while i < nrel
            invariant
                i <= nrel == relv.len(),
                rel@.len() + i == nrel,
                forall|j: int| 0 <= j < rel@.len() ==> #[trigger] rel@[j] == relv[j + i],
                out@.len() == i,
                forall|j: int| 0 <= j < i ==> (#[trigger] out@[j]).0 == TransportChannel::Reliable && out@[j].1 == relv[j],
            decreases nrel - i,
        {
            let f = rel.remove(0);
            out.push((TransportChannel::Reliable, f));
            i = i + 1;
        }
        let nun = unrel.len();
        let mut k: usize = 0;
        while k < nun
            invariant
                k <= nun == unrelv.len(),
                unrel@.len() + k == nun,
                forall|j: int| 0 <= j < unrel@.len() ==> #[trigger] unrel@[j] == unrelv[j + k],
                out@.len() == nrel + k,
                forall|j: int| 0 <= j < nrel ==> (#[trigger] out@[j]).0 == TransportChannel::Reliable && out@[j].1 == relv[j],
                forall|j: int| nrel <= j < nrel + k ==> (#[trigger] out@[j]).0 == TransportChannel::Unreliable && out@[j].1 == unrelv[j - nrel],
            decreases nun - k,
        {
            let f = unrel.remove(0);
            out.push((TransportChannel::Unreliable, f));
            k = k + 1;
        }
        out
    }

    /// Drops whatever waits to be sent, as on disconnect.
    pub fn disconnect(&mut self)
        requires
            old(self).wf(),
        ensures
            final(self).wf(),
            all_frames(final(self).reliable_batcher.frames(), final(self).reliable_batcher.pending()).len() == 0,
            all_frames(final(self).unreliable_batcher.frames(), final(self).unreliable_batcher.pending()).len() == 0,
            final(self).owned@ == old(self).owned@,
            final(self).observing@ == old(self).observing@,
    {
        let _ = self.reliable_batcher.drain();
        let _ = self.unreliable_batcher.drain();
    }

    /// Takes in a time sample from the client.
    pub fn on_time_snapshot(&mut self, snapshot: Snapshot) -> (r: bool)
        requires
            old(self).wf(),
        ensures
            final(self).wf(),
            r == (old(self).interpolation.snapshots().len() < old(self).interpolation.settings.buffer_limit
                && !crate::snapshot::has_time(old(self).interpolation.snapshots(), snapshot.remote_time)),
            !r ==> final(self).interpolation.snapshots() == old(self).interpolation.snapshots(),
            r ==> exists|p: int| 0 <= p <= old(self).interpolation.snapshots().len()
                && final(self).interpolation.snapshots() == old(self).interpolation.snapshots().insert(p, snapshot),
    {
        self.interpolation.on_time_snapshot(snapshot)
    }

    /// Advances the client's clock estimate by `delta` microseconds and steps
    /// its interpolation; `None` while no sample is held.
    pub fn update_time_interpolation(&mut self, delta: u32) -> (r: Option<(Snapshot, Snapshot, u64)>)
        requires
            old(self).wf(),
        ensures
            final(self).wf(),
            old(self).interpolation.snapshots().len() == 0 ==> r is None
                && final(self).interpolation.snapshots() == old(self).interpolation.snapshots(),
            old(self).interpolation.snapshots().len() > 0 ==> {
                &&& final(self).interpolation.remote_timeline == crate::snapshot::clamp_i64(old(self).interpolation.remote_timeline
                    + (delta as int * old(self).interpolation.remote_timescale as int) / crate::snapshot::PPM_ONE as int)
                &&& r matches Some(x) && (final(self).interpolation.snapshots(), x.0, x.1, x.2)
                    == crate::snapshot::step_spec(old(self).interpolation.snapshots(), final(self).interpolation.remote_timeline)
            },
    {
        self.interpolation.update_time_interpolation(delta)
    }

    pub fn add_owned_object(&mut self, net_id: u32)
        ensures
            final(self).owned@ == old(self).owned@.push(net_id),
            final(self).observing@ == old(self).observing@,
    {
        self.owned.push(net_id);
    }

    /// Forgets an owned object, every occurrence of it.
    pub fn remove_owned_object(&mut self, net_id: u32)
        ensures
            final(self).owned@ == old(self).owned@.filter(|x: u32| x != net_id),
            final(self).observing@ == old(self).observing@,
    {
        self.owned = without(&self.owned, net_id);
    }

    pub fn add_to_observing(&mut self, net_id: u32)
        ensures
            final(self).observing@ == old(self).observing@.push(net_id),
            final(self).owned@ == old(self).owned@,
    {
        self.observing.push(net_id);
    }

    pub fn remove_from_observing(&mut self, net_id: u32)
        ensures
            final(self).observing@ == old(self).observing@.filter(|x: u32| x != net_id),
            final(self).owned@ == old(self).owned@,
    {
        self.observing = without(&self.observing, net_id);
    }
}

/// The ids of `v` but `id`, in their order.
fn without(v: &Vec<u32>, id: u32) -> (r: Vec<u32>)
    ensures
        r@ == v@.filter(|x: u32| x != id),
{
    let mut kept: Vec<u32> = Vec::new();
    let mut k: usize = 0;
    while k < v.len()
        invariant
            k <= v@.len(),
            kept@ == v@.subrange(0, k as int).filter(|x: u32| x != id),
        decreases v@.len() - k,
    {
        let x = v[k];
        proof {
            let pre = v@.subrange(0, k as int);
            assert(v@.subrange(0, k + 1) =~= pre.push(x));
            pre.lemma_filter_push(x, |x: u32| x != id);
        }
        if x != id {
            kept.push(x);
        }
        k = k + 1;
    }
    assert(v@.subrange(0, v@.len() as int) =~= v@);
    kept
}

} // verus!
