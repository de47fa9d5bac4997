//! The harness's view of one run: which delivery reports count, and when
//! enough of them have come in.
use crate::packet::PacketId;
use std::time::Duration;
use vstd::prelude::*;

verus! {

/// The bookkeeping of one run: the packet that was injected, the number of
/// reports to wait for, and the time since injection at which each report
/// that counts came in.
pub struct Propagation {
    packet_id: PacketId,
    threshold: usize,
    latencies: Vec<Duration>,
}

impl Propagation {
    /// The packet whose reports count.
    pub closed spec fn watched(&self) -> PacketId {
        self.packet_id
    }

    /// The number of reports at which the run is over.
    pub closed spec fn goal(&self) -> usize {
        self.threshold
    }

    /// The latency samples taken so far, in the order of arrival.
    pub closed spec fn samples(&self) -> Seq<Duration> {
        self.latencies@
    }

    /// The state right after `packet_id` was injected.
    pub fn new(packet_id: PacketId, threshold: usize) -> (run: Propagation)
        ensures
            run.watched() == packet_id,
            run.goal() == threshold,
            run.samples() == Seq::<Duration>::empty(),
    {
        Propagation { packet_id, threshold, latencies: Vec::new() }
    }

    /// Takes in one delivery report that arrived `elapsed` after injection,
    /// and tells whether the run is over. A report for another packet is
    /// ignored. A report for the watched packet adds one latency sample, and
    /// the run is over once there are as many samples as the threshold asks
    /// for.
    pub fn on_report(&mut self, packet_id: PacketId, elapsed: Duration) -> (reached: bool)
        ensures
            final(self).watched() == old(self).watched(),
            final(self).goal() == old(self).goal(),
            packet_id != old(self).watched() ==> !reached && final(self).samples() == old(
                self,
            ).samples(),
            packet_id == old(self).watched() ==> {
                &&& final(self).samples() == old(self).samples().push(elapsed)
                &&& reached == (final(self).samples().len() >= old(self).goal())
            },
    {
        if packet_id == self.packet_id {
            self.latencies.push(elapsed);
            self.latencies.len() >= self.threshold
        } else {
            false
        }
    }

    /// The number of reports that counted so far.
    pub fn received_count(&self) -> (count: usize)
        ensures
            count == self.samples().len(),
    {
        self.latencies.len()
    }

    /// Ends the run and hands out its latency samples.
    pub fn into_latencies(self) -> (latencies: Vec<Duration>)
        ensures
            latencies@ == self.samples(),
    {
        self.latencies
    }
}

} // verus!
