use vstd::prelude::*;
use crate::seq_space::{dist, seq_le, wrapping_distance, wrapping_step, lemma_dist_rebase};

verus! {

/// Send-direction bookkeeping: the oldest unacknowledged sequence number,
/// the next sequence number to transmit, the peer's last advertised window,
/// and this side's initial sequence number.
pub struct SendParam {
    pub unacked_seq: u32,
    pub next: u32,
    pub window: u16,
    pub initial_seq: u32,
}

impl SendParam {
    /// Well-formedness: the unacknowledged cursor never passes the transmit
    /// cursor, under wraparound-aware ordering.
    pub open spec fn wf(&self) -> bool {
        dist(self.unacked_seq, self.next) < 0x8000_0000
    }

    /// Creates the send bookkeeping with both cursors at zero.
    pub fn new(window: u16) -> (r: SendParam)
        ensures
            r.unacked_seq == 0,
            r.next == 0,
            r.window == window,
            r.initial_seq == 0,
            r.wf(),
    {
        SendParam { unacked_seq: 0, next: 0, window, initial_seq: 0 }
    }

    /// Applies a cumulative acknowledgment.  The acknowledgment is accepted
    /// exactly when it names a point strictly past the unacknowledged
    /// cursor and no further than the transmit cursor; the unacknowledged
    /// cursor then advances to it and never moves backward.
    pub fn acknowledge(&mut self, ack: u32) -> (accepted: bool)
        requires
            old(self).wf(),
        ensures
            final(self).wf(),
            accepted == (0 < dist(old(self).unacked_seq, ack) <= dist(
                old(self).unacked_seq,
                old(self).next,
            )),
            accepted ==> final(self).unacked_seq == ack,
            !accepted ==> *final(self) == *old(self),
            final(self).next == old(self).next,
            final(self).window == old(self).window,
            final(self).initial_seq == old(self).initial_seq,
            seq_le(old(self).unacked_seq, final(self).unacked_seq),
    {
        let d_ack = wrapping_distance(self.unacked_seq, ack);
        let d_next = wrapping_distance(self.unacked_seq, self.next);
        if 0 < d_ack && d_ack <= d_next {
            proof {
                lemma_dist_rebase(self.unacked_seq, ack, self.next);
            }
            self.unacked_seq = ack;
            true
        } else {
            false
        }
    }

    /// Records that `amount` new sequence numbers were transmitted: the
    /// transmit cursor steps forward, the unacknowledged cursor stays.
    pub fn advance_next(&mut self, amount: u32)
        requires
            old(self).wf(),
            dist(old(self).unacked_seq, old(self).next) + amount < 0x8000_0000,
        ensures
            final(self).wf(),
            dist(old(self).next, final(self).next) == amount,
            dist(final(self).unacked_seq, final(self).next) == dist(
                old(self).unacked_seq,
                old(self).next,
            ) + amount,
            final(self).unacked_seq == old(self).unacked_seq,
            final(self).window == old(self).window,
            final(self).initial_seq == old(self).initial_seq,
    {
        let stepped = wrapping_step(self.next, amount);
        proof {
            crate::seq_space::lemma_dist_add(self.unacked_seq, self.next, stepped);
        }
        self.next = stepped;
    }

    /// Updates the peer's advertised window.
    pub fn set_window(&mut self, window: u16)
        ensures
            *final(self) == (SendParam { window, ..*old(self) }),
    {
        self.window = window;
    }
}

} // verus!
