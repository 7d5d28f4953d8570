use vstd::prelude::*;
use crate::errors::TcpError;
use crate::segment::{TcpSegment, spec_sequence_length};
use crate::seq_space::dist;
use crate::seq_space::wrapping_distance;

verus! {

/// How many transmissions of one segment are attempted before the
/// connection is declared dead.  A policy value, not a protocol constant.
pub const RETRANSMISSION_LIMIT: u8 = 5;

/// The wait before the first retry, in milliseconds; it doubles with every
/// further transmission.  A policy value, not a protocol constant.
pub const RETRANSMISSION_BASE_MILLIS: u64 = 1000;

/// One sent-but-unacknowledged segment, with the bookkeeping the timer
/// driven retry path needs: when it last went out and how often it has gone
/// out in all.
pub struct RetransmissionQueueEntry {
    pub packet: TcpSegment,
    pub latest_transmission_time: u64,
    pub transmission_count: u8,
}

impl RetransmissionQueueEntry {
    /// Records the first transmission of a segment at time `now`.
    pub fn new(packet: TcpSegment, now: u64) -> (e: RetransmissionQueueEntry)
        ensures
            e.packet == packet,
            e.latest_transmission_time == now,
            e.transmission_count == 1,
    {
        RetransmissionQueueEntry { packet, latest_transmission_time: now, transmission_count: 1 }
    }
}

/// The retry wait after `count` transmissions: the base wait doubled for
/// each transmission already made, up to the retry cap.
pub open spec fn spec_backoff_threshold(count: u8) -> u64 {
    if count <= 1 {
        RETRANSMISSION_BASE_MILLIS
    } else if count == 2 {
        (2 * RETRANSMISSION_BASE_MILLIS) as u64
    } else if count == 3 {
        (4 * RETRANSMISSION_BASE_MILLIS) as u64
    } else if count == 4 {
        (8 * RETRANSMISSION_BASE_MILLIS) as u64
    } else {
        (16 * RETRANSMISSION_BASE_MILLIS) as u64
    }
}

/// Computes the retry wait for an entry transmitted `count` times.
pub fn backoff_threshold(count: u8) -> (r: u64)
    ensures
        r == spec_backoff_threshold(count),
{
    if count <= 1 {
        RETRANSMISSION_BASE_MILLIS
    } else if count == 2 {
        2 * RETRANSMISSION_BASE_MILLIS
    } else if count == 3 {
        4 * RETRANSMISSION_BASE_MILLIS
    } else if count == 4 {
        8 * RETRANSMISSION_BASE_MILLIS
    } else {
        16 * RETRANSMISSION_BASE_MILLIS
    }
}

/// The cumulative acknowledgment point `una` covers the entry's whole
/// sequence range, so the entry is no longer owed a retransmission.
pub open spec fn spec_entry_acked(e: RetransmissionQueueEntry, una: u32) -> bool {
    spec_sequence_length(e.packet) <= dist(e.packet.seq, una) < spec_sequence_length(e.packet)
        + 0x8000_0000
}

/// The entry has waited longer than its backoff threshold since it last
/// went out.
pub open spec fn spec_entry_expired(e: RetransmissionQueueEntry, now: u64) -> bool {
    now >= e.latest_transmission_time + spec_backoff_threshold(e.transmission_count)
}

/// What the retry sweep leaves of an entry: an expired one goes out again,
/// so its transmission count rises and its timestamp is refreshed; an
/// unexpired one is untouched.
pub open spec fn spec_advance_entry(e: RetransmissionQueueEntry, now: u64) -> (
    RetransmissionQueueEntry
) {
    if spec_entry_expired(e, now) {
        RetransmissionQueueEntry {
            packet: e.packet,
            latest_transmission_time: now,
            transmission_count: (e.transmission_count + 1) as u8,
        }
    } else {
        e
    }
}

/// Every entry's payload fits a TCP segment, so its sequence length can be
/// computed without overflow.
pub open spec fn queue_wf(q: Seq<RetransmissionQueueEntry>) -> bool {
    forall|i: int| 0 <= i < q.len() ==> (#[trigger] q[i]).packet.payload@.len() <= 65515
}

impl RetransmissionQueueEntry {
    /// Whether the cumulative acknowledgment point covers this entry.
    pub fn is_acked(&self, unacked_seq: u32) -> (r: bool)
        requires
            self.packet.payload@.len() <= 65515,
        ensures
            r == spec_entry_acked(*self, unacked_seq),
    {
        let len = self.packet.sequence_length();
        let d: u64 = wrapping_distance(self.packet.seq, unacked_seq) as u64;
        (len as u64) <= d && d < (len as u64) + 0x8000_0000
    }

    /// Whether this entry has waited out its backoff threshold.
    pub fn is_expired(&self, now: u64) -> (r: bool)
        ensures
            r == spec_entry_expired(*self, now),
    {
        now >= self.latest_transmission_time && now - self.latest_transmission_time
            >= backoff_threshold(self.transmission_count)
    }
}

/// The entries worth keeping once `una` is the acknowledgment point.
pub open spec fn keep_pred(una: u32) -> spec_fn(RetransmissionQueueEntry) -> bool {
    |e: RetransmissionQueueEntry| !spec_entry_acked(e, una)
}

/// What the sweep at time `now` does to each kept entry.
pub open spec fn advance_fn(now: u64) -> spec_fn(RetransmissionQueueEntry) -> RetransmissionQueueEntry {
    |e: RetransmissionQueueEntry| spec_advance_entry(e, now)
}

proof fn lemma_filter_push<A>(s: Seq<A>, x: A, pred: spec_fn(A) -> bool)
    ensures
        s.push(x).filter(pred) == if pred(x) {
            s.filter(pred).push(x)
        } else {
            s.filter(pred)
        },
{
    reveal(Seq::filter);
    assert(s.push(x).drop_last() =~= s);
    assert(s.push(x).last() == x);
}

/// Removes every entry whose sequence range the acknowledgment point
/// `unacked_seq` covers.  This is the only path by which the queue shrinks
/// while a connection lives: an entry that is not acknowledged stays.
pub fn purge_acked(q: &mut Vec<RetransmissionQueueEntry>, unacked_seq: u32)
    requires
        queue_wf(old(q)@),
    ensures
        final(q)@ == old(q)@.filter(keep_pred(unacked_seq)),
        queue_wf(final(q)@),
{
    let ghost q0 = q@;
    let mut kept: Vec<RetransmissionQueueEntry> = Vec::new();
    proof {
        assert(q0.subrange(0, 0).filter(keep_pred(unacked_seq)) =~= Seq::<
            RetransmissionQueueEntry,
        >::empty());
    }
    while q.len() > 0
        invariant
            q@.len() <= q0.len(),
            q@ == q0.subrange(q0.len() - q@.len(), q0.len() as int),
            kept@ == q0.subrange(0, q0.len() - q@.len()).filter(keep_pred(unacked_seq)),
            queue_wf(q0),
            queue_wf(kept@),
        decreases q@.len(),
    {
        let ghost done = q0.len() - q@.len();
        let e = q.remove(0);
        proof {
            assert(e == q0[done]);
            assert(q@ =~= q0.subrange(q0.len() - q@.len(), q0.len() as int));
            assert(q0.subrange(0, done + 1) =~= q0.subrange(0, done).push(e));
            lemma_filter_push(q0.subrange(0, done), e, keep_pred(unacked_seq));
            assert(keep_pred(unacked_seq)(e) == !spec_entry_acked(e, unacked_seq));
        }
        if !e.is_acked(unacked_seq) {
            kept.push(e);
        }
    }
    proof {
        assert(q0.subrange(0, q0.len() as int) =~= q0);
    }
    *q = kept;
}

/// Retransmission floor: a payload-bearing or flag-bearing segment that was
/// recorded and is not yet covered by the acknowledgment point survives a
/// purge of the queue.  Together with `purge_acked` and `tick`, which
/// remove entries only when acknowledged (or when the whole connection is
/// aborted at the retry cap), an unacknowledged segment stays queued until
/// it is acknowledged or the connection dies.
pub proof fn lemma_retransmission_floor(q: Seq<RetransmissionQueueEntry>, una: u32, i: int)
    requires
        0 <= i < q.len(),
        !spec_entry_acked(q[i], una),
    ensures
        q.filter(keep_pred(una)).contains(q[i]),
{
    assert(keep_pred(una)(q[i]));
    q.lemma_filter_contains(keep_pred(una), i);
}

/// One pass of the timer-driven retransmission engine over the queue.
///
/// Entries the acknowledgment point covers are removed.  Of the remaining
/// entries, those whose backoff threshold has elapsed are due out again:
/// their transmission count rises, their timestamp is refreshed, and their
/// positions in the final queue are returned for the caller to put back on
/// the wire.  An expired entry already at the retry cap aborts instead: the
/// queue is drained and the sweep reports the connection dead.
pub fn tick(q: &mut Vec<RetransmissionQueueEntry>, unacked_seq: u32, now: u64) -> (r: Result<
    Vec<usize>,
    TcpError,
>)
    requires
        queue_wf(old(q)@),
    ensures
        queue_wf(final(q)@),
        r matches Err(e) ==> e == TcpError::RetransmissionExhausted && final(q)@.len() == 0 && (
        exists|i: int|
            0 <= i < old(q)@.len() && !spec_entry_acked(#[trigger] old(q)@[i], unacked_seq)
                && spec_entry_expired(old(q)@[i], now) && old(q)@[i].transmission_count
                >= RETRANSMISSION_LIMIT),
        r matches Ok(out) ==> ({
            let kept = old(q)@.filter(keep_pred(unacked_seq));
            &&& final(q)@ == kept.map_values(advance_fn(now))
            &&& forall|j: int|
                0 <= j < out@.len() ==> (#[trigger] out@[j]) < kept.len() && spec_entry_expired(
                    kept[out@[j] as int],
                    now,
                )
            &&& forall|i: int|
                0 <= i < kept.len() && spec_entry_expired(#[trigger] kept[i], now)
                    ==> out@.contains(i as usize)
            &&& forall|a: int, b: int|
                #![trigger out@[a], out@[b]]
                0 <= a < b < out@.len() ==> out@[a] < out@[b]
        }),
{
    let ghost q0 = q@;
    let mut kept: Vec<RetransmissionQueueEntry> = Vec::new();
    let mut out: Vec<usize> = Vec::new();
    proof {
        assert(q0.subrange(0, 0).filter(keep_pred(unacked_seq)) =~= Seq::<
            RetransmissionQueueEntry,
        >::empty());
    }
    while q.len() > 0
        invariant
            q0 == old(q)@,
            q@.len() <= q0.len(),
            q@ == q0.subrange(q0.len() - q@.len(), q0.len() as int),
            queue_wf(q0),
            kept@.len() == q0.subrange(0, q0.len() - q@.len()).filter(keep_pred(unacked_seq)).len(),
            kept@ == q0.subrange(0, q0.len() - q@.len()).filter(keep_pred(unacked_seq)).map_values(
                advance_fn(now),
            ),
            queue_wf(kept@),
            forall|j: int|
                0 <= j < out@.len() ==> (#[trigger] out@[j]) < kept@.len() && spec_entry_expired(
                    q0.subrange(0, q0.len() - q@.len()).filter(keep_pred(unacked_seq))[out@[j] as int],
                    now,
                ),
            forall|i: int|
                0 <= i < kept@.len() && spec_entry_expired(
                    #[trigger] q0.subrange(0, q0.len() - q@.len()).filter(keep_pred(unacked_seq))[i],
                    now,
                ) ==> out@.contains(i as usize),
            forall|a: int, b: int|
                #![trigger out@[a], out@[b]]
                0 <= a < b < out@.len() ==> out@[a] < out@[b],
        decreases q@.len(),
    {
        let ghost done = q0.len() - q@.len();
        let ghost kept_before = q0.subrange(0, done).filter(keep_pred(unacked_seq));
        let e = q.remove(0);
        proof {
            assert(e == q0[done]);
            assert(q@ =~= q0.subrange(q0.len() - q@.len(), q0.len() as int));
            assert(q0.subrange(0, done + 1) =~= q0.subrange(0, done).push(e));
            lemma_filter_push(q0.subrange(0, done), e, keep_pred(unacked_seq));
            assert(keep_pred(unacked_seq)(e) == !spec_entry_acked(e, unacked_seq));
            assert(advance_fn(now)(e) == spec_advance_entry(e, now));
        }
        if !e.is_acked(unacked_seq) {
            if e.is_expired(now) {
                if e.transmission_count >= RETRANSMISSION_LIMIT {
                    q.clear();
                    proof {
                        assert(old(q)@ == q0);
                        assert(0 <= done < old(q)@.len());
                        assert(!spec_entry_acked(#[trigger] old(q)@[done], unacked_seq)
                            && spec_entry_expired(old(q)@[done], now)
                            && old(q)@[done].transmission_count >= RETRANSMISSION_LIMIT);
                    }
                    return Err(TcpError::RetransmissionExhausted);
                }
                let ghost out_before = out@;
                let ghost pos = kept@.len();
                out.push(kept.len());
                kept.push(
                    RetransmissionQueueEntry {
                        packet: e.packet,
                        latest_transmission_time: now,
                        transmission_count: e.transmission_count + 1,
                    },
                );
                proof {
                    let kf = kept_before.push(e);
                    assert(q0.subrange(0, done + 1).filter(keep_pred(unacked_seq)) == kf);
                    assert(kept@ =~= kf.map_values(advance_fn(now)));
                    assert(kf[pos as int] == e);
                    assert(out@ == out_before.push(pos as usize));
                    assert forall|j: int| 0 <= j < out@.len() implies (#[trigger] out@[j])
                        < kept@.len() && spec_entry_expired(kf[out@[j] as int], now) by {
                        if j < out_before.len() {
                            assert(out@[j] == out_before[j]);
                            assert(kf[out@[j] as int] == kept_before[out@[j] as int]);
                        } else {
                            assert(out@[j] == pos as usize);
                        }
                    }
                    assert forall|i: int|
                        0 <= i < kept@.len() && spec_entry_expired(#[trigger] kf[i], now)
                        implies out@.contains(i as usize) by {
                        if i < pos {
                            assert(kf[i] == kept_before[i]);
                            assert(out_before.contains(i as usize));
                            let w = choose|w: int|
                                0 <= w < out_before.len() && out_before[w] == i as usize;
                            assert(out@[w] == i as usize);
                        } else {
                            assert(out@[out@.len() - 1] == pos as usize);
                        }
                    }
                    assert forall|a: int, b: int|
                        #![trigger out@[a], out@[b]]
                        0 <= a < b < out@.len() implies out@[a] < out@[b] by {
                        if b < out_before.len() {
                            assert(out@[a] == out_before[a] && out@[b] == out_before[b]);
                        } else {
                            assert(out@[b] == pos as usize);
                            assert(out@[a] == out_before[a]);
                            assert(out_before[a] < pos);
                        }
                    }
                }
            } else {
                kept.push(e);
                proof {
                    let kf = kept_before.push(e);
                    assert(q0.subrange(0, done + 1).filter(keep_pred(unacked_seq)) == kf);
                    assert(kept@ =~= kf.map_values(advance_fn(now)));
                    assert forall|j: int| 0 <= j < out@.len() implies (#[trigger] out@[j])
                        < kept@.len() && spec_entry_expired(kf[out@[j] as int], now) by {
                        assert(kf[out@[j] as int] == kept_before[out@[j] as int]);
                    }
                    assert forall|i: int|
                        0 <= i < kept@.len() && spec_entry_expired(#[trigger] kf[i], now)
                        implies out@.contains(i as usize) by {
                        if i < kept_before.len() {
                            assert(kf[i] == kept_before[i]);
                        } else {
                            assert(kf[i] == e);
                            assert(!spec_entry_expired(e, now));
                        }
                    }
                }
            }
        }
    }
    proof {
        assert(q0.subrange(0, q0.len() as int) =~= q0);
    }
    *q = kept;
    Ok(out)
}

} // verus!
