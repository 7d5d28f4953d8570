use vstd::prelude::*;
use crate::seq_space::{dist, seq_le, lemma_dist_add, lemma_dist_rebase, wrapping_distance};

verus! {

/// A received-but-ungapped segment boundary: the half-open sequence range
/// `[start, end)` of payload that arrived ahead of the in-order cursor.
pub type SegmentRange = (u32, u32);

/// A pending range is strictly ahead of the in-order cursor `next`, is
/// non-empty, and lies within the forward half of the sequence space.
pub open spec fn tail_ok(next: u32, t: SegmentRange) -> bool {
    0 < dist(next, t.0) && dist(next, t.0) < dist(next, t.1) && dist(next, t.1) < 0x8000_0000
}

/// Receive-direction bookkeeping: the next sequence number expected in
/// order (the sole value ever acknowledged back to the peer), the advertised
/// window, the peer's initial sequence number, and the out-of-order ranges
/// received ahead of `next`, kept sorted by start and pairwise disjoint.
pub struct RecvParam {
    pub next: u32,
    pub window: u16,
    pub initial_seq: u32,
    pub tails: Vec<SegmentRange>,
}

/// The arrival is the segment expected next in order: it begins exactly at
/// the cursor and ends strictly ahead of it.
pub open spec fn spec_in_order(next: u32, start: u32, end: u32) -> bool {
    start == next && 0 < dist(next, end) < 0x8000_0000
}

/// The arrival is strictly ahead of the cursor: a gap precedes it.
pub open spec fn spec_out_of_order(next: u32, start: u32, end: u32) -> bool {
    0 < dist(next, start) && dist(next, start) < dist(next, end) < 0x8000_0000
}

/// Some pending range of `tails` covers the whole arrival `[start, end)`.
pub open spec fn spec_covered(tails: Seq<SegmentRange>, next: u32, start: u32, end: u32) -> bool {
    exists|i: int|
        0 <= i < tails.len() && dist(next, (#[trigger] tails[i]).0) <= dist(next, start) && dist(
            next,
            end,
        ) <= dist(next, tails[i].1)
}

/// The arrival `[start, end)` overlaps no pending range of `tails`.
pub open spec fn spec_disjoint_from_all(
    tails: Seq<SegmentRange>,
    next: u32,
    start: u32,
    end: u32,
) -> bool {
    forall|i: int|
        0 <= i < tails.len() ==> dist(next, (#[trigger] tails[i]).1) <= dist(next, start) || dist(
            next,
            end,
        ) <= dist(next, tails[i].0)
}

/// Position `p`, measured forward from `base`, lies inside one of the first
/// `bound` ranges of `tails`.
pub open spec fn covered_pos(tails: Seq<SegmentRange>, bound: int, base: u32, p: int) -> bool {
    exists|i: int|
        0 <= i < bound && dist(base, (#[trigger] tails[i]).0) <= p < dist(base, tails[i].1)
}

/// Exactly-once delivery in sequence space.  Measure byte positions
/// forward from the stream origin (the first in-order sequence number).
/// Two successive deliveries advance the cursor from `n0` to `n1` and then
/// from `n1` to `n2`, and `on_segment` guarantees each delivery spans
/// exactly the cursor interval.  As long as the stream has not wrapped the
/// whole sequence space, the delivered position ranges
/// `[dist(origin, n0), dist(origin, n1))` and
/// `[dist(origin, n1), dist(origin, n2))` are adjacent and disjoint: every
/// byte position reaches the application at most once and in order,
/// whatever interleaving of duplicates and reorderings arrived.
pub proof fn lemma_deliveries_adjacent(origin: u32, n0: u32, n1: u32, n2: u32)
    requires
        dist(origin, n0) + dist(n0, n1) + dist(n1, n2) < 0x1_0000_0000,
    ensures
        dist(origin, n1) == dist(origin, n0) + dist(n0, n1),
        dist(origin, n2) == dist(origin, n1) + dist(n1, n2),
        dist(origin, n0) <= dist(origin, n1) <= dist(origin, n2),
{
    lemma_dist_add(origin, n0, n1);
    lemma_dist_add(origin, n1, n2);
}

/// What became of an arrived payload range.
#[derive(Clone, Copy, PartialEq, Eq, Structural, Debug)]
pub enum SegmentArrival {
    /// The range began at the cursor: it was delivered and the cursor
    /// advanced, folding in any pending ranges made contiguous.
    Delivered,
    /// The range lies ahead of the cursor: it was recorded (or was already
    /// covered by a recorded range) and the cursor did not move.
    Stored,
    /// The range lies at or behind the cursor: its bytes were already
    /// delivered, so only a duplicate acknowledgment is owed.
    Duplicate,
    /// The range is irregular for the current state (empty, reaching too
    /// far, or straddling recorded data): it is discarded with no change.
    Dropped,
}

impl RecvParam {
    /// Well-formedness: every pending range is strictly ahead of the cursor
    /// and within the forward half-space, and the ranges are sorted by start
    /// and pairwise disjoint.
    pub open spec fn wf(&self) -> bool {
        &&& forall|i: int|
            0 <= i < self.tails@.len() ==> tail_ok(self.next, #[trigger] self.tails@[i])
        &&& forall|i: int, j: int|
            #![trigger self.tails@[i], self.tails@[j]]
            0 <= i < j < self.tails@.len() ==> dist(self.next, self.tails@[i].1) <= dist(
                self.next,
                self.tails@[j].0,
            )
    }

    /// Creates the receive bookkeeping with an empty pending set.
    pub fn new(window: u16) -> (r: RecvParam)
        ensures
            r.next == 0,
            r.window == window,
            r.initial_seq == 0,
            r.tails@.len() == 0,
            r.wf(),
    {
        RecvParam { next: 0, window, initial_seq: 0, tails: Vec::new() }
    }

    /// Reacts to an arrived payload range `[start, end)`.
    ///
    /// An in-order range is delivered: the cursor advances past it and then
    /// past every pending range it has made contiguous, each folded range
    /// being removed.  An out-of-order range is recorded without moving the
    /// cursor, unless a recorded range already covers it.  A range at or
    /// behind the cursor is a duplicate.  The cursor never moves backward,
    /// and it only ever advances over bytes that arrived: the newly
    /// delivered positions beyond the segment itself are all covered by the
    /// folded ranges, so an interleaving of duplicates and reorderings can
    /// never deliver a byte position twice nor invent one.
    #[verifier::rlimit(60)]
    pub fn on_segment(&mut self, start: u32, end: u32) -> (r: SegmentArrival)
        requires
            old(self).wf(),
        ensures
            final(self).wf(),
            final(self).window == old(self).window,
            final(self).initial_seq == old(self).initial_seq,
            seq_le(old(self).next, final(self).next),
            (r == SegmentArrival::Delivered) <==> spec_in_order(old(self).next, start, end),
            (r == SegmentArrival::Duplicate) <==> dist(old(self).next, start) >= 0x8000_0000,
            (r == SegmentArrival::Stored) <==> (spec_out_of_order(old(self).next, start, end) && (
            spec_covered(old(self).tails@, old(self).next, start, end) || spec_disjoint_from_all(
                old(self).tails@,
                old(self).next,
                start,
                end,
            ))),
            r != SegmentArrival::Delivered ==> final(self).next == old(self).next,
            (r == SegmentArrival::Duplicate || r == SegmentArrival::Dropped) ==> *final(self)
                == *old(self),
            r == SegmentArrival::Stored && spec_covered(old(self).tails@, old(self).next, start, end)
                ==> *final(self) == *old(self),
            r == SegmentArrival::Stored && !spec_covered(
                old(self).tails@,
                old(self).next,
                start,
                end,
            ) ==> exists|k: int|
                0 <= k <= old(self).tails@.len() && final(self).tails@ == #[trigger] old(
                    self,
                ).tails@.insert(k, (start, end)),
            r == SegmentArrival::Stored ==> {
                &&& forall|i: int|
                    0 <= i < old(self).tails@.len() ==> final(self).tails@.contains(
                        #[trigger] old(self).tails@[i],
                    )
                &&& forall|i: int|
                    0 <= i < final(self).tails@.len() ==> #[trigger] final(self).tails@[i] == (
                    start,
                    end,
                ) || old(self).tails@.contains(final(self).tails@[i])
                &&& spec_covered(final(self).tails@, final(self).next, start, end)
            },
            r == SegmentArrival::Delivered ==> {
                let t0 = old(self).tails@;
                let folded = t0.len() - final(self).tails@.len();
                &&& final(self).tails@.len() <= t0.len()
                &&& final(self).tails@ == t0.subrange(folded as int, t0.len() as int)
                &&& dist(old(self).next, end) <= dist(old(self).next, final(self).next)
                    < 0x8000_0000
                &&& forall|i: int|
                    0 <= i < folded ==> dist(old(self).next, (#[trigger] t0[i]).1) <= dist(
                        old(self).next,
                        final(self).next,
                    )
                &&& forall|i: int|
                    folded <= i < t0.len() ==> dist(old(self).next, (#[trigger] t0[i]).0) > dist(
                        old(self).next,
                        final(self).next,
                    )
                &&& forall|p: int|
                    dist(old(self).next, end) <= p < dist(old(self).next, final(self).next)
                        ==> #[trigger] covered_pos(t0, folded as int, old(self).next, p)
                &&& (final(self).next == end || exists|i: int|
                    0 <= i < folded && final(self).next == (#[trigger] t0[i]).1)
            },
    {
        let d_start = wrapping_distance(self.next, start);
        let d_end = wrapping_distance(self.next, end);
        if d_start == 0 {
            // The segment begins at the cursor.
            if d_end == 0 || d_end >= 0x8000_0000 {
                return SegmentArrival::Dropped;
            }
            let base = self.next;
            let ghost t0 = self.tails@;
            let ghost w0 = self.window;
            let ghost is0 = self.initial_seq;
            self.next = end;
            let mut cur: u32 = d_end;
            let ghost mut folded: int = 0;
            loop
                invariant
                    0 <= folded <= t0.len(),
                    self.tails@ == t0.subrange(folded, t0.len() as int),
                    self.window == w0,
                    self.initial_seq == is0,
                    cur == dist(base, self.next),
                    d_end <= cur < 0x8000_0000,
                    forall|i: int| 0 <= i < t0.len() ==> tail_ok(base, #[trigger] t0[i]),
                    forall|i: int, j: int|
                        #![trigger t0[i], t0[j]]
                        0 <= i < j < t0.len() ==> dist(base, t0[i].1) <= dist(base, t0[j].0),
                    forall|i: int| 0 <= i < folded ==> dist(base, (#[trigger] t0[i]).1) <= cur,
                    forall|p: int| d_end <= p < cur ==> #[trigger] covered_pos(t0, folded, base, p),
                    self.next == end || exists|i: int|
                        0 <= i < folded && self.next == (#[trigger] t0[i]).1,
                ensures
                    folded == t0.len() || dist(base, t0[folded].0) > cur,
                decreases self.tails@.len(),
            {
                if self.tails.len() == 0 {
                    break ;
                }
                let t = self.tails[0];
                proof {
                    assert(t == t0[folded]);
                }
                let ts = wrapping_distance(base, t.0);
                let te = wrapping_distance(base, t.1);
                if ts > cur {
                    break ;
                }
                let ghost cur0 = cur;
                if cur < te {
                    self.next = t.1;
                    cur = te;
                }
                self.tails.remove(0);
                proof {
                    let oldf = folded;
                    folded = folded + 1;
                    assert(self.tails@ =~= t0.subrange(folded, t0.len() as int));
                    assert forall|p: int| d_end <= p < cur implies #[trigger] covered_pos(
                        t0,
                        folded,
                        base,
                        p,
                    ) by {
                        if p < cur0 {
                            assert(covered_pos(t0, oldf, base, p));
                            let w = choose|w: int|
                                0 <= w < oldf && dist(base, (#[trigger] t0[w]).0) <= p < dist(
                                    base,
                                    t0[w].1,
                                );
                            assert(dist(base, (t0[w]).0) <= p < dist(base, t0[w].1));
                        } else {
                            assert(dist(base, (t0[oldf]).0) <= p < dist(base, t0[oldf].1));
                        }
                    }
                    if cur != cur0 {
                        assert(self.next == (t0[oldf]).1);
                    }
                }
            }
            proof {
                let n1 = self.next;
                assert forall|i: int| folded <= i < t0.len() implies dist(
                    base,
                    (#[trigger] t0[i]).0,
                ) > cur by {
                    assert(dist(base, t0[folded].0) > cur);
                    assert(tail_ok(base, t0[folded]));
                    if i > folded {
                        assert(dist(base, t0[folded].1) <= dist(base, t0[i].0));
                    }
                }
                assert forall|i: int| 0 <= i < self.tails@.len() implies tail_ok(
                    n1,
                    #[trigger] self.tails@[i],
                ) by {
                    let t = self.tails@[i];
                    assert(t == t0[folded + i]);
                    assert(tail_ok(base, t));
                    if i > 0 {
                        assert(dist(base, t0[folded].1) <= dist(base, t.0));
                        assert(tail_ok(base, t0[folded]));
                    }
                    lemma_dist_rebase(base, n1, t.0);
                    lemma_dist_rebase(base, n1, t.1);
                }
                assert forall|i: int, j: int|
                    #![trigger self.tails@[i], self.tails@[j]]
                    0 <= i < j < self.tails@.len() implies dist(n1, self.tails@[i].1) <= dist(
                    n1,
                    self.tails@[j].0,
                ) by {
                    let a = self.tails@[i];
                    let b = self.tails@[j];
                    assert(a == t0[folded + i] && b == t0[folded + j]);
                    assert(dist(base, a.1) <= dist(base, b.0));
                    assert(tail_ok(base, a) && tail_ok(base, b));
                    if i > 0 {
                        assert(dist(base, t0[folded].1) <= dist(base, a.0));
                        assert(tail_ok(base, t0[folded]));
                    }
                    lemma_dist_rebase(base, n1, a.1);
                    lemma_dist_rebase(base, n1, b.0);
                }
            }
            SegmentArrival::Delivered
        } else if d_start < 0x8000_0000 {
            // The segment lies ahead of the cursor.
            if !(d_start < d_end && d_end < 0x8000_0000) {
                return SegmentArrival::Dropped;
            }
            let mut k: usize = 0;
            while k < self.tails.len() && wrapping_distance(self.next, self.tails[k].1) <= d_start
                invariant
                    0 <= k <= self.tails@.len(),
                    forall|i: int|
                        0 <= i < k ==> dist(self.next, (#[trigger] self.tails@[i]).1) <= d_start,
                decreases self.tails@.len() - k,
            {
                k += 1;
            }
            if k < self.tails.len() {
                let t = self.tails[k];
                let ts = wrapping_distance(self.next, t.0);
                let te = wrapping_distance(self.next, t.1);
                if ts <= d_start && d_end <= te {
                    // Already covered by a recorded range: deduplicate.
                    proof {
                        assert(dist(self.next, (self.tails@[k as int]).0) <= dist(
                            self.next,
                            start,
                        ) && dist(self.next, end) <= dist(self.next, self.tails@[k as int].1));
                        assert(spec_covered(self.tails@, self.next, start, end));
                        assert forall|i: int|
                            0 <= i < self.tails@.len() implies self.tails@.contains(
                            #[trigger] self.tails@[i],
                        ) by {
                            assert(self.tails@[i] == self.tails@[i]);
                        }
                    }
                    return SegmentArrival::Stored;
                }
                if ts < d_end {
                    // Straddles a recorded range without covering it.
                    proof {
                        assert forall|i: int|
                            0 <= i < self.tails@.len() && dist(
                                self.next,
                                (#[trigger] self.tails@[i]).0,
                            ) <= d_start implies !(d_end <= dist(self.next, self.tails@[i].1)) by {
                            if i > k {
                                assert(dist(self.next, self.tails@[k as int].1) <= dist(
                                    self.next,
                                    self.tails@[i].0,
                                ));
                                assert(tail_ok(self.next, self.tails@[k as int]));
                            }
                        }
                        assert(!spec_covered(self.tails@, self.next, start, end));
                        assert(!spec_disjoint_from_all(self.tails@, self.next, start, end));
                    }
                    return SegmentArrival::Dropped;
                }
            }
            let ghost told = self.tails@;
            proof {
                // The arrival is disjoint from every recorded range: the
                // scanned prefix ends at or before it, and everything from
                // position `k` on starts at or after its end.
                assert forall|i: int|
                    0 <= i < told.len() implies dist(self.next, (#[trigger] told[i]).1) <= dist(
                    self.next,
                    start,
                ) || dist(self.next, end) <= dist(self.next, told[i].0) by {
                    if i >= k {
                        assert(tail_ok(self.next, told[k as int]));
                        if i > k {
                            assert(dist(self.next, told[k as int].1) <= dist(
                                self.next,
                                told[i].0,
                            ));
                        }
                    }
                }
                assert(spec_disjoint_from_all(told, self.next, start, end));
            }
            self.tails.insert(k, (start, end));
            proof {
                assert(!spec_covered(told, self.next, start, end));
                assert(self.tails@ == told.insert(k as int, (start, end)));
                told.insert_ensures(k as int, (start, end));
                assert(self.tails@[k as int] == (start, end));
                assert forall|i: int| 0 <= i < told.len() implies self.tails@.contains(
                    #[trigger] told[i],
                ) by {
                    if i < k {
                        assert(self.tails@[i] == told[i]);
                    } else {
                        assert(self.tails@[i + 1] == told[i]);
                    }
                }
                assert forall|i: int| 0 <= i < self.tails@.len() implies #[trigger] self.tails@[i]
                    == (start, end) || told.contains(self.tails@[i]) by {
                    if i < k {
                        assert(self.tails@[i] == told[i]);
                        assert(told.contains(told[i]));
                    } else if i > k {
                        assert(self.tails@[i] == told[i - 1]);
                        assert(told.contains(told[i - 1]));
                    }
                }
                assert(spec_covered(self.tails@, self.next, start, end));
                // Well-formedness of the enlarged set.
                assert forall|i: int| 0 <= i < self.tails@.len() implies tail_ok(
                    self.next,
                    #[trigger] self.tails@[i],
                ) by {
                    if i < k {
                        assert(self.tails@[i] == told[i]);
                    } else if i > k {
                        assert(self.tails@[i] == told[i - 1]);
                    }
                }
                assert forall|i: int, j: int|
                    #![trigger self.tails@[i], self.tails@[j]]
                    0 <= i < j < self.tails@.len() implies dist(self.next, self.tails@[i].1)
                    <= dist(self.next, self.tails@[j].0) by {
                    let ki = k as int;
                    if j < ki {
                        assert(self.tails@[i] == told[i] && self.tails@[j] == told[j]);
                    } else if i < ki && j == ki {
                        assert(self.tails@[i] == told[i]);
                        assert(dist(self.next, told[i].1) <= d_start);
                    } else if i < ki && j > ki {
                        assert(self.tails@[i] == told[i] && self.tails@[j] == told[j - 1]);
                    } else if i == ki {
                        assert(self.tails@[j] == told[j - 1]);
                        assert(dist(self.next, told[j - 1].1) <= dist(self.next, start) || dist(
                            self.next,
                            end,
                        ) <= dist(self.next, told[j - 1].0));
                        assert(tail_ok(self.next, told[j - 1]));
                    } else {
                        assert(self.tails@[i] == told[i - 1] && self.tails@[j] == told[j - 1]);
                    }
                }
            }
            SegmentArrival::Stored
        } else {
            // The segment lies at or behind the cursor: already delivered.
            SegmentArrival::Duplicate
        }
    }
}

} // verus!
