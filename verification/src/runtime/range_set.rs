//! Canonical sets of durable lane sequences.
//!
//! A `RangeSet` holds half-open ranges that are non-empty, sorted, disjoint
//! and non-adjacent, so every set of sequences has exactly one representation.
use crate::protocol::types::{AudioAcknowledgementV1, LaneId, SegmentId, SequenceRangeV1};
use crate::protocol::validate::{ack_covers, ack_ranges_ok, json_ok, range_contains};
use vstd::prelude::*;

verus! {

/// Ranges that are non-empty and strictly ordered with a gap between any two.
pub open spec fn canonical(rs: Seq<SequenceRangeV1>) -> bool {
    &&& forall|i: int| 0 <= i < rs.len() ==> (#[trigger] rs[i]).start < rs[i].end_exclusive
    &&& forall|a: int, b: int|
        0 <= a < b < rs.len() ==> (#[trigger] rs[a]).end_exclusive < (#[trigger] rs[b]).start
}

/// Some range of the list holds the sequence.
pub open spec fn covered(rs: Seq<SequenceRangeV1>, s: u64) -> bool {
    exists|i: int| 0 <= i < rs.len() && range_contains(#[trigger] rs[i], s)
}

/// Durable coverage of one lane.
#[derive(Debug, Clone)]
pub struct RangeSet {
    pub ranges: Vec<SequenceRangeV1>,
}

impl RangeSet {
    pub open spec fn wf(&self) -> bool {
        canonical(self.ranges@)
    }

    /// The set holds `s`.
    pub open spec fn has(&self, s: u64) -> bool {
        covered(self.ranges@, s)
    }

    pub fn new() -> (r: Self)
        ensures
            r.wf(),
            forall|s: u64| !r.has(s),
    {
        RangeSet { ranges: Vec::new() }
    }

    /// Adds every sequence of `added`, merging overlapping and adjacent ranges.
    pub fn add(&mut self, added: SequenceRangeV1)
        requires
            old(self).wf(),
            added.start <= added.end_exclusive,
        ensures
            final(self).wf(),
            forall|s: u64| #[trigger] final(self).has(s) <==> (old(self).has(s) || range_contains(added, s)),
            added.start == added.end_exclusive ==> *final(self) == *old(self),
    {
        if added.start == added.end_exclusive {
            return;
        }
        let ghost rs = self.ranges@;
        let ghost orig = added;
        let mut cur = added;
        let mut merged: Vec<SequenceRangeV1> = Vec::new();
        let mut inserted = false;
        let mut i: usize = 0;
        while i < self.ranges.len()
            invariant
                rs == self.ranges@,
                canonical(rs),
                canonical(merged@),
                0 <= i <= rs.len(),
                cur.start < cur.end_exclusive,
                cur.start <= orig.start,
                orig.end_exclusive <= cur.end_exclusive,
                forall|m: int, j: int|
                    0 <= m < merged.len() && i <= j < rs.len() ==> (#[trigger] merged@[m]).end_exclusive
                        < (#[trigger] rs[j]).start,
                !inserted ==> forall|m: int|
                    0 <= m < merged.len() ==> (#[trigger] merged@[m]).end_exclusive < cur.start,
                inserted ==> forall|j: int| i <= j < rs.len() ==> cur.end_exclusive < (#[trigger] rs[j]).start,
                forall|s: u64|
                    (covered(rs, s) || range_contains(orig, s)) <==> (covered(merged@, s) || (!inserted
                        && range_contains(cur, s)) || exists|j: int|
                        i <= j < rs.len() && range_contains(#[trigger] rs[j], s)),
                forall|s: u64| range_contains(cur, s) ==> (covered(rs, s) || range_contains(orig, s)),
            decreases rs.len() - i,
        {
            let range = self.ranges[i];
            let ghost old_merged = merged@;
            let ghost old_cur = cur;
            if range.end_exclusive < cur.start {
                merged.push(range);
                proof {
                    assert forall|a: int, b: int| 0 <= a < b < merged@.len() implies (#[trigger] merged@[a]).end_exclusive < (#[trigger] merged@[b]).start by {
                        if b == merged@.len() - 1 {
                            assert(merged@[a] == old_merged[a]);
                            assert(old_merged[a].end_exclusive < rs[i as int].start);
                        }
                    }
                    assert forall|s: u64| covered(merged@, s) <==> (covered(old_merged, s) || range_contains(range, s)) by {
                        if covered(merged@, s) {
                            let k = choose|k: int| 0 <= k < merged@.len() && range_contains(#[trigger] merged@[k], s);
                            if k < old_merged.len() {
                                assert(old_merged[k] == merged@[k]);
                            }
                        }
                        if covered(old_merged, s) {
                            let k = choose|k: int| 0 <= k < old_merged.len() && range_contains(#[trigger] old_merged[k], s);
                            assert(merged@[k] == old_merged[k]);
                        }
                        if range_contains(range, s) {
                            assert(merged@[merged@.len() - 1] == range);
                        }
                    }
                    lemma_tail_split(rs, i as int);
                }
            } else if cur.end_exclusive < range.start {
                if !inserted {
                    merged.push(cur);
                    inserted = true;
                    proof {
                        assert forall|a: int, b: int| 0 <= a < b < merged@.len() implies (#[trigger] merged@[a]).end_exclusive < (#[trigger] merged@[b]).start by {
                            if b == merged@.len() - 1 {
                                assert(merged@[a] == old_merged[a]);
                            }
                        }
                        assert forall|s: u64| covered(merged@, s) <==> (covered(old_merged, s) || range_contains(cur, s)) by {
                            if covered(merged@, s) {
                                let k = choose|k: int| 0 <= k < merged@.len() && range_contains(#[trigger] merged@[k], s);
                                if k < old_merged.len() {
                                    assert(old_merged[k] == merged@[k]);
                                }
                            }
                            if covered(old_merged, s) {
                                let k = choose|k: int| 0 <= k < old_merged.len() && range_contains(#[trigger] old_merged[k], s);
                                assert(merged@[k] == old_merged[k]);
                            }
                            if range_contains(cur, s) {
                                assert(merged@[merged@.len() - 1] == cur);
                            }
                        }
                    }
                }
                let ghost mid_merged = merged@;
                merged.push(range);
                proof {
                    assert(forall|j: int| i < j < rs.len() ==> rs[i as int].end_exclusive < #[trigger] rs[j].start);
                    assert forall|a: int, b: int| 0 <= a < b < merged@.len() implies (#[trigger] merged@[a]).end_exclusive < (#[trigger] merged@[b]).start by {
                        if b == merged@.len() - 1 {
                            assert(merged@[a] == mid_merged[a]);
                            if a < old_merged.len() {
                                assert(old_merged[a] == mid_merged[a]);
                            }
                        }
                    }
                    assert forall|s: u64| covered(merged@, s) <==> (covered(mid_merged, s) || range_contains(range, s)) by {
                        if covered(merged@, s) {
                            let k = choose|k: int| 0 <= k < merged@.len() && range_contains(#[trigger] merged@[k], s);
                            if k < mid_merged.len() {
                                assert(mid_merged[k] == merged@[k]);
                            }
                        }
                        if covered(mid_merged, s) {
                            let k = choose|k: int| 0 <= k < mid_merged.len() && range_contains(#[trigger] mid_merged[k], s);
                            assert(merged@[k] == mid_merged[k]);
                        }
                        if range_contains(range, s) {
                            assert(merged@[merged@.len() - 1] == range);
                        }
                    }
                    assert forall|m: int, j: int| 0 <= m < merged.len() && i + 1 <= j < rs.len() implies (#[trigger] merged@[m]).end_exclusive < (#[trigger] rs[j]).start by {
                        if m < mid_merged.len() {
                            assert(merged@[m] == mid_merged[m]);
                            if m < old_merged.len() {
                                assert(old_merged[m] == mid_merged[m]);
                            }
                        }
                    }
                    lemma_tail_split(rs, i as int);
                }
            } else {
                if range.start < cur.start {
                    cur.start = range.start;
                }
                if range.end_exclusive > cur.end_exclusive {
                    cur.end_exclusive = range.end_exclusive;
                }
                proof {
                    assert(!inserted) by {
                        if inserted {
                            assert(old_cur.end_exclusive < rs[i as int].start);
                        }
                    }
                    assert forall|s: u64| range_contains(cur, s) <==> (range_contains(old_cur, s) || range_contains(range, s)) by {
                    }
                    assert forall|m: int| 0 <= m < merged.len() implies (#[trigger] merged@[m]).end_exclusive < cur.start by {
                        assert(merged@[m].end_exclusive < rs[i as int].start);
                    }
                    lemma_tail_split(rs, i as int);
                }
            }
            i = i + 1;
        }
        if !inserted {
            let ghost before = merged@;
            merged.push(cur);
            proof {
                assert forall|a: int, b: int| 0 <= a < b < merged@.len() implies (#[trigger] merged@[a]).end_exclusive < (#[trigger] merged@[b]).start by {
                    if b == merged@.len() - 1 {
                        assert(merged@[a] == before[a]);
                    }
                }
                assert forall|s: u64| covered(merged@, s) <==> (covered(before, s) || range_contains(cur, s)) by {
                    if covered(merged@, s) {
                        let k = choose|k: int| 0 <= k < merged@.len() && range_contains(#[trigger] merged@[k], s);
                        if k < before.len() {
                            assert(before[k] == merged@[k]);
                        }
                    }
                    if covered(before, s) {
                        let k = choose|k: int| 0 <= k < before.len() && range_contains(#[trigger] before[k], s);
                        assert(merged@[k] == before[k]);
                    }
                    if range_contains(cur, s) {
                        assert(merged@[merged@.len() - 1] == cur);
                    }
                }
            }
        }
        self.ranges = merged;
    }

    /// Every sequence below `boundary` is durable.
    pub fn covers_below(&self, boundary: u64) -> (r: bool)
        requires
            self.wf(),
        ensures
            r <==> forall|s: u64| s < boundary ==> #[trigger] self.has(s),
    {
        let r = boundary == 0 || (self.ranges.len() > 0 && self.ranges[0].start == 0
            && self.ranges[0].end_exclusive >= boundary);
        proof {
            let rs = self.ranges@;
            if r && boundary > 0 {
                assert forall|s: u64| s < boundary implies #[trigger] self.has(s) by {
                    assert(range_contains(rs[0], s));
                }
            }
            if !r {
                assert(boundary > 0);
                if forall|s: u64| s < boundary ==> #[trigger] self.has(s) {
                    assert(self.has(0));
                    let k = choose|k: int| 0 <= k < rs.len() && range_contains(#[trigger] rs[k], 0);
                    if k > 0 {
                        assert(rs[0].end_exclusive < rs[k].start);
                    }
                    assert(rs[0].start == 0);
                    let e = rs[0].end_exclusive;
                    assert(e < boundary);
                    assert(self.has(e));
                    let k2 = choose|k2: int| 0 <= k2 < rs.len() && range_contains(#[trigger] rs[k2], e);
                    if k2 > 0 {
                        assert(rs[0].end_exclusive < rs[k2].start);
                    }
                }
            }
        }
        r
    }

    /// The cumulative acknowledgement of this coverage: the prefix that
    /// starts at zero becomes the durable boundary and the remaining ranges
    /// are reported out of order.
    pub fn acknowledgement(&self, segment_id: &SegmentId, lane_id: &LaneId) -> (r: AudioAcknowledgementV1)
        requires
            self.wf(),
        ensures
            r.segment_id@ == segment_id@,
            r.lane_id@ == lane_id@,
            ack_ranges_ok(r.durable_through_sequence, r.durable_out_of_order@) || !ranges_json_ok(self.ranges@),
            forall|s: u64| #[trigger] ack_covers(r, s) <==> self.has(s),
    {
        let rs = &self.ranges;
        let through: u64 = if rs.len() > 0 && rs[0].start == 0 {
            rs[0].end_exclusive
        } else {
            0
        };
        let ghost off: int = if rs@.len() > 0 && rs@[0].start == 0 { 1 } else { 0 };
        let mut out: Vec<SequenceRangeV1> = Vec::new();
        let mut i: usize = 0;
        while i < rs.len()
            invariant
                self.ranges@ == rs@,
                canonical(rs@),
                i <= rs.len(),
                through == (if rs@.len() > 0 && rs@[0].start == 0 { rs@[0].end_exclusive } else { 0 }),
                off == (if rs@.len() > 0 && rs@[0].start == 0 { 1int } else { 0 }),
                out.len() == (if i == 0 { 0 } else { i - off }),
                forall|k: int| 0 <= k < out.len() ==> #[trigger] out@[k] == rs@[k + off],
            decreases rs.len() - i,
        {
            let x = rs[i];
            proof {
                if i > 0 {
                    assert(rs@[0].end_exclusive < rs@[i as int].start);
                }
            }
            if x.start > through {
                out.push(x);
            }
            i = i + 1;
        }
        let ghost out_view = out@;
        let r = AudioAcknowledgementV1 {
            segment_id: SegmentId(segment_id.0.clone()),
            lane_id: LaneId(lane_id.0.clone()),
            durable_through_sequence: through,
            durable_out_of_order: out,
        };
        proof {
            lemma_ack_matches(rs@, through, out_view, off);
            assert forall|s: u64| #[trigger] ack_covers(r, s) <==> self.has(s) by {
                assert(r.durable_out_of_order@ == out_view);
            }
        }
        r
    }
}

/// All bounds of a range list are JSON-safe.
pub open spec fn ranges_json_ok(rs: Seq<SequenceRangeV1>) -> bool {
    forall|i: int| 0 <= i < rs.len() ==> json_ok((#[trigger] rs[i]).start) && json_ok(rs[i].end_exclusive)
}

proof fn lemma_tail_split(rs: Seq<SequenceRangeV1>, i: int)
    requires
        0 <= i < rs.len(),
    ensures
        forall|s: u64|
            (exists|j: int| i <= j < rs.len() && range_contains(#[trigger] rs[j], s)) <==> (
            range_contains(rs[i], s) || exists|j: int| i + 1 <= j < rs.len() && range_contains(#[trigger] rs[j], s)),
{
}

proof fn lemma_ack_matches(rs: Seq<SequenceRangeV1>, through: u64, out: Seq<SequenceRangeV1>, off: int)
    requires
        canonical(rs),
        through == (if rs.len() > 0 && rs[0].start == 0 { rs[0].end_exclusive } else { 0 }),
        off == (if rs.len() > 0 && rs[0].start == 0 { 1int } else { 0 }),
        out.len() == rs.len() - off,
        forall|k: int| 0 <= k < out.len() ==> #[trigger] out[k] == rs[k + off],
    ensures
        ranges_json_ok(rs) ==> ack_ranges_ok(through, out),
        forall|s: u64| (s < through || exists|i: int| 0 <= i < out.len() && range_contains(#[trigger] out[i], s)) <==> covered(rs, s),
{
    assert forall|i: int| 0 <= i < out.len() && ranges_json_ok(rs) implies {
        &&& crate::protocol::validate::sequence_range_ok(#[trigger] out[i])
        &&& out[i].start != out[i].end_exclusive
        &&& out[i].start > (if i == 0 { through } else { out[i - 1].end_exclusive })
    } by {
        assert(out[i] == rs[i + off]);
        if i > 0 {
            assert(out[i - 1] == rs[i - 1 + off]);
        } else if off == 0 && rs.len() > 0 {
            assert(rs[0].start > 0);
        }
    }
    assert forall|s: u64| (s < through || exists|i: int| 0 <= i < out.len() && range_contains(#[trigger] out[i], s)) <==> covered(rs, s) by {
        if s < through {
            assert(range_contains(rs[0], s));
        }
        if exists|i: int| 0 <= i < out.len() && range_contains(#[trigger] out[i], s) {
            let i = choose|i: int| 0 <= i < out.len() && range_contains(#[trigger] out[i], s);
            assert(range_contains(rs[i + off], s));
        }
        if covered(rs, s) {
            let j = choose|j: int| 0 <= j < rs.len() && range_contains(#[trigger] rs[j], s);
            if j >= off {
                assert(out[j - off] == rs[j]);
                assert(range_contains(out[j - off], s));
            } else {
                assert(s < through);
            }
        }
    }
}

} // verus!
