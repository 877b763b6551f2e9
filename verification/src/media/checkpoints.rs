//! Decoder checkpoints of a streaming session: where a decode restarts, and
//! which checkpoints stay usable.
use crate::media::streaming::{max_model_window_ms, CoreMlStreamingConfig};
use vstd::prelude::*;

verus! {

/// The plain part of a decoder checkpoint: when it was taken and what the
/// session had decoded and committed then. The decoder state it restores is
/// kept beside it by whoever runs the model.
#[derive(Debug, Clone, Copy, PartialEq, Eq, Structural)]
pub struct CheckpointMark {
    pub time_ms: u64,
    pub frame_index: usize,
    pub committed_word_len: usize,
    pub committed_until_ms: u64,
    pub decoded_until_ms: u64,
}

/// How a decode step starts.
#[derive(Debug, Clone, Copy, PartialEq, Eq, Structural)]
pub enum DecodePlanKind {
    /// Nothing is decoded yet: start at zero.
    Initial,
    /// Restore a checkpoint before the overlap and decode again from it.
    OverlapReplay,
    /// Decode only audio after what is decoded, without replaying overlap.
    ConservativeNoOverlap,
}

#[derive(Debug, Clone, Copy, PartialEq, Eq, Structural)]
pub struct DecodePlan {
    pub start_ms: u64,
    pub restore_checkpoint: Option<usize>,
    pub kind: DecodePlanKind,
}

pub open spec fn sat_sub_u64(a: u64, b: u64) -> u64 {
    if a >= b { (a - b) as u64 } else { 0 }
}

/// A checkpoint a decode ending at `decode_end_ms` can restart from: taken
/// no later than `desired_start_ms` and within one model window of the end.
pub open spec fn usable(c: CheckpointMark, desired_start_ms: u64, decode_end_ms: u64) -> bool {
    c.time_ms <= desired_start_ms && sat_sub_u64(decode_end_ms, c.time_ms) <= 15_000
}

/// The last usable checkpoint among the first `n`.
pub open spec fn latest_usable(cps: Seq<CheckpointMark>, n: int, desired_start_ms: u64, decode_end_ms: u64) -> Option<int>
    decreases n,
{
    if n <= 0 {
        None
    } else if usable(cps[n - 1], desired_start_ms, decode_end_ms) {
        Some(n - 1)
    } else {
        latest_usable(cps, n - 1, desired_start_ms, decode_end_ms)
    }
}

/// The plan of the next decode: from zero when nothing is decoded; with an
/// overlap, from the latest usable checkpoint before it, or else strictly
/// after what is decoded.
pub open spec fn decode_plan(decoded_until_ms: u64, cps: Seq<CheckpointMark>, overlap_ms: u64, decode_end_ms: u64) -> DecodePlan {
    if decoded_until_ms == 0 {
        DecodePlan { start_ms: 0, restore_checkpoint: None, kind: DecodePlanKind::Initial }
    } else {
        let desired = sat_sub_u64(decoded_until_ms, overlap_ms);
        match (if desired < decoded_until_ms { latest_usable(cps, cps.len() as int, desired, decode_end_ms) } else { None }) {
            Some(i) => DecodePlan {
                start_ms: cps[i].time_ms,
                restore_checkpoint: Some(i as usize),
                kind: DecodePlanKind::OverlapReplay,
            },
            None => DecodePlan {
                start_ms: decoded_until_ms,
                restore_checkpoint: None,
                kind: DecodePlanKind::ConservativeNoOverlap,
            },
        }
    }
}

/// Index of the last usable checkpoint, scanning from the newest.
pub fn latest_checkpoint_index(checkpoints: &[CheckpointMark], desired_start_ms: u64, decode_end_ms: u64) -> (r: Option<usize>)
    ensures
        r matches Some(i) ==> latest_usable(checkpoints@, checkpoints@.len() as int, desired_start_ms, decode_end_ms) == Some(i as int),
        r is None ==> latest_usable(checkpoints@, checkpoints@.len() as int, desired_start_ms, decode_end_ms) is None,
{
    let window = max_model_window_ms();
    let mut n: usize = checkpoints.len();
    while n > 0
        invariant
            n <= checkpoints.len(),
            window == 15_000,
            latest_usable(checkpoints@, checkpoints@.len() as int, desired_start_ms, decode_end_ms)
                == latest_usable(checkpoints@, n as int, desired_start_ms, decode_end_ms),
        decreases n,
    {
        let c = checkpoints[n - 1];
        let age: u64 = if decode_end_ms >= c.time_ms { decode_end_ms - c.time_ms } else { 0 };
        if c.time_ms <= desired_start_ms && age <= window {
            return Some(n - 1);
        }
        n = n - 1;
    }
    None
}

pub fn select_decode_plan(decoded_until_ms: u64, checkpoints: &[CheckpointMark], config: &CoreMlStreamingConfig, decode_end_ms: u64) -> (r: DecodePlan)
    ensures
        r == decode_plan(decoded_until_ms, checkpoints@, config.overlap_ms, decode_end_ms),
        r.restore_checkpoint matches Some(i) ==> i < checkpoints.len(),
{
    if decoded_until_ms == 0 {
        return DecodePlan { start_ms: 0, restore_checkpoint: None, kind: DecodePlanKind::Initial };
    }
    let desired_start_ms = if decoded_until_ms >= config.overlap_ms { decoded_until_ms - config.overlap_ms } else { 0 };
    if desired_start_ms < decoded_until_ms {
        proof {
            lemma_latest_usable_range(checkpoints@, checkpoints@.len() as int, desired_start_ms, decode_end_ms);
        }
        match latest_checkpoint_index(checkpoints, desired_start_ms, decode_end_ms) {
            Some(index) => {
                return DecodePlan {
                    start_ms: checkpoints[index].time_ms,
                    restore_checkpoint: Some(index),
                    kind: DecodePlanKind::OverlapReplay,
                };
            },
            None => {},
        }
    }
    DecodePlan { start_ms: decoded_until_ms, restore_checkpoint: None, kind: DecodePlanKind::ConservativeNoOverlap }
}

proof fn lemma_latest_usable_range(cps: Seq<CheckpointMark>, n: int, desired_start_ms: u64, decode_end_ms: u64)
    requires
        n <= cps.len(),
    ensures
        latest_usable(cps, n, desired_start_ms, decode_end_ms) matches Some(i) ==> 0 <= i < n
            && usable(cps[i], desired_start_ms, decode_end_ms),
    decreases n,
{
    if n > 0 {
        lemma_latest_usable_range(cps, n - 1, desired_start_ms, decode_end_ms);
    }
}

/// How many of the oldest checkpoints are dropped: those older than
/// `floor_ms`, while more than one remains.
pub open spec fn pruned_count(cps: Seq<CheckpointMark>, floor_ms: u64) -> int
    decreases cps.len(),
{
    if cps.len() > 1 && cps[0].time_ms < floor_ms {
        1 + pruned_count(cps.drop_first(), floor_ms)
    } else {
        0
    }
}

proof fn lemma_pruned_count_step(cps: Seq<CheckpointMark>, floor_ms: u64, k: int)
    requires
        0 <= k < cps.len(),
        forall|t: int| 0 <= t < k ==> (#[trigger] cps[t]).time_ms < floor_ms,
    ensures
        pruned_count(cps, floor_ms) == k + pruned_count(cps.skip(k), floor_ms),
    decreases k,
{
    if k > 0 {
        let d = cps.drop_first();
        assert forall|t: int| 0 <= t < k - 1 implies (#[trigger] d[t]).time_ms < floor_ms by {
            assert(d[t] == cps[t + 1]);
        }
        lemma_pruned_count_step(d, floor_ms, k - 1);
        assert(d.skip(k - 1) =~= cps.skip(k));
    } else {
        assert(cps.skip(0) =~= cps);
    }
}

/// Drops the oldest checkpoints that lie more than a model window before
/// what is decoded, always keeping at least one.
pub fn prune_unusable_checkpoints(checkpoints: &mut Vec<CheckpointMark>, decoded_until_ms: u64, max_window_ms: u64)
    ensures
        final(checkpoints)@ == old(checkpoints)@.skip(pruned_count(old(checkpoints)@, sat_sub_u64(decoded_until_ms, max_window_ms))),
{
    let floor_ms = if decoded_until_ms >= max_window_ms { decoded_until_ms - max_window_ms } else { 0 };
    let ghost cps = checkpoints@;
    let mut k: usize = 0;
    while k + 1 < checkpoints.len() && checkpoints[k].time_ms < floor_ms
        invariant
            cps == checkpoints@,
            k < checkpoints.len() || checkpoints.len() == 0,
            k <= checkpoints.len(),
            forall|t: int| 0 <= t < k ==> (#[trigger] cps[t]).time_ms < floor_ms,
        decreases checkpoints.len() - k,
    {
        k = k + 1;
    }
    proof {
        if cps.len() > 0 {
            lemma_pruned_count_step(cps, floor_ms, k as int);
            let rest = cps.skip(k as int);
            assert(rest.len() == 1 || rest[0].time_ms >= floor_ms);
            assert(pruned_count(rest, floor_ms) == 0);
        } else {
            assert(cps.skip(0) =~= cps);
        }
    }
    if k > 0 {
        let mut kept: Vec<CheckpointMark> = Vec::new();
        let mut i: usize = k;
        while i < checkpoints.len()
            invariant
                k <= i <= checkpoints.len(),
                cps == checkpoints@,
                kept@ == cps.subrange(k as int, i as int),
            decreases checkpoints.len() - i,
        {
            kept.push(checkpoints[i]);
            assert(cps.subrange(k as int, i + 1) =~= cps.subrange(k as int, i as int).push(cps[i as int]));
            i = i + 1;
        }
        assert(cps.subrange(k as int, cps.len() as int) =~= cps.skip(k as int));
        *checkpoints = kept;
    } else {
        assert(cps.skip(0) =~= cps);
    }
}

} // verus!
