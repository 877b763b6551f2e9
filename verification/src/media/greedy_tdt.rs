//! Greedy decoding of the ONNX Parakeet TDT decoder-joint network, as a state
//! machine: the caller runs the network on the frame and target it names and
//! hands back the chosen token and duration; the machine decides what is
//! emitted and where decoding goes next.
use crate::media::timed_tokens::TimedTokenId;
use vstd::prelude::*;

verus! {

/// Tokens emitted at one frame before decoding moves on.
pub const MAX_TOKENS_PER_STEP: usize = 10;

/// Decoding state: the frame reached, the tokens emitted at it, the last
/// token emitted (the network's next target), and the tokens so far.
#[derive(Debug, Clone)]
pub struct GreedyTdt {
    time_steps: usize,
    blank_id: usize,
    t: usize,
    emitted_tokens: usize,
    last_emitted_token: usize,
    out: Vec<TimedTokenId>,
}

impl GreedyTdt {
    pub closed spec fn time_steps(&self) -> nat {
        self.time_steps as nat
    }

    pub closed spec fn blank(&self) -> nat {
        self.blank_id as nat
    }

    pub closed spec fn frame_reached(&self) -> nat {
        self.t as nat
    }

    pub closed spec fn emitted_here(&self) -> nat {
        self.emitted_tokens as nat
    }

    pub closed spec fn target_token(&self) -> nat {
        self.last_emitted_token as nat
    }

    pub closed spec fn tokens(&self) -> Seq<TimedTokenId> {
        self.out@
    }

    /// Fewer tokens than the per-frame limit have been emitted at the frame
    /// reached.
    pub closed spec fn wf(&self) -> bool {
        self.emitted_tokens < MAX_TOKENS_PER_STEP
    }

    /// What is left of decoding: every frame still to reach can take one
    /// step per token it may emit and one more to move on.
    pub open spec fn remaining(&self) -> int {
        let left: int = if self.frame_reached() < self.time_steps() { self.time_steps() - self.frame_reached() } else { 0 };
        left * (MAX_TOKENS_PER_STEP + 1) + (MAX_TOKENS_PER_STEP - self.emitted_here())
    }

    /// A decoder over `time_steps` encoder frames whose vocabulary's last
    /// token is the blank; decoding starts at frame zero with the blank as
    /// target.
    pub fn new(vocab_size: usize, time_steps: usize) -> (r: Self)
        ensures
            r.wf(),
            r.time_steps() == time_steps,
            r.blank() == (if vocab_size > 0 { vocab_size - 1 } else { 0 }),
            r.frame_reached() == 0,
            r.emitted_here() == 0,
            r.target_token() == r.blank(),
            r.tokens().len() == 0,
    {
        let blank_id = if vocab_size > 0 { vocab_size - 1 } else { 0 };
        GreedyTdt { time_steps, blank_id, t: 0, emitted_tokens: 0, last_emitted_token: blank_id, out: Vec::new() }
    }

    /// Decoding ends once the frame reached is past the encoder output.
    pub fn is_done(&self) -> (r: bool)
        ensures
            r == (self.frame_reached() >= self.time_steps()),
    {
        self.t >= self.time_steps
    }

    /// The encoder frame the network runs on next.
    pub fn frame(&self) -> (r: usize)
        ensures
            r == self.frame_reached(),
    {
        self.t
    }

    /// The target token the network runs with next.
    pub fn target(&self) -> (r: usize)
        ensures
            r == self.target_token(),
    {
        self.last_emitted_token
    }

    pub fn blank_id(&self) -> (r: usize)
        ensures
            r == self.blank(),
    {
        self.blank_id
    }

    /// Takes the network's choice at the current frame: a token other than
    /// the blank is emitted there and becomes the target (the caller then
    /// keeps the network's new states: the result is `true`); a predicted
    /// duration moves that many frames on, and otherwise a blank or a full
    /// frame moves one frame on.
    pub fn step(&mut self, token_id: usize, duration_step: usize) -> (keep_states: bool)
        requires
            old(self).wf(),
            old(self).frame_reached() < old(self).time_steps(),
            old(self).frame_reached() + duration_step <= usize::MAX,
        ensures
            final(self).wf(),
            keep_states == (token_id != old(self).blank()),
            final(self).time_steps() == old(self).time_steps(),
            final(self).blank() == old(self).blank(),
            final(self).tokens() == (if keep_states {
                old(self).tokens().push(TimedTokenId { id: token_id, frame: old(self).frame_reached() as usize })
            } else {
                old(self).tokens()
            }),
            final(self).target_token() == (if keep_states { token_id as nat } else { old(self).target_token() }),
            ({
                let emitted = if keep_states { old(self).emitted_here() + 1 } else { old(self).emitted_here() };
                if duration_step > 0 {
                    final(self).frame_reached() == old(self).frame_reached() + duration_step && final(self).emitted_here() == 0
                } else if !keep_states || emitted >= MAX_TOKENS_PER_STEP {
                    final(self).frame_reached() == old(self).frame_reached() + 1 && final(self).emitted_here() == 0
                } else {
                    final(self).frame_reached() == old(self).frame_reached() && final(self).emitted_here() == emitted
                }
            }),
            final(self).remaining() < old(self).remaining(),
    {
        let keep = token_id != self.blank_id;
        if keep {
            self.out.push(TimedTokenId { id: token_id, frame: self.t });
            self.last_emitted_token = token_id;
            self.emitted_tokens = self.emitted_tokens + 1;
        }
        if duration_step > 0 {
            self.t = self.t + duration_step;
            self.emitted_tokens = 0;
        } else if !keep || self.emitted_tokens >= MAX_TOKENS_PER_STEP {
            self.t = self.t + 1;
            self.emitted_tokens = 0;
        }
        proof {
            let old_left: int = old(self).time_steps() - old(self).frame_reached();
            let k: int = MAX_TOKENS_PER_STEP + 1;
            if self.frame_reached() > old(self).frame_reached() {
                let new_left: int = if self.frame_reached() < self.time_steps() { self.time_steps() - self.frame_reached() } else { 0 };
                assert(new_left + 1 <= old_left);
                assert(new_left * k + k <= old_left * k) by (nonlinear_arith)
                    requires
                        new_left + 1 <= old_left,
                        0 <= new_left,
                        k == 11;
            }
        }
        keep
    }

    /// The tokens emitted, each with the frame it was emitted at.
    pub fn into_tokens(self) -> (r: Vec<TimedTokenId>)
        ensures
            r@ == self.tokens(),
    {
        self.out
    }
}

} // verus!
