//! Decoding one chunk of encoder output with the FluidAudio v2 TDT decoder,
//! as a state machine. The caller owns the networks and their floating-point
//! state: it performs the request the machine names (run the decoder, run
//! the joint network on a frame) and hands back the joint's choice; the
//! machine decides the frames visited, the tokens emitted and their
//! timestamps, and when decoding ends.
use crate::media::providers::FluidCoreMlModelVersion;
use crate::media::tokens::{duration_of_bin, map_duration_bin, should_emit_token};
use crate::runtime::decimal::decimal;
use vstd::prelude::*;

verus! {

/// The blank token of the v2 vocabulary.
pub const BLANK_ID_V2: usize = 1024;

/// Tokens emitted at one timestamp before decoding moves on a frame.
pub const MAX_SYMBOLS_PER_STEP: usize = 10;

/// Tokens one chunk may decode.
pub const MAX_TOKENS_PER_CHUNK: usize = 150;

/// Blanks in a row that end the extra steps of a last chunk.
pub const CONSECUTIVE_BLANK_LIMIT: usize = 5;

/// Tokens after which the decoder's kept output is not reused.
pub open spec fn is_punctuation_token(t: usize) -> bool {
    t == 7883 || t == 7952 || t == 7948
}

/// How a chunk sits in the stream: whether it is the last, where its first
/// frame is globally, how many context frames precede it, from which global
/// frame tokens are emitted, and where decoding starts when not at the
/// context's end.
#[derive(Debug, Clone, Copy, PartialEq, Eq, Structural)]
pub struct DecodeChunkOptions {
    pub is_last_chunk: bool,
    pub global_frame_offset: usize,
    pub context_frame_adjustment: usize,
    pub emit_tokens_after_global_frame: Option<usize>,
    pub initial_time_index_override: Option<usize>,
}

#[derive(Debug, Clone, Copy, PartialEq, Eq, Structural)]
pub enum TdtPhase {
    Prime,
    MainDecoder,
    MainJoint,
    Advance,
    MainEmit,
    FinalDecoder,
    FinalJoint,
    FinalEmit,
    Done,
}

/// The work the caller does next.
#[derive(Debug, Clone, Copy, PartialEq, Eq, Structural)]
pub enum TdtRequest {
    /// Zero the decoder states, run the decoder on the blank, and keep its
    /// output and states.
    Prime,
    /// Take this step's decoder output: the kept one when `cached`, else the
    /// decoder run on `label` from the kept states, keeping nothing.
    DecoderOutput { label: usize, cached: bool },
    /// Run the joint network on encoder frame `frame` with this step's
    /// decoder output.
    Joint { frame: usize },
    /// Run the decoder on `token` from this step's decoder states, and keep
    /// its output and states.
    EmitDecoder { token: usize },
    /// Decoding is over. When `touched`, the decoder state's last token
    /// becomes `last_token` and its kept output is dropped unless
    /// `keep_predictor`; otherwise the state is left as it was.
    Finished { touched: bool, last_token: Option<usize>, keep_predictor: bool },
}

/// Decoding state of one chunk, with the hypothesis built so far.
#[derive(Debug, Clone)]
pub struct TdtChunkDecoder<C> {
    pub phase: TdtPhase,
    pub touched: bool,
    pub options: DecodeChunkOptions,
    /// Frames that can be decoded: at least one once decoding runs.
    pub effective_len: usize,
    pub frames_count: usize,
    pub time_index: usize,
    pub safe_time_index: usize,
    pub time_index_current_label: usize,
    pub active: bool,
    pub last_emission_timestamp: Option<usize>,
    pub emissions_at_this_timestamp: usize,
    pub tokens_processed: usize,
    pub label: usize,
    pub score: Option<C>,
    pub duration: usize,
    pub additional_steps: usize,
    pub consecutive_blanks: usize,
    pub final_last_token: usize,
    pub final_time_index: usize,
    pub predictor_cached: bool,
    pub tokens: Vec<usize>,
    pub timestamps: Vec<usize>,
    pub confidences: Vec<C>,
    pub durations: Vec<usize>,
    pub last_token: Option<usize>,
}

impl<C: Copy> TdtChunkDecoder<C> {
    /// Sizes and offsets fit their arithmetic, and the hypothesis lists
    /// stay aligned.
    pub open spec fn wf(&self) -> bool {
        &&& self.phase != TdtPhase::Done ==> {
            &&& 1 <= self.effective_len <= self.frames_count
            &&& self.effective_len + 16 <= usize::MAX
            &&& self.options.global_frame_offset + self.effective_len <= usize::MAX
            &&& self.time_index + 8 <= usize::MAX
            &&& self.final_time_index + 8 <= usize::MAX
            &&& self.safe_time_index < self.effective_len
            &&& self.additional_steps < MAX_SYMBOLS_PER_STEP
        }
        &&& (self.phase == TdtPhase::Prime || self.phase == TdtPhase::MainDecoder || self.phase == TdtPhase::MainJoint
            || self.phase == TdtPhase::Advance || self.phase == TdtPhase::MainEmit) ==> self.tokens_processed <= MAX_TOKENS_PER_CHUNK
        &&& self.phase == TdtPhase::Prime ==> self.active == (self.time_index < self.effective_len) && self.tokens_processed == 0
            && self.time_index_current_label <= self.time_index
        &&& (self.phase == TdtPhase::MainDecoder || self.phase == TdtPhase::MainJoint) ==> self.active && self.time_index < self.effective_len
        &&& self.phase == TdtPhase::Advance ==> self.active && self.time_index < self.effective_len && self.label == BLANK_ID_V2
        &&& self.phase == TdtPhase::MainEmit ==> self.time_index < self.effective_len && self.tokens_processed >= 1
            && self.time_index_current_label <= self.time_index
        &&& (self.phase == TdtPhase::MainDecoder || self.phase == TdtPhase::MainJoint || self.phase == TdtPhase::Advance)
            ==> self.time_index_current_label <= self.time_index
        &&& (self.phase == TdtPhase::FinalDecoder || self.phase == TdtPhase::FinalJoint || self.phase == TdtPhase::FinalEmit)
            ==> self.consecutive_blanks < CONSECUTIVE_BLANK_LIMIT
        &&& self.emissions_at_this_timestamp < MAX_SYMBOLS_PER_STEP
        &&& self.phase == TdtPhase::FinalEmit ==> self.duration <= 4
        &&& self.timestamps@.len() == self.tokens@.len()
        &&& self.confidences@.len() == self.tokens@.len()
        &&& self.durations@.len() == self.tokens@.len()
    }

    /// What is left of decoding; every call that moves the machine makes it
    /// smaller.
    pub open spec fn remaining(&self) -> int {
        let k = self.effective_len + 5;
        let final_budget = 40int;
        let main_base = final_budget + (MAX_TOKENS_PER_CHUNK - self.tokens_processed) * k;
        match self.phase {
            TdtPhase::Prime => final_budget + (MAX_TOKENS_PER_CHUNK + 2) * k,
            TdtPhase::MainDecoder => main_base + self.effective_len + 3,
            TdtPhase::MainJoint => main_base + self.effective_len + 2,
            TdtPhase::Advance => main_base + 1 + (self.effective_len - self.time_index),
            TdtPhase::MainEmit => main_base + k - 1,
            TdtPhase::FinalDecoder => 3 * (MAX_SYMBOLS_PER_STEP - self.additional_steps) + 2,
            TdtPhase::FinalJoint => 3 * (MAX_SYMBOLS_PER_STEP - self.additional_steps) + 1,
            TdtPhase::FinalEmit => 3 * (MAX_SYMBOLS_PER_STEP - self.additional_steps),
            TdtPhase::Done => 0,
        }
    }
}

/// The phase and predictor flag once the main loop is left: the extra steps
/// of a last chunk, or the end.
pub open spec fn exit_phase(options: DecodeChunkOptions) -> TdtPhase {
    if options.is_last_chunk { TdtPhase::FinalDecoder } else { TdtPhase::Done }
}

/// The frame of the first extra step of a last chunk, its second, and
/// those before the end, in turn.
pub open spec fn final_frame(final_time_index: usize, effective_len: usize, frames_count: usize, step: usize) -> usize {
    let choice: int = if step % 3 == 0 {
        final_time_index as int
    } else if step % 3 == 1 {
        if effective_len >= 1 { effective_len - 1 } else { 0 }
    } else {
        if effective_len >= 2 { effective_len - 2 } else { 0 }
    };
    (if choice < frames_count - 1 { choice } else { frames_count - 1 }) as usize
}

/// Where a timestamp is emitted: always, or from the emission frame on.
pub open spec fn emits_at(timestamp: int, emit_after: Option<usize>) -> bool {
    match emit_after {
        Some(after) => timestamp >= after,
        None => true,
    }
}

impl<C: Copy> TdtChunkDecoder<C> {
    fn blank_machine(options: DecodeChunkOptions, phase: TdtPhase, touched: bool, last_token: Option<usize>, cached: bool) -> (r: Self)
        ensures
            r.phase == phase,
            r.touched == touched,
            r.options == options,
            r.effective_len == 0,
            r.frames_count == 0,
            r.time_index == 0,
            r.safe_time_index == 0,
            r.time_index_current_label == 0,
            !r.active,
            r.last_emission_timestamp is None,
            r.emissions_at_this_timestamp == 0,
            r.tokens_processed == 0,
            r.additional_steps == 0,
            r.consecutive_blanks == 0,
            r.final_time_index == 0,
            r.predictor_cached == cached,
            r.tokens@.len() == 0,
            r.timestamps@.len() == 0,
            r.confidences@.len() == 0,
            r.durations@.len() == 0,
            r.last_token == last_token,
    {
        TdtChunkDecoder {
            phase,
            touched,
            options,
            effective_len: 0,
            frames_count: 0,
            time_index: 0,
            safe_time_index: 0,
            time_index_current_label: 0,
            active: false,
            last_emission_timestamp: None,
            emissions_at_this_timestamp: 0,
            tokens_processed: 0,
            label: BLANK_ID_V2,
            score: None,
            duration: 0,
            additional_steps: 0,
            consecutive_blanks: 0,
            final_last_token: BLANK_ID_V2,
            final_time_index: 0,
            predictor_cached: cached,
            tokens: Vec::new(),
            timestamps: Vec::new(),
            confidences: Vec::new(),
            durations: Vec::new(),
            last_token,
        }
    }

    /// Starts decoding a chunk of `encoder_sequence_length` encoder frames
    /// (`frames_count` of them readable, known when there are more than one)
    /// holding `actual_audio_frames` frames of audio, for a decoder whose
    /// state holds `last_token` and, when `predictor_cached`, a kept output.
    /// Only the v2 decoder is supported; a chunk of at most one frame, or
    /// without a frame to decode, decodes to nothing and leaves the state.
    pub fn new(
        version: FluidCoreMlModelVersion,
        encoder_sequence_length: usize,
        actual_audio_frames: usize,
        frames_count: Option<usize>,
        last_token: Option<usize>,
        predictor_cached: bool,
        options: DecodeChunkOptions,
    ) -> (r: Result<Self, String>)
        requires
            encoder_sequence_length > 1 ==> frames_count is Some,
            encoder_sequence_length + 16 <= usize::MAX,
            options.global_frame_offset + encoder_sequence_length <= usize::MAX,
            (match options.initial_time_index_override {
                Some(t) => t,
                None => options.context_frame_adjustment,
            }) + 8 <= usize::MAX,
        ensures
            version != FluidCoreMlModelVersion::V2 ==> (r matches Err(m)
                && m@ == "FluidAudio CoreML V3 decoder is not ported in Rust yet; v2 is supported"@),
            version == FluidCoreMlModelVersion::V2 ==> (r matches Ok(d) && d.wf() && d.options == options && d.tokens@.len() == 0 && ({
                let eff: int = if encoder_sequence_length <= 1 {
                    0
                } else {
                    let n = frames_count->0;
                    let a: int = if encoder_sequence_length < actual_audio_frames { encoder_sequence_length as int } else { actual_audio_frames as int };
                    if a < n { a } else { n as int }
                };
                let start: usize = match options.initial_time_index_override {
                    Some(t) => t,
                    None => options.context_frame_adjustment,
                };
                if eff == 0 {
                    d.phase == TdtPhase::Done && !d.touched && d.last_token == last_token
                } else {
                    &&& d.touched
                    &&& d.effective_len == eff
                    &&& d.frames_count == frames_count->0
                    &&& d.time_index == start
                    &&& d.safe_time_index == 0
                    &&& d.active == (start < eff)
                    &&& d.last_emission_timestamp is None
                    &&& d.emissions_at_this_timestamp == 0
                    &&& d.tokens_processed == 0
                    &&& d.last_token == last_token
                    &&& d.predictor_cached == (predictor_cached || last_token is None)
                    &&& d.phase == (if last_token is None && !predictor_cached {
                        TdtPhase::Prime
                    } else if start < eff {
                        TdtPhase::MainDecoder
                    } else {
                        exit_phase(options)
                    })
                    &&& (d.phase == TdtPhase::FinalDecoder ==> d.additional_steps == 0 && d.consecutive_blanks == 0
                        && d.final_last_token == (match last_token { Some(t) => t, None => BLANK_ID_V2 })
                        && d.final_time_index == start)
                }
            })),
    {
        match version {
            FluidCoreMlModelVersion::V2 => {},
            FluidCoreMlModelVersion::V3 => {
                return Err("FluidAudio CoreML V3 decoder is not ported in Rust yet; v2 is supported".to_owned());
            },
        }
        if encoder_sequence_length <= 1 {
            return Ok(Self::blank_machine(options, TdtPhase::Done, false, last_token, predictor_cached));
        }
        let n = match frames_count {
            Some(n) => n,
            None => 0,
        };
        let mut eff = if encoder_sequence_length < actual_audio_frames { encoder_sequence_length } else { actual_audio_frames };
        if n < eff {
            eff = n;
        }
        if eff == 0 {
            return Ok(Self::blank_machine(options, TdtPhase::Done, false, last_token, predictor_cached));
        }
        let start = match options.initial_time_index_override {
            Some(t) => t,
            None => options.context_frame_adjustment,
        };
        let needs_prime = last_token.is_none() && !predictor_cached;
        let active = start < eff;
        let mut d = Self::blank_machine(options, TdtPhase::Prime, true, last_token, predictor_cached || last_token.is_none());
        d.effective_len = eff;
        d.frames_count = n;
        d.time_index = start;
        d.active = active;
        d.final_time_index = start;
        d.final_last_token = match last_token {
            Some(t) => t,
            None => BLANK_ID_V2,
        };
        if !needs_prime {
            d.phase = if active {
                TdtPhase::MainDecoder
            } else if options.is_last_chunk {
                TdtPhase::FinalDecoder
            } else {
                TdtPhase::Done
            };
        }
        Ok(d)
    }

    /// The work the caller does next.
    pub fn request(&self) -> (r: TdtRequest)
        requires
            self.wf(),
        ensures
            r == match self.phase {
                TdtPhase::Prime => TdtRequest::Prime,
                TdtPhase::MainDecoder => TdtRequest::DecoderOutput {
                    label: match self.last_token { Some(t) => t, None => BLANK_ID_V2 },
                    cached: self.predictor_cached,
                },
                TdtPhase::MainJoint => TdtRequest::Joint { frame: self.safe_time_index },
                TdtPhase::Advance => TdtRequest::Joint { frame: self.safe_time_index },
                TdtPhase::MainEmit => TdtRequest::EmitDecoder { token: self.label },
                TdtPhase::FinalDecoder => TdtRequest::DecoderOutput { label: self.final_last_token, cached: self.predictor_cached },
                TdtPhase::FinalJoint => TdtRequest::Joint {
                    frame: final_frame(self.final_time_index, self.effective_len, self.frames_count, self.additional_steps),
                },
                TdtPhase::FinalEmit => TdtRequest::EmitDecoder { token: self.label },
                TdtPhase::Done => TdtRequest::Finished {
                    touched: self.touched,
                    last_token: self.last_token,
                    keep_predictor: self.predictor_cached && !(self.last_token matches Some(t) && is_punctuation_token(t)),
                },
            },
    {
        match self.phase {
            TdtPhase::Prime => TdtRequest::Prime,
            TdtPhase::MainDecoder => TdtRequest::DecoderOutput {
                label: match self.last_token {
                    Some(t) => t,
                    None => BLANK_ID_V2,
                },
                cached: self.predictor_cached,
            },
            TdtPhase::MainJoint => TdtRequest::Joint { frame: self.safe_time_index },
            TdtPhase::Advance => TdtRequest::Joint { frame: self.safe_time_index },
            TdtPhase::MainEmit => TdtRequest::EmitDecoder { token: self.label },
            TdtPhase::FinalDecoder => TdtRequest::DecoderOutput { label: self.final_last_token, cached: self.predictor_cached },
            TdtPhase::FinalJoint => {
                let step = self.additional_steps % 3;
                let choice = if step == 0 {
                    self.final_time_index
                } else if step == 1 {
                    if self.effective_len >= 1 { self.effective_len - 1 } else { 0 }
                } else {
                    if self.effective_len >= 2 { self.effective_len - 2 } else { 0 }
                };
                let last = if self.frames_count >= 1 { self.frames_count - 1 } else { 0 };
                let frame = if self.frames_count >= 1 && choice < last { choice } else { last };
                proof {
                    assert(self.frames_count >= 1 ==> frame == final_frame(self.final_time_index, self.effective_len, self.frames_count, self.additional_steps));
                }
                TdtRequest::Joint { frame }
            },
            TdtPhase::FinalEmit => TdtRequest::EmitDecoder { token: self.label },
            TdtPhase::Done => {
                let punct = match self.last_token {
                    Some(t) => t == 7883 || t == 7952 || t == 7948,
                    None => false,
                };
                TdtRequest::Finished { touched: self.touched, last_token: self.last_token, keep_predictor: self.predictor_cached && !punct }
            },
        }
    }
}

impl<C: Copy> TdtChunkDecoder<C> {
    /// The hypothesis and the decoder's last token are as before.
    pub open spec fn same_hypothesis(o: Self, n: Self) -> bool {
        &&& n.tokens@ == o.tokens@
        &&& n.timestamps@ == o.timestamps@
        &&& n.confidences@ == o.confidences@
        &&& n.durations@ == o.durations@
        &&& n.last_token == o.last_token
    }

    /// What stays across every step: the chunk's shape and options.
    pub open spec fn same_chunk(o: Self, n: Self) -> bool {
        &&& n.touched == o.touched
        &&& n.options == o.options
        &&& n.effective_len == o.effective_len
        &&& n.frames_count == o.frames_count
    }

    /// Leaving the main loop: a last chunk starts its extra steps at the time
    /// index reached, from the last token; any other chunk ends.
    pub open spec fn left_main(o: Self, n: Self) -> bool {
        &&& n.phase == exit_phase(o.options)
        &&& n.additional_steps == 0
        &&& n.consecutive_blanks == 0
        &&& n.final_last_token == (match n.last_token { Some(t) => t, None => BLANK_ID_V2 })
        &&& n.final_time_index == n.time_index
    }

    fn leave_main(&mut self)
        requires
            old(self).phase != TdtPhase::Done,
            old(self).time_index + 8 <= usize::MAX,
        ensures
            Self::left_main(*old(self), *final(self)),
            *final(self) == (Self {
                phase: final(self).phase,
                additional_steps: final(self).additional_steps,
                consecutive_blanks: final(self).consecutive_blanks,
                final_last_token: final(self).final_last_token,
                final_time_index: final(self).final_time_index,
                ..*old(self)
            }),
    {
        self.additional_steps = 0;
        self.consecutive_blanks = 0;
        self.final_last_token = match self.last_token {
            Some(t) => t,
            None => BLANK_ID_V2,
        };
        self.final_time_index = self.time_index;
        self.phase = if self.options.is_last_chunk { TdtPhase::FinalDecoder } else { TdtPhase::Done };
    }

    /// The decoder has been primed: its output is kept, and decoding starts
    /// (or, with no frame to reach, leaves the main loop at once).
    pub fn primed(&mut self)
        requires
            old(self).wf(),
            old(self).phase == TdtPhase::Prime,
        ensures
            final(self).wf(),
            final(self).remaining() < old(self).remaining(),
            final(self).predictor_cached,
            Self::same_hypothesis(*old(self), *final(self)),
            Self::same_chunk(*old(self), *final(self)),
            final(self).time_index == old(self).time_index,
            final(self).active == old(self).active,
            old(self).active ==> final(self).phase == TdtPhase::MainDecoder,
            !old(self).active ==> Self::left_main(*old(self), *final(self)),
    {
        self.predictor_cached = true;
        if self.active && self.time_index < self.effective_len {
            self.phase = TdtPhase::MainDecoder;
        } else {
            self.leave_main();
        }
        proof {
            let k = self.effective_len + 5;
            assert(40 + 152 * k > 40 + 150 * k + self.effective_len + 3) by (nonlinear_arith)
                requires k == self.effective_len + 5;
        }
    }

    /// The step's decoder output is at hand: the joint network runs next.
    pub fn decoder_ready(&mut self)
        requires
            old(self).wf(),
            old(self).phase == TdtPhase::MainDecoder || old(self).phase == TdtPhase::FinalDecoder,
        ensures
            final(self).wf(),
            final(self).remaining() < old(self).remaining(),
            final(self).phase == (if old(self).phase == TdtPhase::MainDecoder { TdtPhase::MainJoint } else { TdtPhase::FinalJoint }),
            *final(self) == (Self { phase: final(self).phase, ..*old(self) }),
    {
        self.phase = if self.phase == TdtPhase::MainDecoder { TdtPhase::MainJoint } else { TdtPhase::FinalJoint };
    }
}

pub open spec fn min_index(a: int, b: int) -> int {
    if a < b { a } else { b }
}

impl<C: Copy> TdtChunkDecoder<C> {
    /// The frames a joint choice moves on in the main loop: its duration,
    /// one for a blank of no duration, and one for a repeated emission of
    /// no duration at the timestamp just emitted at.
    pub open spec fn main_duration(o: Self, token: usize, d0: usize) -> usize {
        let blank = token == BLANK_ID_V2;
        if o.phase == TdtPhase::MainJoint && !blank && d0 == 0 && o.last_emission_timestamp == Some(o.time_index)
            && o.emissions_at_this_timestamp >= 1 {
            1
        } else if blank && d0 == 0 {
            1
        } else {
            d0
        }
    }

    /// The hypothesis with one more token, when its timestamp is emitted.
    pub open spec fn pushed_token(o: Self, n: Self, token: usize, timestamp: int, score: C, duration: usize) -> bool {
        if emits_at(timestamp, o.options.emit_tokens_after_global_frame) {
            &&& n.tokens@ == o.tokens@.push(token)
            &&& n.timestamps@ == o.timestamps@.push(timestamp as usize)
            &&& n.confidences@ == o.confidences@.push(score)
            &&& n.durations@ == o.durations@.push(duration)
        } else {
            &&& n.tokens@ == o.tokens@
            &&& n.timestamps@ == o.timestamps@
            &&& n.confidences@ == o.confidences@
            &&& n.durations@ == o.durations@
        }
    }

    /// A joint choice in the main loop: move on by its duration; a blank
    /// that stays inside the chunk asks the joint again at the new frame; a
    /// token inside the chunk counts toward the chunk's limit and, within
    /// it, is emitted at the frame it was chosen at; otherwise the main loop
    /// is left.
    pub open spec fn main_joint(o: Self, n: Self, token: usize, d0: usize, score: C) -> bool {
        let d = Self::main_duration(o, token, d0);
        let ti = o.time_index + d;
        let active = ti < o.effective_len;
        let blank = token == BLANK_ID_V2;
        &&& Self::same_chunk(o, n)
        &&& n.label == token
        &&& n.score == Some(score)
        &&& n.duration == d
        &&& n.time_index_current_label == o.time_index
        &&& n.time_index == ti
        &&& n.safe_time_index == min_index(ti, o.effective_len - 1)
        &&& n.active == active
        &&& n.last_emission_timestamp == o.last_emission_timestamp
        &&& n.emissions_at_this_timestamp == o.emissions_at_this_timestamp
        &&& n.predictor_cached == o.predictor_cached
        &&& if active && blank {
            &&& n.phase == TdtPhase::Advance
            &&& n.tokens_processed == o.tokens_processed
            &&& Self::same_hypothesis(o, n)
        } else if active {
            &&& n.tokens_processed == o.tokens_processed + 1
            &&& if n.tokens_processed > MAX_TOKENS_PER_CHUNK {
                Self::left_main(o, n) && Self::same_hypothesis(o, n)
            } else {
                &&& n.phase == TdtPhase::MainEmit
                &&& Self::pushed_token(o, n, token, o.time_index + o.options.global_frame_offset, score, d)
                &&& n.last_token == Some(token)
            }
        } else {
            &&& n.tokens_processed == o.tokens_processed
            &&& Self::left_main(o, n)
            &&& Self::same_hypothesis(o, n)
        }
    }

    /// A joint choice in the extra steps of a last chunk: a blank counts
    /// toward the blank limit and moves on; a token is emitted at the frame
    /// reached (at most the chunk's last) and the decoder runs on it next.
    pub open spec fn final_joint(o: Self, n: Self, token: usize, d0: usize, score: C) -> bool {
        &&& Self::same_chunk(o, n)
        &&& if token == BLANK_ID_V2 {
            let steps = o.additional_steps + 1;
            let blanks = o.consecutive_blanks + 1;
            &&& n.consecutive_blanks == blanks
            &&& n.additional_steps == steps
            &&& n.final_time_index == min_index(o.final_time_index + (if d0 >= 1 { d0 as int } else { 1 }), o.effective_len as int)
            &&& Self::same_hypothesis(o, n)
            &&& if steps < MAX_SYMBOLS_PER_STEP && blanks < CONSECUTIVE_BLANK_LIMIT {
                n.phase == TdtPhase::FinalDecoder && n.predictor_cached == o.predictor_cached
            } else {
                n.phase == TdtPhase::Done && !n.predictor_cached
            }
        } else {
            &&& n.consecutive_blanks == 0
            &&& n.additional_steps == o.additional_steps
            &&& n.final_time_index == o.final_time_index
            &&& n.phase == TdtPhase::FinalEmit
            &&& n.label == token
            &&& n.duration == d0
            &&& n.score == Some(score)
            &&& n.predictor_cached == o.predictor_cached
            &&& Self::pushed_token(o, n, token, min_index(o.final_time_index as int, o.effective_len - 1) + o.options.global_frame_offset, score, d0)
            &&& n.last_token == Some(token)
        }
    }

    fn push_token(&mut self, token: usize, timestamp: usize, score: C, duration: usize)
        requires
            old(self).timestamps@.len() == old(self).tokens@.len(),
            old(self).confidences@.len() == old(self).tokens@.len(),
            old(self).durations@.len() == old(self).tokens@.len(),
        ensures
            Self::pushed_token(*old(self), *final(self), token, timestamp as int, score, duration),
            final(self).timestamps@.len() == final(self).tokens@.len(),
            final(self).confidences@.len() == final(self).tokens@.len(),
            final(self).durations@.len() == final(self).tokens@.len(),
            *final(self) == (Self {
                tokens: final(self).tokens,
                timestamps: final(self).timestamps,
                confidences: final(self).confidences,
                durations: final(self).durations,
                ..*old(self)
            }),
    {
        if should_emit_token(timestamp, self.options.emit_tokens_after_global_frame) {
            self.tokens.push(token);
            self.timestamps.push(timestamp);
            self.confidences.push(score);
            self.durations.push(duration);
        }
    }

    /// Takes the joint network's choice: its token, its duration bin, and
    /// its score. A duration bin the v2 joint does not have is an error,
    /// and the machine is left as it was.
    pub fn on_joint(&mut self, token: usize, duration_bin: usize, score: C) -> (r: Result<(), String>)
        requires
            old(self).wf(),
            old(self).phase == TdtPhase::MainJoint || old(self).phase == TdtPhase::Advance || old(self).phase == TdtPhase::FinalJoint,
        ensures
            r is Err <==> duration_of_bin(duration_bin) is None,
            r matches Err(m) ==> m@ == "duration bin index out of range: "@ + decimal(duration_bin as nat) && *final(self) == *old(self),
            r is Ok ==> {
                &&& final(self).wf()
                &&& final(self).remaining() < old(self).remaining()
                &&& if old(self).phase == TdtPhase::FinalJoint {
                    Self::final_joint(*old(self), *final(self), token, duration_bin, score)
                } else {
                    Self::main_joint(*old(self), *final(self), token, duration_bin, score)
                }
            },
    {
        let d0 = match map_duration_bin(duration_bin) {
            Ok(d) => d,
            Err(m) => {
                return Err(m);
            },
        };
        let eff = self.effective_len;
        if self.phase == TdtPhase::FinalJoint {
            if token == BLANK_ID_V2 {
                self.consecutive_blanks = self.consecutive_blanks + 1;
                let step = if d0 >= 1 { d0 } else { 1 };
                let next = self.final_time_index + step;
                self.final_time_index = if next < eff { next } else { eff };
                self.additional_steps = self.additional_steps + 1;
                if !(self.additional_steps < MAX_SYMBOLS_PER_STEP && self.consecutive_blanks < CONSECUTIVE_BLANK_LIMIT) {
                    self.predictor_cached = false;
                    self.phase = TdtPhase::Done;
                } else {
                    self.phase = TdtPhase::FinalDecoder;
                }
            } else {
                self.consecutive_blanks = 0;
                let at = if self.final_time_index < eff - 1 { self.final_time_index } else { eff - 1 };
                let timestamp = at + self.options.global_frame_offset;
                self.push_token(token, timestamp, score, d0);
                self.last_token = Some(token);
                self.label = token;
                self.duration = d0;
                self.score = Some(score);
                self.phase = TdtPhase::FinalEmit;
            }
            return Ok(());
        }
        let ghost o = *self;
        let blank = token == BLANK_ID_V2;
        let repeated = match self.last_emission_timestamp {
            Some(t) => t == self.time_index,
            None => false,
        };
        let mut d = d0;
        if self.phase == TdtPhase::MainJoint && !blank && d0 == 0 && repeated && self.emissions_at_this_timestamp >= 1 {
            d = 1;
        } else if blank && d0 == 0 {
            d = 1;
        }
        assert(d == Self::main_duration(o, token, d0));
        self.time_index_current_label = self.time_index;
        self.time_index = self.time_index + d;
        self.safe_time_index = if self.time_index < eff - 1 { self.time_index } else { eff - 1 };
        self.active = self.time_index < eff;
        self.label = token;
        self.score = Some(score);
        self.duration = d;
        let k = eff + 5;
        if self.active && blank {
            self.phase = TdtPhase::Advance;
        } else if self.active {
            self.tokens_processed = self.tokens_processed + 1;
            if self.tokens_processed > MAX_TOKENS_PER_CHUNK {
                self.leave_main();
            } else {
                let timestamp = self.time_index_current_label + self.options.global_frame_offset;
                self.push_token(token, timestamp, score, d);
                self.last_token = Some(token);
                self.phase = TdtPhase::MainEmit;
                proof {
                    let tp = o.tokens_processed as int;
                    assert((150 - (tp + 1)) * k + k == (150 - tp) * k) by (nonlinear_arith);
                }
            }
        } else {
            self.leave_main();
        }
        proof {
            let tp = o.tokens_processed as int;
            assert((150 - tp) * k >= 0) by (nonlinear_arith)
                requires tp <= 150, k >= 0;
        }
        Ok(())
    }

    /// The decoder has run on the emitted token and its output is kept:
    /// in the main loop, emissions at the timestamp are counted and a full
    /// timestamp moves one frame on; in the extra steps, the token becomes
    /// the decoder's input and decoding moves on by its duration.
    pub fn emitted(&mut self)
        requires
            old(self).wf(),
            old(self).phase == TdtPhase::MainEmit || old(self).phase == TdtPhase::FinalEmit,
        ensures
            final(self).wf(),
            final(self).remaining() < old(self).remaining(),
            final(self).predictor_cached || final(self).phase == TdtPhase::Done,
            Self::same_hypothesis(*old(self), *final(self)),
            Self::same_chunk(*old(self), *final(self)),
            old(self).phase == TdtPhase::MainEmit ==> {
                let o = *old(self);
                let n = *final(self);
                let repeated = o.last_emission_timestamp == Some(o.time_index_current_label);
                let count = if repeated { o.emissions_at_this_timestamp + 1 } else { 1 };
                &&& n.phase == TdtPhase::MainDecoder
                &&& n.predictor_cached
                &&& n.tokens_processed == o.tokens_processed
                &&& if count >= MAX_SYMBOLS_PER_STEP {
                    &&& n.time_index == min_index(o.time_index + 1, o.effective_len - 1)
                    &&& n.safe_time_index == n.time_index
                    &&& n.emissions_at_this_timestamp == 0
                    &&& n.last_emission_timestamp is None
                } else {
                    &&& n.time_index == o.time_index
                    &&& n.safe_time_index == o.safe_time_index
                    &&& n.emissions_at_this_timestamp == count
                    &&& n.last_emission_timestamp == Some(o.time_index_current_label)
                }
            },
            old(self).phase == TdtPhase::FinalEmit ==> {
                let o = *old(self);
                let n = *final(self);
                let steps = o.additional_steps + 1;
                &&& n.final_last_token == o.label
                &&& n.final_time_index == min_index(o.final_time_index + (if o.duration >= 1 { o.duration as int } else { 1 }), o.effective_len as int)
                &&& n.additional_steps == steps
                &&& n.consecutive_blanks == o.consecutive_blanks
                &&& if steps < MAX_SYMBOLS_PER_STEP && o.consecutive_blanks < CONSECUTIVE_BLANK_LIMIT {
                    n.phase == TdtPhase::FinalDecoder && n.predictor_cached
                } else {
                    n.phase == TdtPhase::Done && !n.predictor_cached
                }
            },
    {
        let eff = self.effective_len;
        self.predictor_cached = true;
        if self.phase == TdtPhase::MainEmit {
            let repeated = match self.last_emission_timestamp {
                Some(t) => t == self.time_index_current_label,
                None => false,
            };
            if repeated {
                self.emissions_at_this_timestamp = self.emissions_at_this_timestamp + 1;
            } else {
                self.last_emission_timestamp = Some(self.time_index_current_label);
                self.emissions_at_this_timestamp = 1;
            }
            if self.emissions_at_this_timestamp >= MAX_SYMBOLS_PER_STEP {
                let next = self.time_index + 1;
                self.time_index = if next < eff - 1 { next } else { eff - 1 };
                self.safe_time_index = self.time_index;
                self.emissions_at_this_timestamp = 0;
                self.last_emission_timestamp = None;
            }
            self.active = self.time_index < eff;
            self.phase = TdtPhase::MainDecoder;
        } else {
            self.final_last_token = self.label;
            let step = if self.duration >= 1 { self.duration } else { 1 };
            let next = self.final_time_index + step;
            self.final_time_index = if next < eff { next } else { eff };
            self.additional_steps = self.additional_steps + 1;
            if !(self.additional_steps < MAX_SYMBOLS_PER_STEP && self.consecutive_blanks < CONSECUTIVE_BLANK_LIMIT) {
                self.predictor_cached = false;
                self.phase = TdtPhase::Done;
            } else {
                self.phase = TdtPhase::FinalDecoder;
            }
        }
    }
}

/// Decoding a chunk ends: what is left is never negative, every call that
/// moves the machine makes it smaller, and only a finished machine has
/// nothing left.
pub proof fn law_chunk_decoding_ends<C: Copy>(d: TdtChunkDecoder<C>)
    requires
        d.wf(),
    ensures
        d.remaining() >= 0,
        d.remaining() == 0 <==> d.phase == TdtPhase::Done,
{
    let k = d.effective_len + 5;
    let tp = d.tokens_processed as int;
    if d.phase == TdtPhase::Prime || d.phase == TdtPhase::MainDecoder || d.phase == TdtPhase::MainJoint
        || d.phase == TdtPhase::Advance || d.phase == TdtPhase::MainEmit {
        assert((150 - tp) * k >= 0) by (nonlinear_arith)
            requires
                tp <= 150,
                k >= 0;
        assert(152 * k >= 0) by (nonlinear_arith)
            requires
                k >= 0;
    }
}

} // verus!
