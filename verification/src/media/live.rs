//! The decisions of a live streaming transcription session for one mono
//! channel: when to decode, from where, and how decoded tokens become
//! committed and tentative words. Whoever runs the model performs each
//! decode the session plans, keeps the decoder state of each checkpoint, and
//! hands back the decoded token windows.
use crate::media::audio_buffer::RollingAudioBuffer;
use crate::media::checkpoints::{
    decode_plan, prune_unusable_checkpoints, pruned_count, sat_sub_u64, select_decode_plan, CheckpointMark, DecodePlan,
};
use crate::media::streaming::{
    aligned_streaming_target_ms, checkpoint_interval_elapsed, frame_floor, frame_ms, interval_elapsed,
    is_encoder_frame_aligned_ms, max_model_window_ms, max_u64, min_u64, ms_to_encoder_frame, ms_to_encoder_frame_floor,
    next_decode_end, next_decode_end_for, reconcile_state, reconcile_streaming_words, sample_ms, copy_word, CoreMlStreamingConfig,
    SAMPLE_RATE,
};
use crate::media::token_words::{
    first_from, prune_token_windows_before, token_windows_to_word_timings, token_words, vocab_view, words_view,
    token_frame_limit,
};
use crate::media::tokens::{lemma_merged_windows_bounded, merge_token_windows, merged_windows, windows_bounded, TokenWindow};
use crate::media::transcript::WordTiming;
use vstd::prelude::*;

verus! {

/// Why a session refused a request.
#[derive(Debug, Clone, Copy, PartialEq, Eq, Structural)]
pub enum StreamingSessionError {
    /// A progressive update after the session was finished.
    UpdateAfterFinish,
    /// A second finish.
    AlreadyFinished,
}

impl StreamingSessionError {
    pub fn message(&self) -> (r: &'static str)
        ensures
            *self == StreamingSessionError::UpdateAfterFinish
                ==> r@ == "cannot update a CoreML ASR session after finish_until; create a new session"@,
            *self == StreamingSessionError::AlreadyFinished ==> r@ == "CoreML ASR session has already been finalized"@,
    {
        match self {
            StreamingSessionError::UpdateAfterFinish => "cannot update a CoreML ASR session after finish_until; create a new session",
            StreamingSessionError::AlreadyFinished => "CoreML ASR session has already been finalized",
        }
    }
}

/// One planned decode: where it ends and how it starts.
#[derive(Debug, Clone, Copy, PartialEq, Eq, Structural)]
pub struct DecodeStep {
    pub end_ms: u64,
    pub plan: DecodePlan,
}

/// What a completed decode changed in the checkpoints: whether one was taken
/// (its decoder state is to be kept at the end), and how many of the oldest
/// were dropped (their decoder states are to be dropped too).
#[derive(Debug, Clone, Copy, PartialEq, Eq, Structural)]
pub struct StepOutcome {
    pub checkpoint_created: bool,
    pub checkpoints_pruned: usize,
}

/// Encoder frames of overlap used to match two decodes: at least one.
pub open spec fn overlap_frames_of(overlap_ms: u64) -> int {
    if frame_floor(overlap_ms) >= 1 { frame_floor(overlap_ms) as int } else { 1 }
}

/// A checkpoint is taken after a decode ending on a frame boundary, once a
/// checkpoint interval has passed since the last one.
pub open spec fn checkpoint_due(decoded_ms: u64, marks: Seq<CheckpointMark>, interval_ms: u64) -> bool {
    &&& interval_ms != 0
    &&& decoded_ms != 0
    &&& decoded_ms == frame_ms(frame_floor(decoded_ms))
    &&& interval_elapsed(if marks.len() > 0 { marks.last().frame_index } else { 0 }, frame_floor(decoded_ms), interval_ms)
}

pub open spec fn new_mark(decoded_ms: u64, committed_len: nat, committed_until_ms: u64) -> CheckpointMark {
    CheckpointMark {
        time_ms: decoded_ms,
        frame_index: frame_floor(decoded_ms),
        committed_word_len: committed_len as usize,
        committed_until_ms,
        decoded_until_ms: decoded_ms,
    }
}

/// Token windows after a decode: the new windows merged in, when there are any.
pub open spec fn windows_after<C>(old_windows: Seq<TokenWindow<C>>, new_windows: Seq<TokenWindow<C>>, overlap_ms: u64) -> Seq<TokenWindow<C>> {
    if new_windows.len() == 0 {
        old_windows
    } else {
        merged_windows(old_windows, new_windows, overlap_frames_of(overlap_ms))
    }
}

/// The committed boundary after reconciling: the end of the last committed
/// word when that is later.
pub open spec fn boundary_after(committed: Seq<WordTiming>, old_until_ms: u64) -> u64 {
    if committed.len() > 0 { max_u64(committed.last().end_ms, old_until_ms) } else { old_until_ms }
}

/// The transcript after an update: committed words, the current
/// hypothesis, and how far decoding and committing reached.
#[derive(Debug, Clone, PartialEq)]
pub struct StreamingTranscriptUpdate {
    pub committed: Vec<WordTiming>,
    pub hypothesis: Vec<WordTiming>,
    pub decoded_until_ms: u64,
    pub committed_until_ms: u64,
}

fn copy_words(words: &[WordTiming]) -> (r: Vec<WordTiming>)
    ensures
        r@ == words@,
{
    let mut out: Vec<WordTiming> = Vec::new();
    let mut i: usize = 0;
    while i < words.len()
        invariant
            i <= words.len(),
            out@ == words@.take(i as int),
        decreases words.len() - i,
    {
        out.push(copy_word(&words[i]));
        assert(words@.take(i + 1) =~= words@.take(i as int).push(words@[i as int]));
        i = i + 1;
    }
    assert(words@.take(words.len() as int) =~= words@);
    out
}

/// Streaming transcription state of one mono channel at 16 kHz.
pub struct CoreMlAsrSession<S, C> {
    audio: RollingAudioBuffer<S>,
    checkpoints: Vec<CheckpointMark>,
    committed_words: Vec<WordTiming>,
    hypothesis_words: Vec<WordTiming>,
    transcript_token_windows: Vec<TokenWindow<C>>,
    vocabulary: Vec<Option<String>>,
    decoded_until_ms: u64,
    committed_until_ms: u64,
    terminal: bool,
    config: CoreMlStreamingConfig,
}

impl<S, C> CoreMlAsrSession<S, C> {
    /// Audio at the session rate, at least one checkpoint, and token windows
    /// within the frame limit.
    pub closed spec fn wf(&self) -> bool {
        &&& self.audio.rate() == SAMPLE_RATE
        &&& self.checkpoints@.len() >= 1
        &&& windows_bounded(self.transcript_token_windows@, token_frame_limit())
    }

    pub closed spec fn buffer(&self) -> RollingAudioBuffer<S> {
        self.audio
    }

    pub closed spec fn marks(&self) -> Seq<CheckpointMark> {
        self.checkpoints@
    }

    pub closed spec fn committed(&self) -> Seq<WordTiming> {
        self.committed_words@
    }

    pub closed spec fn hypothesis(&self) -> Seq<WordTiming> {
        self.hypothesis_words@
    }

    pub closed spec fn windows(&self) -> Seq<TokenWindow<C>> {
        self.transcript_token_windows@
    }

    pub closed spec fn vocab(&self) -> Seq<Option<Seq<char>>> {
        vocab_view(self.vocabulary@)
    }

    pub closed spec fn decoded_until(&self) -> u64 {
        self.decoded_until_ms
    }

    pub closed spec fn committed_until(&self) -> u64 {
        self.committed_until_ms
    }

    pub closed spec fn finished(&self) -> bool {
        self.terminal
    }

    pub closed spec fn settings(&self) -> CoreMlStreamingConfig {
        self.config
    }

    /// Every operation keeps a session well formed, so one always has a
    /// checkpoint to restart from and 16 kHz audio.
    pub proof fn law_well_formed_session_has_a_checkpoint(&self)
        requires
            self.wf(),
        ensures
            self.marks().len() >= 1,
            self.buffer().rate() == SAMPLE_RATE,
    {
    }
}

impl<S: Copy, C: Copy> CoreMlAsrSession<S, C> {
    /// A session that has decoded nothing, with one checkpoint at zero.
    pub fn new(vocabulary: Vec<Option<String>>, config: CoreMlStreamingConfig) -> (r: Self)
        ensures
            r.wf(),
            r.marks() == seq![CheckpointMark { time_ms: 0, frame_index: 0, committed_word_len: 0, committed_until_ms: 0, decoded_until_ms: 0 }],
            r.committed().len() == 0,
            r.hypothesis().len() == 0,
            r.windows().len() == 0,
            r.vocab() == vocab_view(vocabulary@),
            r.decoded_until() == 0,
            r.committed_until() == 0,
            !r.finished(),
            r.buffer().base() == 0,
            r.buffer().kept().len() == 0,
            r.settings().step_ms == min_u64(max_u64(config.step_ms, 1), 15_000),
            r.settings().overlap_ms == config.overlap_ms,
            r.settings().stability_lag_ms == config.stability_lag_ms,
            r.settings().checkpoint_interval_ms == config.checkpoint_interval_ms,
    {
        let mut checkpoints: Vec<CheckpointMark> = Vec::new();
        checkpoints.push(CheckpointMark { time_ms: 0, frame_index: 0, committed_word_len: 0, committed_until_ms: 0, decoded_until_ms: 0 });
        CoreMlAsrSession {
            audio: RollingAudioBuffer::new(SAMPLE_RATE),
            checkpoints,
            committed_words: Vec::new(),
            hypothesis_words: Vec::new(),
            transcript_token_windows: Vec::new(),
            vocabulary,
            decoded_until_ms: 0,
            committed_until_ms: 0,
            terminal: false,
            config: config.normalized(),
        }
    }

    /// Adds 16 kHz mono samples at the end of the session audio.
    pub fn append_audio(&mut self, mono_16k: &[S])
        requires
            old(self).wf(),
            old(self).buffer().end_index() + mono_16k.len() <= u64::MAX,
        ensures
            final(self).wf(),
            final(self).buffer().base() == old(self).buffer().base(),
            final(self).buffer().kept() == old(self).buffer().kept() + mono_16k@,
            final(self).marks() == old(self).marks(),
            final(self).committed() == old(self).committed(),
            final(self).hypothesis() == old(self).hypothesis(),
            final(self).windows() == old(self).windows(),
            final(self).vocab() == old(self).vocab(),
            final(self).decoded_until() == old(self).decoded_until(),
            final(self).committed_until() == old(self).committed_until(),
            final(self).finished() == old(self).finished(),
            final(self).settings() == old(self).settings(),
    {
        self.audio.append(mono_16k);
    }

    pub fn committed_words(&self) -> (r: &[WordTiming])
        ensures
            r@ == self.committed(),
    {
        self.committed_words.as_slice()
    }

    pub fn hypothesis_words(&self) -> (r: &[WordTiming])
        ensures
            r@ == self.hypothesis(),
    {
        self.hypothesis_words.as_slice()
    }

    pub fn decoded_until_ms(&self) -> (r: u64)
        ensures
            r == self.decoded_until(),
    {
        self.decoded_until_ms
    }

    pub fn committed_until_ms(&self) -> (r: u64)
        ensures
            r == self.committed_until(),
    {
        self.committed_until_ms
    }

    /// The transcript as it stands.
    pub fn transcript_update(&self) -> (r: StreamingTranscriptUpdate)
        ensures
            r.committed@ == self.committed(),
            r.hypothesis@ == self.hypothesis(),
            r.decoded_until_ms == self.decoded_until(),
            r.committed_until_ms == self.committed_until(),
    {
        StreamingTranscriptUpdate {
            committed: copy_words(self.committed_words.as_slice()),
            hypothesis: copy_words(self.hypothesis_words.as_slice()),
            decoded_until_ms: self.decoded_until_ms,
            committed_until_ms: self.committed_until_ms,
        }
    }

    pub fn checkpoints_len(&self) -> (r: usize)
        ensures
            r == self.marks().len(),
    {
        self.checkpoints.len()
    }

    pub fn checkpoints(&self) -> (r: &[CheckpointMark])
        ensures
            r@ == self.marks(),
    {
        self.checkpoints.as_slice()
    }

    pub fn audio(&self) -> (r: &RollingAudioBuffer<S>)
        ensures
            *r == self.buffer(),
    {
        &self.audio
    }

    /// The frame-aligned end of a progressive update to `end_ms`, as far as
    /// audio has arrived; refused once the session is finished.
    pub fn update_target(&self, end_ms: u64) -> (r: Result<u64, StreamingSessionError>)
        requires
            self.wf(),
        ensures
            self.finished() ==> r == Err::<u64, StreamingSessionError>(StreamingSessionError::UpdateAfterFinish),
            !self.finished() ==> r == Ok::<u64, StreamingSessionError>(frame_ms(frame_floor(
                min_u64(end_ms, sample_ms(self.buffer().end_index() as u64, SAMPLE_RATE))))),
    {
        if self.terminal {
            return Err(StreamingSessionError::UpdateAfterFinish);
        }
        let audio_end = self.audio.end_ms();
        let target_ms = if end_ms < audio_end { end_ms } else { audio_end };
        Ok(aligned_streaming_target_ms(target_ms))
    }

    /// The next decode towards `decode_target_ms`, or none when the session
    /// has decoded that far or cannot advance.
    pub fn next_step(&self, decode_target_ms: u64) -> (r: Option<DecodeStep>)
        requires
            self.wf(),
        ensures
            ({
                let end = next_decode_end(self.decoded_until(), decode_target_ms, self.settings());
                if self.decoded_until() < decode_target_ms && end > self.decoded_until() {
                    r == Some(DecodeStep { end_ms: end, plan: decode_plan(self.decoded_until(), self.marks(), self.settings().overlap_ms, end) })
                } else {
                    r is None
                }
            }),
            r matches Some(s) ==> (s.plan.restore_checkpoint matches Some(i) ==> i < self.marks().len()),
    {
        if self.decoded_until_ms >= decode_target_ms {
            return None;
        }
        let next_end = next_decode_end_for(self.decoded_until_ms, decode_target_ms, &self.config);
        if next_end <= self.decoded_until_ms {
            return None;
        }
        let plan = select_decode_plan(self.decoded_until_ms, self.checkpoints.as_slice(), &self.config, next_end);
        Some(DecodeStep { end_ms: next_end, plan })
    }

    /// Rewinds to checkpoint `index`: the tentative words are dropped and the
    /// session has decoded as far as it had then. Committed words stay.
    pub fn restore_checkpoint(&mut self, index: usize)
        requires
            old(self).wf(),
            index < old(self).marks().len(),
        ensures
            final(self).wf(),
            final(self).hypothesis().len() == 0,
            final(self).decoded_until() == old(self).marks()[index as int].decoded_until_ms,
            final(self).buffer() == old(self).buffer(),
            final(self).marks() == old(self).marks(),
            final(self).committed() == old(self).committed(),
            final(self).windows() == old(self).windows(),
            final(self).vocab() == old(self).vocab(),
            final(self).committed_until() == old(self).committed_until(),
            final(self).finished() == old(self).finished(),
            final(self).settings() == old(self).settings(),
    {
        self.hypothesis_words = Vec::new();
        self.decoded_until_ms = self.checkpoints[index].decoded_until_ms;
    }

    /// Merges newly decoded windows into the transcript's windows and reads
    /// the words back.
    fn merge_span_token_windows(&mut self, token_windows: Vec<TokenWindow<C>>) -> (r: Vec<WordTiming>)
        requires
            old(self).wf(),
            windows_bounded(token_windows@, token_frame_limit()),
        ensures
            final(self).wf(),
            final(self).windows() == windows_after(old(self).windows(), token_windows@, old(self).settings().overlap_ms),
            words_view(r@) == token_words(final(self).windows(), old(self).vocab()),
            final(self).buffer() == old(self).buffer(),
            final(self).marks() == old(self).marks(),
            final(self).committed() == old(self).committed(),
            final(self).hypothesis() == old(self).hypothesis(),
            final(self).vocab() == old(self).vocab(),
            final(self).decoded_until() == old(self).decoded_until(),
            final(self).committed_until() == old(self).committed_until(),
            final(self).finished() == old(self).finished(),
            final(self).settings() == old(self).settings(),
    {
        if token_windows.len() > 0 {
            let frames = ms_to_encoder_frame_floor(self.config.overlap_ms);
            let overlap_frames: usize = if frames >= 1 { frames } else { 1 };
            proof {
                if self.transcript_token_windows@.len() > 0 {
                    let l = self.transcript_token_windows@;
                    assert(l[l.len() - 1].timestamp + crate::media::tokens::span_frames(l[l.len() - 1].duration) <= token_frame_limit());
                    assert(token_windows@[0].timestamp + crate::media::tokens::span_frames(token_windows@[0].duration) <= token_frame_limit());
                }
                lemma_merged_windows_bounded(self.transcript_token_windows@, token_windows@, overlap_frames as int, token_frame_limit());
            }
            self.transcript_token_windows = merge_token_windows(
                self.transcript_token_windows.as_slice(),
                token_windows.as_slice(),
                overlap_frames,
            );
        }
        token_windows_to_word_timings(self.transcript_token_windows.as_slice(), self.vocabulary.as_slice())
    }

    /// Takes a checkpoint of the current position when one is due.
    fn maybe_create_checkpoint(&mut self) -> (r: bool)
        requires
            old(self).wf(),
        ensures
            final(self).wf(),
            r == checkpoint_due(old(self).decoded_until(), old(self).marks(), old(self).settings().checkpoint_interval_ms),
            r ==> final(self).marks() == old(self).marks().push(new_mark(old(self).decoded_until(), old(self).committed().len(),
                old(self).committed_until())),
            !r ==> final(self).marks() == old(self).marks(),
            final(self).buffer() == old(self).buffer(),
            final(self).committed() == old(self).committed(),
            final(self).hypothesis() == old(self).hypothesis(),
            final(self).windows() == old(self).windows(),
            final(self).vocab() == old(self).vocab(),
            final(self).decoded_until() == old(self).decoded_until(),
            final(self).committed_until() == old(self).committed_until(),
            final(self).finished() == old(self).finished(),
            final(self).settings() == old(self).settings(),
    {
        let interval = self.config.checkpoint_interval_ms;
        if interval == 0 || self.decoded_until_ms == 0 {
            return false;
        }
        if !is_encoder_frame_aligned_ms(self.decoded_until_ms) {
            return false;
        }
        let current_frame = ms_to_encoder_frame_floor(self.decoded_until_ms);
        let last_checkpoint_frame = self.checkpoints[self.checkpoints.len() - 1].frame_index;
        if !checkpoint_interval_elapsed(last_checkpoint_frame, current_frame, interval) {
            return false;
        }
        let mark = CheckpointMark {
            time_ms: self.decoded_until_ms,
            frame_index: ms_to_encoder_frame(self.decoded_until_ms),
            committed_word_len: self.committed_words.len(),
            committed_until_ms: self.committed_until_ms,
            decoded_until_ms: self.decoded_until_ms,
        };
        self.checkpoints.push(mark);
        true
    }

    /// Drops checkpoints more than a model window behind, the audio before
    /// the oldest checkpoint kept, and the token windows before the overlap
    /// preceding the committed boundary. Returns how many checkpoints went.
    fn maintain_bounded_retention(&mut self) -> (r: usize)
        requires
            old(self).wf(),
        ensures
            final(self).wf(),
            r == pruned_count(old(self).marks(), sat_sub_u64(old(self).decoded_until(), 15_000)),
            final(self).marks() == old(self).marks().skip(r as int),
            final(self).buffer().base() == old(self).buffer().base() + old(self).buffer().trimmed_count(final(self).marks()[0].time_ms),
            final(self).buffer().kept() == old(self).buffer().kept().skip(old(self).buffer().trimmed_count(final(self).marks()[0].time_ms)),
            final(self).buffer().rate() == old(self).buffer().rate(),
            final(self).windows() == old(self).windows().skip(first_from(old(self).windows(),
                frame_floor(sat_sub_u64(old(self).committed_until(), old(self).settings().overlap_ms)) as int)),
            final(self).committed() == old(self).committed(),
            final(self).hypothesis() == old(self).hypothesis(),
            final(self).vocab() == old(self).vocab(),
            final(self).decoded_until() == old(self).decoded_until(),
            final(self).committed_until() == old(self).committed_until(),
            final(self).finished() == old(self).finished(),
            final(self).settings() == old(self).settings(),
    {
        let before = self.checkpoints.len();
        let ghost old_marks = self.checkpoints@;
        prune_unusable_checkpoints(&mut self.checkpoints, self.decoded_until_ms, max_model_window_ms());
        proof {
            lemma_pruned_count_bound(old_marks, sat_sub_u64(self.decoded_until_ms, 15_000));
        }
        let pruned = before - self.checkpoints.len();
        let audio_floor_ms = self.checkpoints[0].time_ms;
        self.audio.trim_before(audio_floor_ms);
        let cutoff = if self.committed_until_ms >= self.config.overlap_ms { self.committed_until_ms - self.config.overlap_ms } else { 0 };
        let ghost old_windows = self.transcript_token_windows@;
        prune_token_windows_before(&mut self.transcript_token_windows, cutoff);
        proof {
            lemma_first_from_range(old_windows, frame_floor(cutoff) as int);
            let kept = self.transcript_token_windows@;
            assert forall|k: int| 0 <= k < kept.len() implies (#[trigger] kept[k]).timestamp
                + crate::media::tokens::span_frames(kept[k].duration) <= token_frame_limit() by {
                assert(kept[k] == old_windows[k + first_from(old_windows, frame_floor(cutoff) as int)]);
            }
        }
        pruned
    }

    /// Records a completed progressive decode ending at `decode_end_ms`
    /// whose decoded windows are `token_windows`: the windows are merged in,
    /// the words reconciled (words ending more than the stability lag before
    /// the decode end stay tentative), a checkpoint taken when due, and what
    /// lies too far behind dropped.
    pub fn complete_step(&mut self, decode_end_ms: u64, token_windows: Vec<TokenWindow<C>>) -> (r: StepOutcome)
        requires
            old(self).wf(),
            windows_bounded(token_windows@, token_frame_limit()),
        ensures
            final(self).wf(),
            final(self).decoded_until() == decode_end_ms,
            exists|decoded: Seq<WordTiming>| {
                &&& words_view(decoded) == token_words(
                    windows_after(old(self).windows(), token_windows@, old(self).settings().overlap_ms), old(self).vocab())
                &&& final(self).committed() == reconcile_state(old(self).committed(), old(self).committed_until(), decoded,
                    sat_sub_u64(decode_end_ms, old(self).settings().stability_lag_ms) as int).0
                &&& final(self).hypothesis() == reconcile_state(old(self).committed(), old(self).committed_until(), decoded,
                    sat_sub_u64(decode_end_ms, old(self).settings().stability_lag_ms) as int).1
            },
            final(self).committed().take(old(self).committed().len() as int) == old(self).committed(),
            final(self).committed_until() == boundary_after(final(self).committed(), old(self).committed_until()),
            r.checkpoint_created == checkpoint_due(decode_end_ms, old(self).marks(), old(self).settings().checkpoint_interval_ms),
            ({
                let with_new = if r.checkpoint_created {
                    old(self).marks().push(new_mark(decode_end_ms, final(self).committed().len(), final(self).committed_until()))
                } else {
                    old(self).marks()
                };
                &&& r.checkpoints_pruned == pruned_count(with_new, sat_sub_u64(decode_end_ms, 15_000))
                &&& final(self).marks() == with_new.skip(r.checkpoints_pruned as int)
            }),
            final(self).buffer().base() == old(self).buffer().base() + old(self).buffer().trimmed_count(final(self).marks()[0].time_ms),
            final(self).buffer().kept() == old(self).buffer().kept().skip(old(self).buffer().trimmed_count(final(self).marks()[0].time_ms)),
            ({
                let merged = windows_after(old(self).windows(), token_windows@, old(self).settings().overlap_ms);
                final(self).windows() == merged.skip(first_from(merged,
                    frame_floor(sat_sub_u64(final(self).committed_until(), old(self).settings().overlap_ms)) as int))
            }),
            final(self).vocab() == old(self).vocab(),
            final(self).finished() == old(self).finished(),
            final(self).settings() == old(self).settings(),
    {
        self.decoded_until_ms = decode_end_ms;
        let decoded_words = self.merge_span_token_windows(token_windows);
        let ghost decoded = decoded_words@;
        let reconciled = reconcile_streaming_words(
            self.committed_words.as_slice(),
            self.committed_until_ms,
            decoded_words,
            decode_end_ms,
            self.config.stability_lag_ms,
        );
        self.committed_words = reconciled.committed;
        self.hypothesis_words = reconciled.hypothesis;
        self.committed_until_ms = reconciled.committed_until_ms;
        let checkpoint_created = self.maybe_create_checkpoint();
        let checkpoints_pruned = self.maintain_bounded_retention();
        StepOutcome { checkpoint_created, checkpoints_pruned }
    }

    /// The end of the final decode to `end_ms`, as far as audio has arrived;
    /// refused when the session is already finished.
    pub fn finish_target(&self, end_ms: u64) -> (r: Result<u64, StreamingSessionError>)
        requires
            self.wf(),
        ensures
            self.finished() ==> r == Err::<u64, StreamingSessionError>(StreamingSessionError::AlreadyFinished),
            !self.finished() ==> r == Ok::<u64, StreamingSessionError>(min_u64(end_ms, sample_ms(self.buffer().end_index() as u64, SAMPLE_RATE))),
    {
        if self.terminal {
            return Err(StreamingSessionError::AlreadyFinished);
        }
        let audio_end = self.audio.end_ms();
        Ok(if end_ms < audio_end { end_ms } else { audio_end })
    }

    /// How the final decode to `target_ms` starts.
    pub fn final_plan(&self, target_ms: u64) -> (r: DecodePlan)
        requires
            self.wf(),
        ensures
            r == decode_plan(self.decoded_until(), self.marks(), self.settings().overlap_ms, target_ms),
            r.restore_checkpoint matches Some(i) ==> i < self.marks().len(),
    {
        select_decode_plan(self.decoded_until_ms, self.checkpoints.as_slice(), &self.config, target_ms)
    }

    /// Records the final decode to `target_ms`, which may end inside an
    /// encoder frame: its windows are merged in, every decoded word that is
    /// not a repeat is committed, a checkpoint is taken when due, and the
    /// session is finished. `decoded_before_ms` is how far the session had
    /// decoded before the final decode's checkpoint was restored.
    pub fn complete_final(&mut self, decoded_before_ms: u64, target_ms: u64, token_windows: Vec<TokenWindow<C>>) -> (r: bool)
        requires
            old(self).wf(),
            windows_bounded(token_windows@, token_frame_limit()),
        ensures
            final(self).wf(),
            final(self).finished(),
            final(self).decoded_until() == max_u64(target_ms, decoded_before_ms),
            final(self).windows() == windows_after(old(self).windows(), token_windows@, old(self).settings().overlap_ms),
            exists|decoded: Seq<WordTiming>| {
                &&& words_view(decoded) == token_words(final(self).windows(), old(self).vocab())
                &&& final(self).committed() == reconcile_state(old(self).committed(), old(self).committed_until(), decoded,
                    u64::MAX as int).0
                &&& final(self).hypothesis() == reconcile_state(old(self).committed(), old(self).committed_until(), decoded,
                    u64::MAX as int).1
            },
            final(self).committed().take(old(self).committed().len() as int) == old(self).committed(),
            final(self).committed_until() == boundary_after(final(self).committed(), old(self).committed_until()),
            r == checkpoint_due(max_u64(target_ms, decoded_before_ms), old(self).marks(), old(self).settings().checkpoint_interval_ms),
            r ==> final(self).marks() == old(self).marks().push(new_mark(max_u64(target_ms, decoded_before_ms),
                final(self).committed().len(), final(self).committed_until())),
            !r ==> final(self).marks() == old(self).marks(),
            final(self).buffer() == old(self).buffer(),
            final(self).vocab() == old(self).vocab(),
            final(self).settings() == old(self).settings(),
    {
        self.decoded_until_ms = if target_ms >= decoded_before_ms { target_ms } else { decoded_before_ms };
        let final_words = self.merge_span_token_windows(token_windows);
        let reconciled = reconcile_streaming_words(
            self.committed_words.as_slice(),
            self.committed_until_ms,
            final_words,
            u64::MAX,
            0,
        );
        self.committed_words = reconciled.committed;
        self.hypothesis_words = reconciled.hypothesis;
        self.committed_until_ms = reconciled.committed_until_ms;
        let checkpoint_created = self.maybe_create_checkpoint();
        self.terminal = true;
        checkpoint_created
    }
}

proof fn lemma_pruned_count_bound(cps: Seq<CheckpointMark>, floor_ms: u64)
    ensures
        0 <= pruned_count(cps, floor_ms),
        cps.len() >= 1 ==> pruned_count(cps, floor_ms) < cps.len(),
    decreases cps.len(),
{
    if cps.len() > 1 && cps[0].time_ms < floor_ms {
        lemma_pruned_count_bound(cps.drop_first(), floor_ms);
    }
}

proof fn lemma_first_from_range<C>(s: Seq<TokenWindow<C>>, frame: int)
    ensures
        0 <= first_from(s, frame) <= s.len(),
    decreases s.len(),
{
    if s.len() > 0 && s[0].timestamp < frame {
        lemma_first_from_range(s.drop_first(), frame);
    }
}

} // verus!
