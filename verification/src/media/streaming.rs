//! Encoder-frame arithmetic and word reconciliation for streaming
//! transcription with a fixed-window speech model.
use crate::media::transcript::WordTiming;
use crate::text::{ascii_lower, ascii_lower_chars, chars_of, trim_end_by, trim_start_by, trim_ws, trim_ws_chars};
use vstd::prelude::*;

verus! {

pub const SAMPLE_RATE: u32 = 16_000;

pub const MAX_MODEL_SAMPLES: usize = 240_000;

pub const SAMPLES_PER_ENCODER_FRAME: usize = 1_280;

pub const MS_PER_ENCODER_FRAME: u64 = 80;

pub const MEL_HOP_SAMPLES: usize = 160;

pub const MEL_CONTEXT_SAMPLES: usize = 1_280;

pub const OFFLINE_OVERLAP_SAMPLES: usize = 32_000;

/// Cadence of streaming decoding.
#[derive(Debug, Clone)]
pub struct CoreMlStreamingConfig {
    pub step_ms: u64,
    pub overlap_ms: u64,
    pub stability_lag_ms: u64,
    pub checkpoint_interval_ms: u64,
}

impl Default for CoreMlStreamingConfig {
    fn default() -> (r: Self)
        ensures
            r.step_ms == 1_000,
            r.overlap_ms == 2_000,
            r.stability_lag_ms == 1_500,
            r.checkpoint_interval_ms == 5_000,
    {
        CoreMlStreamingConfig { step_ms: 1_000, overlap_ms: 2_000, stability_lag_ms: 1_500, checkpoint_interval_ms: 5_000 }
    }
}

// ---------------------------------------------------------- frame math

pub open spec fn sample_index(ms: u64, sample_rate: u32) -> u64 {
    ((ms as int * sample_rate as int) / 1_000) as u64
}

pub open spec fn sample_ms(samples: u64, sample_rate: u32) -> u64 {
    ((samples as int * 1_000) / sample_rate as int) as u64
}

pub open spec fn frame_floor(ms: u64) -> usize {
    ((sample_index(ms, SAMPLE_RATE) as usize) / SAMPLES_PER_ENCODER_FRAME) as usize
}

pub open spec fn frame_ms(frame: usize) -> u64 {
    if frame as int * 80 > u64::MAX { u64::MAX } else { (frame as int * 80) as u64 }
}

/// Sample index at `ms`, rounded down.
pub fn ms_to_sample_index(ms: u64, sample_rate: u32) -> (r: u64)
    ensures
        r == sample_index(ms, sample_rate),
{
    proof {
        let (a, b) = (ms as int, sample_rate as int);
        assert(a * b <= 0xffff_ffff_ffff_ffffint * 0xffff_ffffint) by (nonlinear_arith)
            requires
                0 <= a <= 0xffff_ffff_ffff_ffffint,
                0 <= b <= 0xffff_ffffint;
    }
    ((ms as u128 * sample_rate as u128) / 1_000) as u64
}

/// Milliseconds spanned by `samples`, rounded down.
pub fn samples_to_ms(samples: u64, sample_rate: u32) -> (r: u64)
    requires
        sample_rate > 0,
    ensures
        r == sample_ms(samples, sample_rate),
{
    ((samples as u128 * 1_000) / sample_rate as u128) as u64
}

/// Encoder frame containing `ms`.
pub fn ms_to_encoder_frame_floor(ms: u64) -> (r: usize)
    ensures
        r == frame_floor(ms),
{
    (ms_to_sample_index(ms, SAMPLE_RATE) as usize) / SAMPLES_PER_ENCODER_FRAME
}

pub fn ms_to_encoder_frame(ms: u64) -> (r: usize)
    ensures
        r == frame_floor(ms),
{
    ms_to_encoder_frame_floor(ms)
}

/// Whole encoder frames within a duration.
pub fn duration_ms_to_encoder_frames_floor(ms: u64) -> (r: usize)
    ensures
        r == frame_floor(ms),
{
    ms_to_encoder_frame_floor(ms)
}

/// Start of an encoder frame in milliseconds, saturating.
pub fn encoder_frame_to_ms(frame: usize) -> (r: u64)
    ensures
        r == frame_ms(frame),
{
    match (frame as u64).checked_mul(MS_PER_ENCODER_FRAME) {
        Some(v) => v,
        None => u64::MAX,
    }
}

/// `ms` falls exactly on an encoder-frame boundary.
pub fn is_encoder_frame_aligned_ms(ms: u64) -> (r: bool)
    ensures
        r == (ms == frame_ms(frame_floor(ms))),
{
    ms == encoder_frame_to_ms(ms_to_encoder_frame_floor(ms))
}

/// The longest audio span the model takes at once.
pub fn max_model_window_ms() -> (r: u64)
    ensures
        r == 15_000,
{
    samples_to_ms(MAX_MODEL_SAMPLES as u64, SAMPLE_RATE)
}

/// `target_ms` rounded down to an encoder-frame boundary.
pub fn aligned_streaming_target_ms(target_ms: u64) -> (r: u64)
    ensures
        r == frame_ms(frame_floor(target_ms)),
{
    encoder_frame_to_ms(ms_to_encoder_frame_floor(target_ms))
}

/// Encoder frames needed for `samples`, rounded up.
pub fn calculate_encoder_frames(samples: usize) -> (r: usize)
    ensures
        r == (samples as int + 1_279) / 1_280,
{
    samples / SAMPLES_PER_ENCODER_FRAME + if samples % SAMPLES_PER_ENCODER_FRAME == 0 { 0 } else { 1 }
}

/// Samples of one offline long-form chunk: the model window without the
/// mel context and hop, rounded down to whole encoder frames.
pub fn offline_chunk_samples() -> (r: usize)
    ensures
        r == 238_080,
{
    ((MAX_MODEL_SAMPLES - MEL_CONTEXT_SAMPLES - MEL_HOP_SAMPLES) / SAMPLES_PER_ENCODER_FRAME) * SAMPLES_PER_ENCODER_FRAME
}

/// Samples between the starts of consecutive offline chunks.
pub fn offline_chunk_stride_samples() -> (r: usize)
    ensures
        r == 206_080,
{
    offline_chunk_samples().saturating_sub(OFFLINE_OVERLAP_SAMPLES)
}

/// Encoder frames shared by consecutive offline chunks.
pub fn offline_overlap_frames() -> (r: usize)
    ensures
        r == 25,
{
    OFFLINE_OVERLAP_SAMPLES / SAMPLES_PER_ENCODER_FRAME
}

// ------------------------------------------------------------ stepping

pub open spec fn min_u64(a: u64, b: u64) -> u64 {
    if a <= b { a } else { b }
}

pub open spec fn max_u64(a: u64, b: u64) -> u64 {
    if a >= b { a } else { b }
}

pub open spec fn min_usize(a: usize, b: usize) -> usize {
    if a <= b { a } else { b }
}

pub open spec fn max_usize(a: usize, b: usize) -> usize {
    if a >= b { a } else { b }
}

impl CoreMlStreamingConfig {
    /// The configuration with its step clamped to between 1 ms and the model window.
    pub fn normalized(&self) -> (r: Self)
        ensures
            r.step_ms == min_u64(max_u64(self.step_ms, 1), 15_000),
            r.overlap_ms == self.overlap_ms,
            r.stability_lag_ms == self.stability_lag_ms,
            r.checkpoint_interval_ms == self.checkpoint_interval_ms,
    {
        let window = max_model_window_ms();
        let step = if self.step_ms < 1 { 1 } else { self.step_ms };
        CoreMlStreamingConfig {
            step_ms: if step > window { window } else { step },
            overlap_ms: self.overlap_ms,
            stability_lag_ms: self.stability_lag_ms,
            checkpoint_interval_ms: self.checkpoint_interval_ms,
        }
    }
}

/// The decoding step: the configured step clamped to the model window and,
/// when checkpoints are on, to the checkpoint interval; at least 1 ms.
pub open spec fn step_ms_of(c: CoreMlStreamingConfig) -> u64 {
    let s = min_u64(max_u64(c.step_ms, 1), 15_000);
    let s2 = if c.checkpoint_interval_ms > 0 { min_u64(s, c.checkpoint_interval_ms) } else { s };
    max_u64(s2, 1)
}

pub fn effective_step_ms(config: &CoreMlStreamingConfig) -> (r: u64)
    ensures
        r == step_ms_of(*config),
{
    let window = max_model_window_ms();
    let mut step_ms = if config.step_ms < 1 { 1 } else { config.step_ms };
    if step_ms > window {
        step_ms = window;
    }
    if config.checkpoint_interval_ms > 0 && config.checkpoint_interval_ms < step_ms {
        step_ms = config.checkpoint_interval_ms;
    }
    if step_ms < 1 { 1 } else { step_ms }
}

/// Frames one progressive decode advances: the decoding step in whole
/// encoder frames, at least one.
pub open spec fn step_frames(c: CoreMlStreamingConfig) -> int {
    if frame_floor(step_ms_of(c)) >= 1 { frame_floor(step_ms_of(c)) as int } else { 1 }
}

/// Encoder frames between checkpoints, at least one.
pub open spec fn checkpoint_frames(c: CoreMlStreamingConfig) -> int {
    if frame_floor(c.checkpoint_interval_ms) >= 1 { frame_floor(c.checkpoint_interval_ms) as int } else { 1 }
}

/// The first checkpoint frame after `frame`: the next multiple of the
/// checkpoint spacing.
pub open spec fn next_checkpoint_frame(frame: int, c: CoreMlStreamingConfig) -> int {
    (frame / checkpoint_frames(c) + 1) * checkpoint_frames(c)
}

pub open spec fn min_int(a: int, b: int) -> int {
    if a <= b { a } else { b }
}

/// Where the next decode ends: at the earliest of one step past the decoded
/// frame, the target's frame and, when checkpoints are on, the next
/// checkpoint frame; unchanged when the target's frame is not ahead.
pub open spec fn next_decode_end(decoded_until_ms: u64, target_ms: u64, c: CoreMlStreamingConfig) -> u64 {
    let d = frame_floor(decoded_until_ms) as int;
    let t = frame_floor(target_ms) as int;
    if t <= d {
        decoded_until_ms
    } else {
        let limit = if c.checkpoint_interval_ms > 0 { min_int(t, next_checkpoint_frame(d, c)) } else { t };
        frame_ms(min_int(d + step_frames(c), limit) as usize)
    }
}

proof fn lemma_next_checkpoint_after(frame: int, c: CoreMlStreamingConfig)
    requires
        frame >= 0,
    ensures
        next_checkpoint_frame(frame, c) > frame,
{
    let cf = checkpoint_frames(c);
    assert(next_checkpoint_frame(frame, c) > frame) by (nonlinear_arith)
        requires
            cf >= 1,
            frame >= 0,
            next_checkpoint_frame(frame, c) == (frame / cf + 1) * cf,
    {
        assert(frame == (frame / cf) * cf + frame % cf);
        assert(frame % cf < cf);
    }
}

proof fn lemma_frame_floor_bound(ms: u64)
    ensures
        frame_floor(ms) < usize::MAX,
{
    let x = sample_index(ms, SAMPLE_RATE) as usize;
    assert(x / 1280 <= x);
}

pub fn next_decode_end_for(decoded_until_ms: u64, target_ms: u64, config: &CoreMlStreamingConfig) -> (r: u64)
    ensures
        r == next_decode_end(decoded_until_ms, target_ms, *config),
{
    let decoded_frame = ms_to_encoder_frame_floor(decoded_until_ms);
    let target_frame = ms_to_encoder_frame_floor(target_ms);
    if target_frame <= decoded_frame {
        return decoded_until_ms;
    }
    proof {
        lemma_frame_floor_bound(decoded_until_ms);
    }
    let mut step = duration_ms_to_encoder_frames_floor(effective_step_ms(config));
    if step < 1 {
        step = 1;
    }
    let stepped = decoded_frame.saturating_add(step);
    let mut next_frame = if stepped < target_frame { stepped } else { target_frame };
    if config.checkpoint_interval_ms > 0 {
        let mut spacing = duration_ms_to_encoder_frames_floor(config.checkpoint_interval_ms);
        if spacing < 1 {
            spacing = 1;
        }
        let next_checkpoint = match ((decoded_frame / spacing) + 1).checked_mul(spacing) {
            Some(v) => v,
            None => usize::MAX,
        };
        proof {
            lemma_next_checkpoint_after(decoded_frame as int, *config);
        }
        if next_checkpoint < next_frame {
            next_frame = next_checkpoint;
        }
        if next_frame < decoded_frame + 1 {
            next_frame = decoded_frame + 1;
        }
    }
    encoder_frame_to_ms(next_frame)
}

/// A checkpoint is due once at least one interval of whole encoder frames
/// has passed; never when checkpoints are off.
pub open spec fn interval_elapsed(last_checkpoint_frame: usize, current_frame: usize, interval_ms: u64) -> bool {
    interval_ms != 0 && (if current_frame >= last_checkpoint_frame { current_frame - last_checkpoint_frame } else { 0int })
        >= max_usize(frame_floor(interval_ms), 1)
}

pub fn checkpoint_interval_elapsed(last_checkpoint_frame: usize, current_frame: usize, interval_ms: u64) -> (r: bool)
    ensures
        r == interval_elapsed(last_checkpoint_frame, current_frame, interval_ms),
{
    if interval_ms == 0 {
        return false;
    }
    let mut interval_frames = duration_ms_to_encoder_frames_floor(interval_ms);
    if interval_frames < 1 {
        interval_frames = 1;
    }
    current_frame.saturating_sub(last_checkpoint_frame) >= interval_frames
}

// ------------------------------------------------------- reconciliation

/// `char::is_ascii_punctuation`.
pub open spec fn is_ascii_punct(c: char) -> bool {
    ('!' <= c && c <= '/') || (':' <= c && c <= '@') || ('[' <= c && c <= '`') || ('{' <= c && c <= '~')
}

pub open spec fn ascii_punct_pred() -> spec_fn(char) -> bool {
    |c: char| is_ascii_punct(c)
}

/// A word's comparison form: trimmed of whitespace, then of ASCII
/// punctuation at both ends, in ASCII lowercase.
pub open spec fn normalized_word(text: Seq<char>) -> Seq<char> {
    ascii_lower(trim_end_by(trim_start_by(trim_ws(text), ascii_punct_pred()), ascii_punct_pred()))
}

pub open spec fn nearly_equal(a: u64, b: u64, tolerance_ms: u64) -> bool {
    (if a >= b { a - b } else { b - a }) <= tolerance_ms
}

/// The same word at nearly the same time (within 250 ms at both ends).
pub open spec fn same_word(a: WordTiming, b: WordTiming) -> bool {
    &&& normalized_word(a.text@) == normalized_word(b.text@)
    &&& nearly_equal(a.start_ms, b.start_ms, 250)
    &&& nearly_equal(a.end_ms, b.end_ms, 250)
}

/// The word repeats one of the last twelve committed words.
pub open spec fn repeats_tail(w: WordTiming, committed: Seq<WordTiming>) -> bool {
    exists|k: int| committed.len() - 12 <= k < committed.len() && 0 <= k && same_word(#[trigger] committed[k], w)
}

/// Committed and hypothesis words after reading `decoded` in order: words
/// ending at or before the committed boundary and repeats of the committed
/// tail are dropped; words ending by the cutoff are committed, later ones are
/// hypothesis.
pub open spec fn reconcile_state(committed: Seq<WordTiming>, until_ms: u64, decoded: Seq<WordTiming>, cutoff_ms: int) -> (Seq<WordTiming>, Seq<WordTiming>)
    decreases decoded.len(),
{
    if decoded.len() == 0 {
        (committed, Seq::empty())
    } else {
        let st = reconcile_state(committed, until_ms, decoded.drop_last(), cutoff_ms);
        let w = decoded.last();
        if w.end_ms <= until_ms || repeats_tail(w, st.0) {
            st
        } else if w.end_ms <= cutoff_ms {
            (st.0.push(w), st.1)
        } else {
            (st.0, st.1.push(w))
        }
    }
}

/// Committed words, the current hypothesis, and the committed boundary.
pub struct ReconciledWords {
    pub committed: Vec<WordTiming>,
    pub hypothesis: Vec<WordTiming>,
    pub committed_until_ms: u64,
}

pub(crate) fn copy_word(w: &WordTiming) -> (r: WordTiming)
    ensures
        r == *w,
{
    WordTiming { start_ms: w.start_ms, end_ms: w.end_ms, text: w.text.clone() }
}

pub fn normalize_word(text: &str) -> (r: Vec<char>)
    ensures
        r@ == normalized_word(text@),
{
    let t = trim_ws_chars(chars_of(text).as_slice());
    let mut i: usize = 0;
    assert(t@.skip(0) =~= t@);
    while i < t.len() && is_ascii_punct_char(t[i])
        invariant
            i <= t.len(),
            trim_start_by(t@, ascii_punct_pred()) == trim_start_by(t@.skip(i as int), ascii_punct_pred()),
        decreases t.len() - i,
    {
        assert(t@.skip(i as int).drop_first() =~= t@.skip(i + 1));
        i = i + 1;
    }
    let mut j: usize = t.len();
    assert(t@.skip(i as int) =~= t@.subrange(i as int, j as int));
    while j > i && is_ascii_punct_char(t[j - 1])
        invariant
            i <= j <= t.len(),
            trim_end_by(t@.skip(i as int), ascii_punct_pred()) == trim_end_by(t@.subrange(i as int, j as int), ascii_punct_pred()),
        decreases j - i,
    {
        assert(t@.subrange(i as int, j as int).drop_last() =~= t@.subrange(i as int, j - 1));
        j = j - 1;
    }
    let kept = crate::text::copy_range(t.as_slice(), i, j);
    ascii_lower_chars(kept.as_slice())
}

pub fn is_ascii_punct_char(c: char) -> (r: bool)
    ensures
        r == is_ascii_punct(c),
{
    ('!' <= c && c <= '/') || (':' <= c && c <= '@') || ('[' <= c && c <= '`') || ('{' <= c && c <= '~')
}

pub fn timestamps_nearly_equal(a: u64, b: u64, tolerance_ms: u64) -> (r: bool)
    ensures
        r == nearly_equal(a, b, tolerance_ms),
{
    (if a >= b { a - b } else { b - a }) <= tolerance_ms
}

fn chars_eq(a: &Vec<char>, b: &Vec<char>) -> (r: bool)
    ensures
        r == (a@ == b@),
{
    if a.len() != b.len() {
        return false;
    }
    let mut i: usize = 0;
    while i < a.len()
        invariant
            a@.len() == b@.len(),
            i <= a.len(),
            forall|k: int| 0 <= k < i ==> a@[k] == b@[k],
        decreases a.len() - i,
    {
        if a[i] != b[i] {
            return false;
        }
        i = i + 1;
    }
    assert(a@ =~= b@);
    true
}

pub fn duplicate_words(a: &WordTiming, b: &WordTiming) -> (r: bool)
    ensures
        r == same_word(*a, *b),
{
    chars_eq(&normalize_word(a.text.as_str()), &normalize_word(b.text.as_str()))
        && timestamps_nearly_equal(a.start_ms, b.start_ms, 250)
        && timestamps_nearly_equal(a.end_ms, b.end_ms, 250)
}

pub fn is_duplicate_of_committed_tail(word: &WordTiming, committed: &[WordTiming]) -> (r: bool)
    ensures
        r == repeats_tail(*word, committed@),
{
    let n = committed.len();
    let start = if n > 12 { n - 12 } else { 0 };
    let mut k = start;
    while k < n
        invariant
            n == committed@.len(),
            start == (if n > 12 { n - 12 } else { 0 }),
            start <= k <= n,
            forall|x: int| start <= x < k ==> !same_word(#[trigger] committed@[x], *word),
        decreases n - k,
    {
        if duplicate_words(&committed[k], word) {
            return true;
        }
        k = k + 1;
    }
    false
}

/// Appends newly decoded words: only words ending after the committed
/// boundary count, repeats of the committed tail are dropped, words ending
/// by `decode_end_ms - stability_lag_ms` are committed and the rest form the
/// new hypothesis. Committed words are never removed.
pub fn reconcile_streaming_words(
    committed: &[WordTiming],
    committed_until_ms: u64,
    decoded_words: Vec<WordTiming>,
    decode_end_ms: u64,
    stability_lag_ms: u64,
) -> (r: ReconciledWords)
    ensures
        ({
            let cutoff = if decode_end_ms >= stability_lag_ms { decode_end_ms - stability_lag_ms } else { 0int };
            let st = reconcile_state(committed@, committed_until_ms, decoded_words@, cutoff);
            &&& r.committed@ == st.0
            &&& r.hypothesis@ == st.1
            &&& r.committed_until_ms == (if st.0.len() > 0 { max_u64(st.0.last().end_ms, committed_until_ms) } else { committed_until_ms })
        }),
        r.committed@.take(committed@.len() as int) == committed@,
{
    let cutoff_ms = decode_end_ms.saturating_sub(stability_lag_ms);
    let ghost cutoff = cutoff_ms as int;
    let mut next_committed: Vec<WordTiming> = Vec::new();
    let mut i: usize = 0;
    while i < committed.len()
        invariant
            i <= committed@.len(),
            next_committed@ == committed@.take(i as int),
        decreases committed.len() - i,
    {
        next_committed.push(copy_word(&committed[i]));
        i = i + 1;
        assert(next_committed@ =~= committed@.take(i as int));
    }
    assert(committed@.take(committed@.len() as int) =~= committed@);
    let mut hypothesis: Vec<WordTiming> = Vec::new();
    let mut i: usize = 0;
    while i < decoded_words.len()
        invariant
            i <= decoded_words@.len(),
            cutoff == cutoff_ms as int,
            reconcile_state(committed@, committed_until_ms, decoded_words@.take(i as int), cutoff) == (next_committed@, hypothesis@),
            next_committed@.take(committed@.len() as int) == committed@,
            next_committed@.len() >= committed@.len(),
        decreases decoded_words.len() - i,
    {
        let w = copy_word(&decoded_words[i]);
        proof {
            assert(decoded_words@.take(i + 1).drop_last() =~= decoded_words@.take(i as int));
            assert(decoded_words@.take(i + 1).last() == decoded_words@[i as int]);
        }
        if w.end_ms > committed_until_ms && !is_duplicate_of_committed_tail(&w, next_committed.as_slice()) {
            if w.end_ms <= cutoff_ms {
                let ghost before = next_committed@;
                next_committed.push(w);
                assert(next_committed@.take(committed@.len() as int) =~= before.take(committed@.len() as int));
            } else {
                hypothesis.push(w);
            }
        }
        i = i + 1;
    }
    assert(decoded_words@.take(decoded_words@.len() as int) =~= decoded_words@);
    let n = next_committed.len();
    let until = if n > 0 && next_committed[n - 1].end_ms > committed_until_ms {
        next_committed[n - 1].end_ms
    } else {
        committed_until_ms
    };
    ReconciledWords { committed: next_committed, hypothesis, committed_until_ms: until }
}

proof fn lemma_frame_round_trip(k: usize)
    requires
        k as int * 1280 <= usize::MAX,
    ensures
        frame_ms(k) == k * 80,
        frame_floor(frame_ms(k)) == k,
{
    assert(k as int * 80 <= u64::MAX) by (nonlinear_arith)
        requires
            k as int * 1280 <= usize::MAX,
            usize::MAX <= u64::MAX;
    let ms = (k as int * 80) as u64;
    assert(ms as int * 16_000 / 1_000 == k as int * 1280) by (nonlinear_arith)
        requires
            ms as int == k as int * 80;
    assert(sample_index(ms, SAMPLE_RATE) as int == k as int * 1280);
    assert((k as int * 1280) / 1280 == k) by (nonlinear_arith);
}

proof fn lemma_frame_floor_range(ms: u64)
    ensures
        frame_floor(ms) as int * 1280 <= usize::MAX,
{
    let x = sample_index(ms, SAMPLE_RATE) as usize;
    assert((x as int / 1280) * 1280 <= x) by (nonlinear_arith);
}

/// Every progressive decode ends on an encoder-frame boundary, at least one
/// frame past what is decoded and no later than the target's frame.
pub proof fn law_decode_end_is_frame_aligned(decoded_until_ms: u64, target_ms: u64, c: CoreMlStreamingConfig)
    requires
        frame_floor(decoded_until_ms) < frame_floor(target_ms),
    ensures
        next_decode_end(decoded_until_ms, target_ms, c) == frame_ms(frame_floor(next_decode_end(decoded_until_ms, target_ms, c))),
        frame_floor(decoded_until_ms) < frame_floor(next_decode_end(decoded_until_ms, target_ms, c)) <= frame_floor(target_ms),
{
    let d = frame_floor(decoded_until_ms);
    let t = frame_floor(target_ms);
    lemma_next_checkpoint_after(d as int, c);
    let limit = if c.checkpoint_interval_ms > 0 { min_int(t as int, next_checkpoint_frame(d as int, c)) } else { t as int };
    let next2 = min_int(d + step_frames(c), limit) as usize;
    assert(d < next2 <= t);
    lemma_frame_floor_range(target_ms);
    assert(next2 as int * 1280 <= usize::MAX) by (nonlinear_arith)
        requires
            next2 <= t,
            t as int * 1280 <= usize::MAX;
    lemma_frame_round_trip(next2);
    assert(next_decode_end(decoded_until_ms, target_ms, c) == frame_ms(next2));
}

proof fn lemma_reconcile_sorts_words(committed: Seq<WordTiming>, until_ms: u64, decoded: Seq<WordTiming>, cutoff_ms: int)
    ensures
        reconcile_state(committed, until_ms, decoded, cutoff_ms).0.len() >= committed.len(),
        reconcile_state(committed, until_ms, decoded, cutoff_ms).0.take(committed.len() as int) == committed,
        forall|k: int| committed.len() <= k < reconcile_state(committed, until_ms, decoded, cutoff_ms).0.len() ==> {
            &&& until_ms < (#[trigger] reconcile_state(committed, until_ms, decoded, cutoff_ms).0[k]).end_ms <= cutoff_ms
            &&& decoded.contains(reconcile_state(committed, until_ms, decoded, cutoff_ms).0[k])
        },
        forall|k: int| 0 <= k < reconcile_state(committed, until_ms, decoded, cutoff_ms).1.len() ==> {
            &&& (#[trigger] reconcile_state(committed, until_ms, decoded, cutoff_ms).1[k]).end_ms > cutoff_ms
            &&& reconcile_state(committed, until_ms, decoded, cutoff_ms).1[k].end_ms > until_ms
            &&& decoded.contains(reconcile_state(committed, until_ms, decoded, cutoff_ms).1[k])
        },
        forall|i: int| 0 <= i < decoded.len() && (#[trigger] decoded[i]).end_ms > cutoff_ms && decoded[i].end_ms > until_ms
            && (forall|k: int| 0 <= k < reconcile_state(committed, until_ms, decoded, cutoff_ms).0.len()
                ==> !same_word(#[trigger] reconcile_state(committed, until_ms, decoded, cutoff_ms).0[k], decoded[i]))
            ==> reconcile_state(committed, until_ms, decoded, cutoff_ms).1.contains(decoded[i]),
    decreases decoded.len(),
{
    if decoded.len() == 0 {
        assert(committed.take(committed.len() as int) =~= committed);
    } else {
        let d = decoded.drop_last();
        let w = decoded.last();
        lemma_reconcile_sorts_words(committed, until_ms, d, cutoff_ms);
        let prev = reconcile_state(committed, until_ms, d, cutoff_ms);
        let st = reconcile_state(committed, until_ms, decoded, cutoff_ms);
        assert forall|x: WordTiming| d.contains(x) implies decoded.contains(x) by {
            let j = choose|j: int| 0 <= j < d.len() && d[j] == x;
            assert(decoded[j] == x);
        }
        assert(decoded[decoded.len() - 1] == w);
        assert(decoded.contains(w));
        if w.end_ms <= until_ms || repeats_tail(w, prev.0) {
            assert(st == prev);
            assert forall|i: int| 0 <= i < decoded.len() && (#[trigger] decoded[i]).end_ms > cutoff_ms && decoded[i].end_ms > until_ms
                && (forall|k: int| 0 <= k < st.0.len() ==> !same_word(#[trigger] st.0[k], decoded[i]))
                implies st.1.contains(decoded[i]) by {
                if i < d.len() {
                    assert(decoded[i] == d[i]);
                } else {
                    assert(decoded[i] == w);
                    if repeats_tail(w, prev.0) {
                        let k = choose|k: int| prev.0.len() - 12 <= k < prev.0.len() && 0 <= k && same_word(#[trigger] prev.0[k], w);
                        assert(!same_word(st.0[k], decoded[i]));
                    }
                }
            }
        } else if w.end_ms <= cutoff_ms {
            assert(st.0 == prev.0.push(w) && st.1 == prev.1);
            assert(st.0.take(committed.len() as int) =~= prev.0.take(committed.len() as int));
            assert forall|k: int| committed.len() <= k < st.0.len() implies {
                &&& until_ms < (#[trigger] st.0[k]).end_ms <= cutoff_ms
                &&& decoded.contains(st.0[k])
            } by {
                if k < prev.0.len() {
                    assert(st.0[k] == prev.0[k]);
                }
            }
            assert forall|i: int| 0 <= i < decoded.len() && (#[trigger] decoded[i]).end_ms > cutoff_ms && decoded[i].end_ms > until_ms
                && (forall|k: int| 0 <= k < st.0.len() ==> !same_word(#[trigger] st.0[k], decoded[i]))
                implies st.1.contains(decoded[i]) by {
                if i < d.len() {
                    assert(decoded[i] == d[i]);
                    assert forall|k: int| 0 <= k < prev.0.len() implies !same_word(#[trigger] prev.0[k], d[i]) by {
                        assert(st.0[k] == prev.0[k]);
                    }
                } else {
                    assert(decoded[i] == w);
                }
            }
        } else {
            assert(st.0 == prev.0 && st.1 == prev.1.push(w));
            assert forall|k: int| 0 <= k < st.1.len() implies {
                &&& (#[trigger] st.1[k]).end_ms > cutoff_ms
                &&& st.1[k].end_ms > until_ms
                &&& decoded.contains(st.1[k])
            } by {
                if k < prev.1.len() {
                    assert(st.1[k] == prev.1[k]);
                }
            }
            assert forall|i: int| 0 <= i < decoded.len() && (#[trigger] decoded[i]).end_ms > cutoff_ms && decoded[i].end_ms > until_ms
                && (forall|k: int| 0 <= k < st.0.len() ==> !same_word(#[trigger] st.0[k], decoded[i]))
                implies st.1.contains(decoded[i]) by {
                if i < d.len() {
                    assert(decoded[i] == d[i]);
                    let j = choose|j: int| 0 <= j < prev.1.len() && prev.1[j] == d[i];
                    assert(st.1[j] == d[i]);
                } else {
                    assert(decoded[i] == w);
                    assert(st.1[prev.1.len() as int] == w);
                }
            }
        }
    }
}

/// Reconciling commits only stable words: the committed words come back
/// unchanged at the front, every word added after them ends after the
/// committed boundary and no later than the stability cutoff
/// (`decode_end_ms - stability_lag_ms`, saturating), every hypothesis word
/// ends after both, each of them is a decoded word, and a decoded word ending
/// after both that repeats no committed word lands in the hypothesis.
pub proof fn law_only_stable_words_are_committed(
    committed: Seq<WordTiming>,
    committed_until_ms: u64,
    decoded: Seq<WordTiming>,
    decode_end_ms: u64,
    stability_lag_ms: u64,
    cutoff_ms: int,
)
    requires
        cutoff_ms == (if decode_end_ms >= stability_lag_ms { decode_end_ms - stability_lag_ms } else { 0int }),
    ensures
        reconcile_state(committed, committed_until_ms, decoded, cutoff_ms).0.take(committed.len() as int) == committed,
        forall|k: int| committed.len() <= k < reconcile_state(committed, committed_until_ms, decoded, cutoff_ms).0.len() ==> {
            &&& committed_until_ms < (#[trigger] reconcile_state(committed, committed_until_ms, decoded, cutoff_ms).0[k]).end_ms <= cutoff_ms
            &&& decoded.contains(reconcile_state(committed, committed_until_ms, decoded, cutoff_ms).0[k])
        },
        forall|k: int| 0 <= k < reconcile_state(committed, committed_until_ms, decoded, cutoff_ms).1.len() ==> {
            &&& (#[trigger] reconcile_state(committed, committed_until_ms, decoded, cutoff_ms).1[k]).end_ms > cutoff_ms
            &&& reconcile_state(committed, committed_until_ms, decoded, cutoff_ms).1[k].end_ms > committed_until_ms
            &&& decoded.contains(reconcile_state(committed, committed_until_ms, decoded, cutoff_ms).1[k])
        },
        forall|i: int| 0 <= i < decoded.len() && (#[trigger] decoded[i]).end_ms > cutoff_ms && decoded[i].end_ms > committed_until_ms
            && (forall|k: int| 0 <= k < reconcile_state(committed, committed_until_ms, decoded, cutoff_ms).0.len()
                ==> !same_word(#[trigger] reconcile_state(committed, committed_until_ms, decoded, cutoff_ms).0[k], decoded[i]))
            ==> reconcile_state(committed, committed_until_ms, decoded, cutoff_ms).1.contains(decoded[i]),
{
    lemma_reconcile_sorts_words(committed, committed_until_ms, decoded, cutoff_ms);
}

} // verus!
