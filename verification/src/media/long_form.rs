//! Long-form ONNX Parakeet transcription: overlapping 15 s windows over the
//! audio, each owning only the core of its span, so that a word in a shared
//! overlap is kept by exactly one window (split at the overlap's midpoint).
use crate::media::timed_tokens::{piece_view, TimedToken};
use crate::media::transcript::WordTiming;
use crate::text::is_blank;
use crate::text::is_blank_text;
use vstd::prelude::*;

verus! {

/// Samples in one window: 15 s at 16 kHz.
pub const PARAKEET_CHUNK_SAMPLES: usize = 240_000;

/// Samples shared by neighbouring windows: 1 s, so that boundary words survive.
pub const PARAKEET_OVERLAP_SAMPLES: usize = 16_000;

/// Samples between the starts of neighbouring windows.
pub const PARAKEET_HOP_SAMPLES: usize = 224_000;

/// Half the overlap in milliseconds: where a window's core ends inside it.
pub const HALF_OVERLAP_MS: u64 = 500;

/// The word midpoints a window keeps: from `from_ms` up to, not
/// including, `until_ms`.
#[derive(Debug, Clone, Copy, PartialEq, Eq, Structural)]
pub struct CoreSpan {
    pub from_ms: u64,
    pub until_ms: u64,
}

/// One window of the audio, in samples, with its start in milliseconds and
/// the span of word midpoints it keeps, `None` when it keeps every word.
#[derive(Debug, Clone, Copy, PartialEq, Eq, Structural)]
pub struct ChunkWindow {
    pub start: usize,
    pub end: usize,
    pub offset_ms: u64,
    pub core: Option<CoreSpan>,
}

/// The number of windows over `total` samples.
pub open spec fn window_count(total: nat) -> nat {
    if total <= PARAKEET_CHUNK_SAMPLES {
        1
    } else {
        ((total - PARAKEET_CHUNK_SAMPLES + PARAKEET_HOP_SAMPLES - 1) as nat / PARAKEET_HOP_SAMPLES as nat) + 1
    }
}

/// Window `k` over `total` samples: audio that fits one window is one
/// window keeping every word; otherwise window `k` starts `k` hops in, the
/// first core starts at zero, the last core never ends, and every other
/// core ends half an overlap before its window does.
pub open spec fn chunk_window(total: nat, k: nat) -> ChunkWindow {
    if total <= PARAKEET_CHUNK_SAMPLES {
        ChunkWindow { start: 0, end: total as usize, offset_ms: 0, core: None }
    } else {
        let start = k * PARAKEET_HOP_SAMPLES;
        let end: int = if start + PARAKEET_CHUNK_SAMPLES <= total { start + PARAKEET_CHUNK_SAMPLES } else { total as int };
        let offset_ms = start * 1000 / 16_000;
        let core_start = if k == 0 { 0 } else { offset_ms + HALF_OVERLAP_MS };
        let core_end = if end >= total { u64::MAX as int } else { end * 1000 / 16_000 - HALF_OVERLAP_MS };
        ChunkWindow {
            start: start as usize,
            end: end as usize,
            offset_ms: offset_ms as u64,
            core: Some(CoreSpan { from_ms: core_start as u64, until_ms: core_end as u64 }),
        }
    }
}

/// Audio lengths whose sample and millisecond arithmetic fits.
pub open spec fn chunkable(total: nat) -> bool {
    total + PARAKEET_CHUNK_SAMPLES <= usize::MAX && total * 1000 <= u64::MAX
}

/// The windows over `total` samples, in order.
pub fn parakeet_chunk_windows(total: usize) -> (r: Vec<ChunkWindow>)
    requires
        chunkable(total as nat),
    ensures
        r@.len() == window_count(total as nat),
        forall|k: int| 0 <= k < r@.len() ==> r@[k] == chunk_window(total as nat, k as nat),
{
    let mut out: Vec<ChunkWindow> = Vec::new();
    if total <= PARAKEET_CHUNK_SAMPLES {
        out.push(ChunkWindow { start: 0, end: total, offset_ms: 0, core: None });
        return out;
    }
    let mut start: usize = 0;
    let mut k: usize = 0;
    loop
        invariant_except_break
            total > PARAKEET_CHUNK_SAMPLES,
            chunkable(total as nat),
            start == k * PARAKEET_HOP_SAMPLES,
            start < total,
            k == 0 || (k - 1) * PARAKEET_HOP_SAMPLES + PARAKEET_CHUNK_SAMPLES < total,
            k <= window_count(total as nat) - 1,
            out@.len() == k,
            forall|j: int| 0 <= j < k ==> out@[j] == chunk_window(total as nat, j as nat),
        ensures
            out@.len() == window_count(total as nat),
            forall|j: int| 0 <= j < out@.len() ==> out@[j] == chunk_window(total as nat, j as nat),
        decreases total - start,
    {
        let end = if start + PARAKEET_CHUNK_SAMPLES <= total { start + PARAKEET_CHUNK_SAMPLES } else { total };
        let offset_ms: u64 = (start as u64) * 1000 / 16_000;
        let chunk_end_ms: u64 = (end as u64) * 1000 / 16_000;
        let is_last = end >= total;
        let core_start = if start == 0 { 0 } else { offset_ms + HALF_OVERLAP_MS };
        proof {
            assert(start == 0 <==> k == 0) by (nonlinear_arith)
                requires start == k * PARAKEET_HOP_SAMPLES;
            if !is_last {
                assert(end == start + PARAKEET_CHUNK_SAMPLES);
                assert(chunk_end_ms >= HALF_OVERLAP_MS);
            }
        }
        let core_end = if is_last { u64::MAX } else { chunk_end_ms - HALF_OVERLAP_MS };
        out.push(ChunkWindow { start, end, offset_ms, core: Some(CoreSpan { from_ms: core_start, until_ms: core_end }) });
        proof {
            assert(out@[k as int] == chunk_window(total as nat, k as nat));
        }
        if is_last {
            proof {
                lemma_last_window(total as nat, k as nat);
            }
            break;
        }
        proof {
            lemma_window_continues(total as nat, k as nat);
        }
        start = start + PARAKEET_HOP_SAMPLES;
        k = k + 1;
        proof {
            assert(start == k * PARAKEET_HOP_SAMPLES) by (nonlinear_arith)
                requires start == (k - 1) * PARAKEET_HOP_SAMPLES + PARAKEET_HOP_SAMPLES;
        }
    }
    out
}

/// The window whose span reaches the end of the audio is the last one.
proof fn lemma_last_window(total: nat, k: nat)
    requires
        total > PARAKEET_CHUNK_SAMPLES,
        k * PARAKEET_HOP_SAMPLES < total,
        k * PARAKEET_HOP_SAMPLES + PARAKEET_CHUNK_SAMPLES >= total,
        k == 0 || (k - 1) * PARAKEET_HOP_SAMPLES + PARAKEET_CHUNK_SAMPLES < total,
    ensures
        k + 1 == window_count(total),
{
    let h = PARAKEET_HOP_SAMPLES as int;
    let c = PARAKEET_CHUNK_SAMPLES as int;
    let n = (total - c + h - 1) as int;
    assert(n / h == k) by (nonlinear_arith)
        requires
            n == total - c + h - 1,
            k * h < total,
            k * h + c >= total,
            k == 0 || (k - 1) * h + c < total,
            h == 224_000,
            c == 240_000,
            total > c;
}

/// A window that does not reach the end of the audio is followed by another.
proof fn lemma_window_continues(total: nat, k: nat)
    requires
        total > PARAKEET_CHUNK_SAMPLES,
        k * PARAKEET_HOP_SAMPLES + PARAKEET_CHUNK_SAMPLES < total,
    ensures
        (k + 1) * PARAKEET_HOP_SAMPLES < total,
        k + 1 <= window_count(total) - 1,
{
    let h = PARAKEET_HOP_SAMPLES as int;
    let c = PARAKEET_CHUNK_SAMPLES as int;
    let n = (total - c + h - 1) as int;
    assert((k + 1) * h < total && k + 1 <= n / h) by (nonlinear_arith)
        requires
            n == total - c + h - 1,
            k * h + c < total,
            h == 224_000,
            c == 240_000;
}

/// Whether a window's core holds a midpoint; a window without a core holds
/// every midpoint.
pub open spec fn core_holds(window: ChunkWindow, m: u64) -> bool {
    match window.core {
        None => true,
        Some(span) => span.from_ms <= m && m < span.until_ms,
    }
}

/// A window that is not the last ends a full window after it starts.
proof fn lemma_not_last(total: nat, k: nat)
    requires
        total > PARAKEET_CHUNK_SAMPLES,
    ensures
        k + 1 < window_count(total) <==> k * PARAKEET_HOP_SAMPLES + PARAKEET_CHUNK_SAMPLES < total,
{
    let h = PARAKEET_HOP_SAMPLES as int;
    let c = PARAKEET_CHUNK_SAMPLES as int;
    let n = (total - c + h - 1) as int;
    assert(k < n / h <==> k * h + c < total) by (nonlinear_arith)
        requires
            n == total - c + h - 1,
            h == 224_000,
            c == 240_000,
            total > c;
}

/// The core of window `k` of long audio: from 500 ms into the window (from
/// zero for the first) to 500 ms before its end (never ending for the last).
proof fn lemma_core_span(total: nat, k: nat)
    requires
        chunkable(total),
        total > PARAKEET_CHUNK_SAMPLES,
        k < window_count(total),
    ensures
        chunk_window(total, k).core matches Some(span) && span.from_ms == (if k == 0 { 0 } else { k * 14_000 + 500 })
            && span.until_ms == (if k + 1 < window_count(total) { k * 14_000 + 14_500 } else { u64::MAX as nat }),
{
    lemma_not_last(total, k);
    let h = PARAKEET_HOP_SAMPLES as int;
    let c = PARAKEET_CHUNK_SAMPLES as int;
    let n = (total - c + h - 1) as int;
    let start = k * h;
    assert(start < total && start * 1000 / 16_000 == k * 14_000 && (start + c) * 1000 / 16_000 == k * 14_000 + 15_000)
        by (nonlinear_arith)
        requires
            start == k * h,
            k <= n / h,
            n == total - c + h - 1,
            h == 224_000,
            c == 240_000,
            total > c;
    assert(k * 14_000 + 14_500 <= total * 1000 / 16_000 + 14_500) by (nonlinear_arith)
        requires
            start == k * h,
            start < total,
            h == 224_000;
}

/// Each word midpoint short of `u64::MAX` is held by the core of exactly
/// one window, so a word in the overlap of two windows is kept once.
pub proof fn law_each_midpoint_has_one_window(total: nat, m: u64)
    requires
        chunkable(total),
        m < u64::MAX,
    ensures
        exists|k: nat| k < window_count(total) && #[trigger] core_holds(chunk_window(total, k), m),
        forall|j: nat, k: nat|
            j < window_count(total) && k < window_count(total) && #[trigger] core_holds(chunk_window(total, j), m)
                && #[trigger] core_holds(chunk_window(total, k), m) ==> j == k,
{
    if total <= PARAKEET_CHUNK_SAMPLES {
        assert(core_holds(chunk_window(total, 0), m));
    } else {
        let count = window_count(total);
        let guess: int = if m < 500 { 0 } else { (m - 500) / 14_000 };
        let k: nat = if guess < count - 1 { guess as nat } else { (count - 1) as nat };
        lemma_core_span(total, k);
        assert(k * 14_000 + 500 <= m || k == 0) by (nonlinear_arith)
            requires
                k <= guess,
                guess == (if m < 500 { 0 } else { (m - 500) / 14_000 }),
                k >= 0;
        assert(k + 1 < count ==> m < k * 14_000 + 14_500) by (nonlinear_arith)
            requires
                k + 1 < count ==> k == guess,
                guess == (if m < 500 { 0 } else { (m - 500) / 14_000 });
        assert(core_holds(chunk_window(total, k), m));
        assert forall|a: nat, b: nat|
            a < count && b < count && #[trigger] core_holds(chunk_window(total, a), m)
                && #[trigger] core_holds(chunk_window(total, b), m) implies a == b by {
            lemma_core_span(total, a);
            lemma_core_span(total, b);
            if a < b {
                assert(a * 14_000 + 14_500 <= b * 14_000 + 500) by (nonlinear_arith)
                    requires
                        a < b;
            } else if b < a {
                assert(b * 14_000 + 14_500 <= a * 14_000 + 500) by (nonlinear_arith)
                    requires
                        b < a;
            }
        }
    }
}

/// A word's midpoint in milliseconds.
pub open spec fn midpoint(w: WordTiming) -> u64 {
    ((w.start_ms + w.end_ms) / 2) as u64
}

/// Whether a window keeps a word: every word, or one whose midpoint lies in
/// its core.
pub open spec fn keeps(window: ChunkWindow, w: WordTiming) -> bool {
    match window.core {
        None => true,
        Some(span) => span.from_ms <= midpoint(w) && midpoint(w) < span.until_ms,
    }
}

/// The words of one window that its core keeps, in order.
pub open spec fn kept_words(window: ChunkWindow, words: Seq<WordTiming>) -> Seq<WordTiming> {
    words.filter(|w: WordTiming| keeps(window, w))
}

pub fn keep_core_words(window: &ChunkWindow, words: &[WordTiming]) -> (r: Vec<WordTiming>)
    requires
        forall|i: int| 0 <= i < words@.len() ==> (#[trigger] words@[i]).start_ms + words@[i].end_ms <= u64::MAX,
    ensures
        r@ == kept_words(*window, words@),
{
    let mut out: Vec<WordTiming> = Vec::new();
    let mut i: usize = 0;
    while i < words.len()
        invariant
            i <= words.len(),
            out@ == kept_words(*window, words@.take(i as int)),
            forall|j: int| 0 <= j < words@.len() ==> (#[trigger] words@[j]).start_ms + words@[j].end_ms <= u64::MAX,
        decreases words.len() - i,
    {
        let w = &words[i];
        let mid = (w.start_ms + w.end_ms) / 2;
        let keep = match window.core {
            None => true,
            Some(span) => span.from_ms <= mid && mid < span.until_ms,
        };
        proof {
            assert(words@.take(i + 1).drop_last() =~= words@.take(i as int));
            assert(words@.take(i + 1).last() == *w);
            reveal(Seq::filter);
        }
        if keep {
            out.push(WordTiming { start_ms: w.start_ms, end_ms: w.end_ms, text: w.text.clone() });
        }
        i = i + 1;
    }
    proof {
        assert(words@.take(i as int) =~= words@);
    }
    out
}

/// A word piece's span in milliseconds: 80 ms per encoder frame, after the
/// window's start.
pub open spec fn piece_word(offset_ms: u64, p: (Seq<char>, usize, usize)) -> (u64, u64, Seq<char>) {
    ((offset_ms + p.1 * 80) as u64, (offset_ms + p.2 * 80) as u64, p.0)
}

pub open spec fn word_view(w: WordTiming) -> (u64, u64, Seq<char>) {
    (w.start_ms, w.end_ms, w.text@)
}

/// The word timings of one window's words: blank words dropped, frame
/// spans turned into milliseconds after the window's start.
pub open spec fn chunk_timings(offset_ms: u64, pieces: Seq<(Seq<char>, usize, usize)>) -> Seq<(u64, u64, Seq<char>)> {
    pieces.filter(|p: (Seq<char>, usize, usize)| !is_blank_text(p.0)).map_values(|p: (Seq<char>, usize, usize)| piece_word(offset_ms, p))
}

pub fn chunk_word_timings(words: &[TimedToken], offset_ms: u64) -> (r: Vec<WordTiming>)
    requires
        forall|i: int| 0 <= i < words@.len() ==> offset_ms + (#[trigger] words@[i]).end_frame * 80 <= u64::MAX
            && offset_ms + words@[i].start_frame * 80 <= u64::MAX,
    ensures
        r@.map_values(|w: WordTiming| word_view(w)) == chunk_timings(offset_ms, words@.map_values(|t: TimedToken| piece_view(t))),
{
    let ghost pv = words@.map_values(|t: TimedToken| piece_view(t));
    let mut out: Vec<WordTiming> = Vec::new();
    let mut i: usize = 0;
    while i < words.len()
        invariant
            i <= words.len(),
            pv == words@.map_values(|t: TimedToken| piece_view(t)),
            forall|j: int| 0 <= j < words@.len() ==> offset_ms + (#[trigger] words@[j]).end_frame * 80 <= u64::MAX
                && offset_ms + words@[j].start_frame * 80 <= u64::MAX,
            out@.map_values(|w: WordTiming| word_view(w)) == chunk_timings(offset_ms, pv.take(i as int)),
        decreases words.len() - i,
    {
        let w = &words[i];
        proof {
            assert(pv.take(i + 1).drop_last() =~= pv.take(i as int));
            assert(pv.take(i + 1).last() == piece_view(*w));
            reveal(Seq::filter);
        }
        if !is_blank(w.text.as_str()) {
            let ghost before = out@.map_values(|x: WordTiming| word_view(x));
            let start_ms = offset_ms + (w.start_frame as u64) * 80;
            let end_ms = offset_ms + (w.end_frame as u64) * 80;
            out.push(WordTiming { start_ms, end_ms, text: w.text.clone() });
            proof {
                assert(out@.map_values(|x: WordTiming| word_view(x)) =~= before.push(piece_word(offset_ms, pv[i as int])));
            }
        }
        i = i + 1;
    }
    proof {
        assert(pv.take(i as int) =~= pv);
    }
    out
}

} // verus!
