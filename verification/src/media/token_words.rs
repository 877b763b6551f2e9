//! Sub-word tokens grouped into timed words, and the pruning of token
//! windows that fall behind the committed transcript.
use crate::media::streaming::{encoder_frame_to_ms, frame_floor, frame_ms, ms_to_encoder_frame_floor};
use crate::media::tokens::{span_frames, TokenWindow};
use crate::media::transcript::WordTiming;
use crate::text::{chars_of, is_blank_text, string_from_chars, trim_ws, trim_ws_chars};
use vstd::prelude::*;

verus! {

/// The last encoder frame whose time in milliseconds (80 ms a frame) fits
/// in 64 bits.
pub const MAX_TOKEN_FRAME: u64 = 230_584_300_921_369_395;

/// The highest frame a decoded token may end at: its time in milliseconds
/// fits in 64 bits, and two such frames add up within `usize` (merging
/// windows takes the midpoint of two of them).
pub open spec fn token_frame_limit() -> int {
    if MAX_TOKEN_FRAME <= usize::MAX / 2 { MAX_TOKEN_FRAME as int } else { (usize::MAX / 2) as int }
}

/// `token_frame_limit` as a value.
pub fn token_frame_limit_value() -> (r: usize)
    ensures
        r == token_frame_limit(),
{
    let half: usize = usize::MAX / 2;
    if MAX_TOKEN_FRAME <= half as u64 { MAX_TOKEN_FRAME as usize } else { half }
}

/// A word as plain values: start, end and text.
pub type WordView = (u64, u64, Seq<char>);

pub open spec fn word_view(w: WordTiming) -> WordView {
    (w.start_ms, w.end_ms, w.text@)
}

pub open spec fn words_view(s: Seq<WordTiming>) -> Seq<WordView> {
    s.map_values(|w: WordTiming| word_view(w))
}

/// The vocabulary as plain values.
pub open spec fn vocab_view(v: Seq<Option<String>>) -> Seq<Option<Seq<char>>> {
    v.map_values(|o: Option<String>| match o {
        Some(t) => Some(t@),
        None => None,
    })
}

// ------------------------------------------------------------- sorting

/// Inserts `x` after every window whose start is not later than its own.
pub open spec fn insert_by_start<C>(s: Seq<TokenWindow<C>>, x: TokenWindow<C>) -> Seq<TokenWindow<C>>
    decreases s.len(),
{
    if s.len() == 0 {
        seq![x]
    } else if x.timestamp < s.last().timestamp {
        insert_by_start(s.drop_last(), x).push(s.last())
    } else {
        s.push(x)
    }
}

/// Stable sort by start frame: equal starts keep their input order.
pub open spec fn sorted_by_start<C>(s: Seq<TokenWindow<C>>) -> Seq<TokenWindow<C>>
    decreases s.len(),
{
    if s.len() == 0 {
        s
    } else {
        insert_by_start(sorted_by_start(s.drop_last()), s.last())
    }
}

proof fn lemma_insert_by_start_at<C>(s: Seq<TokenWindow<C>>, x: TokenWindow<C>, j: int)
    requires
        0 <= j <= s.len(),
        forall|k: int| j <= k < s.len() ==> x.timestamp < (#[trigger] s[k]).timestamp,
        j > 0 ==> x.timestamp >= s[j - 1].timestamp,
    ensures
        insert_by_start(s, x) == s.take(j).push(x) + s.skip(j),
    decreases s.len(),
{
    if s.len() == 0 {
        assert(s.take(j).push(x) + s.skip(j) =~= seq![x]);
    } else if j == s.len() {
        assert(s.take(j).push(x) + s.skip(j) =~= s.push(x));
    } else {
        let t = s.drop_last();
        lemma_insert_by_start_at(t, x, j);
        assert(s.take(j).push(x) + s.skip(j) =~= (t.take(j).push(x) + t.skip(j)).push(s.last()));
    }
}

proof fn lemma_insert_keeps_bounds<C>(s: Seq<TokenWindow<C>>, x: TokenWindow<C>)
    requires
        forall|k: int| 0 <= k < s.len() ==> (#[trigger] s[k]).timestamp + span_frames(s[k].duration) <= token_frame_limit(),
        x.timestamp + span_frames(x.duration) <= token_frame_limit(),
    ensures
        forall|k: int| 0 <= k < insert_by_start(s, x).len() ==> (#[trigger] insert_by_start(s, x)[k]).timestamp
            + span_frames(insert_by_start(s, x)[k].duration) <= token_frame_limit(),
        insert_by_start(s, x).len() == s.len() + 1,
    decreases s.len(),
{
    if s.len() > 0 && x.timestamp < s.last().timestamp {
        lemma_insert_keeps_bounds(s.drop_last(), x);
        let r = insert_by_start(s, x);
        let t = insert_by_start(s.drop_last(), x);
        assert(r == t.push(s.last()));
        assert forall|k: int| 0 <= k < r.len() implies (#[trigger] r[k]).timestamp + span_frames(r[k].duration) <= token_frame_limit() by {
            if k < t.len() {
                assert(r[k] == t[k]);
            } else {
                assert(r[k] == s[s.len() - 1]);
            }
        }
    } else if s.len() > 0 {
        let r = insert_by_start(s, x);
        assert forall|k: int| 0 <= k < r.len() implies (#[trigger] r[k]).timestamp + span_frames(r[k].duration) <= token_frame_limit() by {
            if k < s.len() {
                assert(r[k] == s[k]);
            }
        }
    }
}

fn sort_windows_by_start<C: Copy>(windows: &[TokenWindow<C>]) -> (r: Vec<TokenWindow<C>>)
    ensures
        r@ == sorted_by_start(windows@),
{
    let mut out: Vec<TokenWindow<C>> = Vec::new();
    let mut i: usize = 0;
    while i < windows.len()
        invariant
            i <= windows.len(),
            out@ == sorted_by_start(windows@.take(i as int)),
        decreases windows.len() - i,
    {
        let x = windows[i];
        let mut j: usize = out.len();
        while j > 0 && x.timestamp < out[j - 1].timestamp
            invariant
                j <= out.len(),
                forall|k: int| j <= k < out.len() ==> x.timestamp < (#[trigger] out@[k]).timestamp,
            decreases j,
        {
            j = j - 1;
        }
        let ghost before = out@;
        proof {
            lemma_insert_by_start_at(before, x, j as int);
            assert(windows@.take(i + 1).drop_last() =~= windows@.take(i as int));
        }
        out.insert(j, x);
        assert(out@ =~= before.take(j as int).push(x) + before.skip(j as int));
        i = i + 1;
    }
    assert(windows@.take(windows.len() as int) =~= windows@);
    out
}

// ------------------------------------------------------- token classes

/// Blank, padding and other markup tokens: empty, or in angle brackets.
pub open spec fn is_special_token(t: Seq<char>) -> bool {
    t.len() == 0 || (t[0] == '<' && t.last() == '>')
}

/// A SentencePiece word start: a leading `▁` or space.
pub open spec fn is_word_boundary(t: Seq<char>) -> bool {
    t.len() > 0 && (t[0] == '\u{2581}' || t[0] == ' ')
}

/// The token without its word-start mark.
pub open spec fn strip_boundary(t: Seq<char>) -> Seq<char> {
    if is_word_boundary(t) { t.drop_first() } else { t }
}

/// Grouping state: finished words, the word being built, its start and end.
pub type WordState = (Seq<WordView>, Seq<char>, u64, u64);

pub open spec fn max_end_ms(end: u64, start: u64) -> u64 {
    if end >= start + 1 { end } else { (start + 1) as u64 }
}

/// Adds one token window to the grouping state. Unknown, missing and special
/// tokens are skipped; a word-start token (or any token after an empty word)
/// closes the word being built when it holds more than whitespace.
pub open spec fn word_step<C>(state: WordState, w: TokenWindow<C>, vocab: Seq<Option<Seq<char>>>) -> WordState {
    let (words, current, start, end) = state;
    if w.token >= vocab.len() || vocab[w.token as int] is None || is_special_token(vocab[w.token as int]->0) {
        state
    } else {
        let raw = vocab[w.token as int]->0;
        let starts_new = is_word_boundary(raw) || current.len() == 0;
        let closes = starts_new && !is_blank_text(current);
        let words1 = if closes { words.push((start, max_end_ms(end, start), trim_ws(current))) } else { words };
        let current1 = if closes { Seq::empty() } else { current };
        let start_ms = frame_ms(w.timestamp);
        let token_end = frame_ms((w.timestamp + span_frames(w.duration)) as usize);
        let end_ms = if token_end >= start_ms + 1 { token_end } else { (start_ms + 1) as u64 };
        if starts_new {
            (words1, current1 + strip_boundary(raw), start_ms, end_ms)
        } else {
            (words1, current1 + raw, start, end_ms)
        }
    }
}

pub open spec fn word_fold<C>(s: Seq<TokenWindow<C>>, vocab: Seq<Option<Seq<char>>>) -> WordState
    decreases s.len(),
{
    if s.len() == 0 {
        (Seq::empty(), Seq::empty(), 0, 0)
    } else {
        word_step(word_fold(s.drop_last(), vocab), s.last(), vocab)
    }
}

/// Words of the windows, sorted by start frame, read through `vocab`.
pub open spec fn token_words<C>(windows: Seq<TokenWindow<C>>, vocab: Seq<Option<Seq<char>>>) -> Seq<WordView> {
    let (words, current, start, end) = word_fold(sorted_by_start(windows), vocab);
    if is_blank_text(current) { words } else { words.push((start, max_end_ms(end, start), trim_ws(current))) }
}

fn chars_blank(cs: &Vec<char>) -> (r: bool)
    ensures
        r == is_blank_text(cs@),
{
    let t = trim_ws_chars(cs.as_slice());
    proof {
        crate::text::lemma_blank_iff_trim_empty(cs@);
    }
    t.len() == 0
}

fn append_chars(out: &mut Vec<char>, cs: &Vec<char>, from: usize)
    requires
        from <= cs.len(),
    ensures
        final(out)@ == old(out)@ + cs@.skip(from as int),
{
    let ghost start = out@;
    let mut i: usize = from;
    while i < cs.len()
        invariant
            from <= i <= cs.len(),
            out@ == start + cs@.subrange(from as int, i as int),
        decreases cs.len() - i,
    {
        out.push(cs[i]);
        assert(cs@.subrange(from as int, i + 1) =~= cs@.subrange(from as int, i as int).push(cs@[i as int]));
        i = i + 1;
    }
    assert(cs@.subrange(from as int, cs.len() as int) =~= cs@.skip(from as int));
}

/// Groups token windows, in order of start frame, into timed words.
pub fn token_windows_to_word_timings<C: Copy>(token_windows: &[TokenWindow<C>], vocabulary: &[Option<String>]) -> (r: Vec<WordTiming>)
    requires
        forall|k: int| 0 <= k < token_windows.len() ==> (#[trigger] token_windows@[k]).timestamp
            + span_frames(token_windows@[k].duration) <= token_frame_limit(),
    ensures
        words_view(r@) == token_words(token_windows@, vocab_view(vocabulary@)),
{
    let ghost vocab = vocab_view(vocabulary@);
    let combined = sort_windows_by_start(token_windows);
    proof {
        lemma_sorted_keeps_bounds(token_windows@);
    }
    let mut words: Vec<WordTiming> = Vec::new();
    let mut current: Vec<char> = Vec::new();
    let mut word_start: u64 = 0;
    let mut word_end: u64 = 0;
    let mut i: usize = 0;
    while i < combined.len()
        invariant
            i <= combined.len(),
            vocab == vocab_view(vocabulary@),
            forall|k: int| 0 <= k < combined.len() ==> (#[trigger] combined@[k]).timestamp
                + span_frames(combined@[k].duration) <= token_frame_limit(),
            word_start <= MAX_TOKEN_FRAME * 80,
            (words_view(words@), current@, word_start, word_end) == word_fold(combined@.take(i as int), vocab),
        decreases combined.len() - i,
    {
        let w = combined[i];
        proof {
            assert(combined@.take(i + 1).drop_last() =~= combined@.take(i as int));
            assert(combined@.take(i + 1).last() == w);
        }
        if w.token < vocabulary.len() {
            match &vocabulary[w.token] {
                None => {},
                Some(raw_string) => {
                    let raw = chars_of(raw_string.as_str());
                    assert(vocab[w.token as int] == Some(raw_string@));
                    let special = raw.len() == 0 || (raw[0] == '<' && raw[raw.len() - 1] == '>');
                    if !special {
                        let boundary = raw.len() > 0 && (raw[0] == '\u{2581}' || raw[0] == ' ');
                        let starts_new = boundary || current.len() == 0;
                        let ghost words_before = words_view(words@);
                        if starts_new && !chars_blank(&current) {
                            let text = string_from_chars(trim_ws_chars(current.as_slice()).as_slice());
                            let end = if word_end >= word_start + 1 { word_end } else { word_start + 1 };
                            words.push(WordTiming { start_ms: word_start, end_ms: end, text });
                            current = Vec::new();
                            assert(words_view(words@) =~= words_before.push((word_start, max_end_ms(word_end, word_start),
                                trim_ws(word_fold(combined@.take(i as int), vocab).1))));
                        }
                        let span: usize = if w.duration == 0 { 1 } else { w.duration };
                        let start_ms = encoder_frame_to_ms(w.timestamp);
                        let token_end = encoder_frame_to_ms(w.timestamp + span);
                        let end_ms = if token_end >= start_ms + 1 { token_end } else { start_ms + 1 };
                        if starts_new {
                            append_chars(&mut current, &raw, if boundary { 1 } else { 0 });
                            word_start = start_ms;
                        } else {
                            append_chars(&mut current, &raw, 0);
                        }
                        word_end = end_ms;
                        proof {
                            assert(raw@.skip(0) =~= raw@);
                            assert(raw@.skip(1) =~= raw@.drop_first());
                        }
                    }
                },
            }
        }
        i = i + 1;
    }
    assert(combined@.take(combined.len() as int) =~= combined@);
    if !chars_blank(&current) {
        let text = string_from_chars(trim_ws_chars(current.as_slice()).as_slice());
        let end = if word_end >= word_start + 1 { word_end } else { word_start + 1 };
        let ghost words_before = words_view(words@);
        words.push(WordTiming { start_ms: word_start, end_ms: end, text });
        assert(words_view(words@) =~= words_before.push((word_start, max_end_ms(word_end, word_start), trim_ws(current@))));
    }
    words
}

proof fn lemma_sorted_keeps_bounds<C>(s: Seq<TokenWindow<C>>)
    requires
        forall|k: int| 0 <= k < s.len() ==> (#[trigger] s[k]).timestamp + span_frames(s[k].duration) <= token_frame_limit(),
    ensures
        forall|k: int| 0 <= k < sorted_by_start(s).len() ==> (#[trigger] sorted_by_start(s)[k]).timestamp
            + span_frames(sorted_by_start(s)[k].duration) <= token_frame_limit(),
        sorted_by_start(s).len() == s.len(),
    decreases s.len(),
{
    if s.len() > 0 {
        let t = s.drop_last();
        assert forall|k: int| 0 <= k < t.len() implies (#[trigger] t[k]).timestamp + span_frames(t[k].duration) <= token_frame_limit() by {
            assert(t[k] == s[k]);
        }
        lemma_sorted_keeps_bounds(t);
        lemma_insert_keeps_bounds(sorted_by_start(t), s.last());
    }
}

// -------------------------------------------------------------- pruning

/// Position of the first window starting at or after `frame`, or the length.
pub open spec fn first_from<C>(s: Seq<TokenWindow<C>>, frame: int) -> int
    decreases s.len(),
{
    if s.len() == 0 {
        0
    } else if s[0].timestamp >= frame {
        0
    } else {
        1 + first_from(s.drop_first(), frame)
    }
}

proof fn lemma_first_from_scan<C>(s: Seq<TokenWindow<C>>, frame: int, k: int)
    requires
        0 <= k <= s.len(),
        forall|t: int| 0 <= t < k ==> (#[trigger] s[t]).timestamp < frame,
        k < s.len() ==> s[k].timestamp >= frame,
    ensures
        first_from(s, frame) == k,
    decreases k,
{
    if k > 0 {
        let t = s.drop_first();
        assert forall|q: int| 0 <= q < k - 1 implies (#[trigger] t[q]).timestamp < frame by {
            assert(t[q] == s[q + 1]);
        }
        lemma_first_from_scan(t, frame, k - 1);
    }
}

/// Drops the windows before the first one that starts at or after the encoder
/// frame of `before_ms`.
pub fn prune_token_windows_before<C: Copy>(token_windows: &mut Vec<TokenWindow<C>>, before_ms: u64)
    ensures
        final(token_windows)@ == old(token_windows)@.skip(first_from(old(token_windows)@, frame_floor(before_ms) as int)),
{
    let before_frame = ms_to_encoder_frame_floor(before_ms);
    let mut keep_from: usize = 0;
    while keep_from < token_windows.len() && token_windows[keep_from].timestamp < before_frame
        invariant
            keep_from <= token_windows.len(),
            forall|t: int| 0 <= t < keep_from ==> (#[trigger] token_windows@[t]).timestamp < before_frame,
        decreases token_windows.len() - keep_from,
    {
        keep_from = keep_from + 1;
    }
    proof {
        lemma_first_from_scan(token_windows@, before_frame as int, keep_from as int);
    }
    if keep_from > 0 {
        let mut kept: Vec<TokenWindow<C>> = Vec::new();
        let mut i: usize = keep_from;
        while i < token_windows.len()
            invariant
                keep_from <= i <= token_windows.len(),
                kept@ == token_windows@.subrange(keep_from as int, i as int),
            decreases token_windows.len() - i,
        {
            kept.push(token_windows[i]);
            assert(token_windows@.subrange(keep_from as int, i + 1) =~= token_windows@.subrange(keep_from as int, i as int).push(token_windows@[i as int]));
            i = i + 1;
        }
        assert(token_windows@.subrange(keep_from as int, token_windows.len() as int) =~= token_windows@.skip(keep_from as int));
        *token_windows = kept;
    } else {
        assert(token_windows@.skip(0) =~= token_windows@);
    }
}

} // verus!
