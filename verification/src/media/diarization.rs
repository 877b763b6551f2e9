//! Speaker assignment of transcribed words.
use crate::media::transcript::WordTiming;
use vstd::prelude::*;

verus! {

/// A diarization turn: a speaker label over a time span.
#[derive(Debug, Clone, PartialEq)]
pub struct SpeakerSegment {
    pub start_ms: u64,
    pub end_ms: u64,
    pub speaker: String,
}

/// A word with its speaker label and the channel that label maps to.
#[derive(Debug, Clone, PartialEq)]
pub struct SpeakerWordTiming {
    pub start_ms: u64,
    pub end_ms: u64,
    pub text: String,
    pub speaker: String,
    pub channel: u32,
}

/// Message given when diarization is requested from a build without it.
pub fn polyvoice_feature_error() -> (r: &'static str) {
    "Rust diarization is not enabled; build with feature `polyvoice-diarization`"
}

pub fn expected_polyvoice_model_note() -> (r: &'static str) {
    "polyvoice downloads/validates its balanced WeSpeaker + powerset models in the user cache on first use"
}

pub open spec fn midpoint(start: u64, end: u64) -> int {
    (start + end) / 2
}

pub open spec fn covers(s: SpeakerSegment, m: int) -> bool {
    s.start_ms <= m && m <= s.end_ms
}

pub open spec fn distance(s: SpeakerSegment, m: int) -> int {
    let c = midpoint(s.start_ms, s.end_ms);
    if c >= m { c - m } else { m - c }
}

/// Segment `i` is the first one covering `m`.
pub open spec fn first_cover(segs: Seq<SpeakerSegment>, m: int, i: int) -> bool {
    0 <= i < segs.len() && covers(segs[i], m) && forall|j: int| 0 <= j < i ==> !covers(#[trigger] segs[j], m)
}

/// Segment `i` is the first one whose midpoint is nearest to `m`.
pub open spec fn first_nearest(segs: Seq<SpeakerSegment>, m: int, i: int) -> bool {
    &&& 0 <= i < segs.len()
    &&& forall|j: int| 0 <= j < segs.len() ==> distance(segs[i], m) <= distance(#[trigger] segs[j], m)
    &&& forall|j: int| 0 <= j < i ==> distance(segs[i], m) < distance(#[trigger] segs[j], m)
}

/// The segment a midpoint falls to: the first segment covering it, else the
/// first segment whose own midpoint is nearest.
pub open spec fn best_segment(m: int, segs: Seq<SpeakerSegment>) -> Option<int> {
    if exists|i: int| 0 <= i < segs.len() && covers(#[trigger] segs[i], m) {
        Some(choose|i: int| #[trigger] first_cover(segs, m, i))
    } else if segs.len() > 0 {
        Some(choose|i: int| #[trigger] first_nearest(segs, m, i))
    } else {
        None
    }
}

/// The speaker label a word gets.
pub open spec fn word_label(w: WordTiming, segs: Seq<SpeakerSegment>) -> Seq<char> {
    match best_segment(midpoint(w.start_ms, w.end_ms), segs) {
        Some(i) => segs[i].speaker@,
        None => "SPEAKER_00"@,
    }
}

/// Labels in order of first appearance, each once.
pub open spec fn first_seen(labels: Seq<Seq<char>>) -> Seq<Seq<char>>
    decreases labels.len(),
{
    if labels.len() == 0 {
        Seq::empty()
    } else {
        let p = first_seen(labels.drop_last());
        if p.contains(labels.last()) { p } else { p.push(labels.last()) }
    }
}

/// Index of the first occurrence of `x` in `s`.
pub open spec fn first_index(s: Seq<Seq<char>>, x: Seq<char>) -> int
    decreases s.len(),
{
    if s.len() == 0 || s[0] == x {
        0
    } else {
        1 + first_index(s.drop_first(), x)
    }
}

/// Channel of label `i`: the rank of its label by first appearance.
pub open spec fn label_channel(labels: Seq<Seq<char>>, i: int) -> int {
    first_index(first_seen(labels.take(i + 1)), labels[i])
}

proof fn lemma_first_index_found(s: Seq<Seq<char>>, x: Seq<char>, j: int)
    requires
        0 <= j < s.len(),
        s[j] == x,
        forall|k: int| 0 <= k < j ==> s[k] != x,
    ensures
        first_index(s, x) == j,
    decreases j,
{
    if j > 0 {
        lemma_first_index_found(s.drop_first(), x, j - 1);
    }
}

fn find_segment(m: u64, segments: &[SpeakerSegment]) -> (r: Option<usize>)
    requires
        forall|i: int| 0 <= i < segments@.len() ==> (#[trigger] segments@[i]).start_ms + segments@[i].end_ms <= u64::MAX,
    ensures
        r matches Some(i) ==> i < segments@.len() && best_segment(m as int, segments@) == Some(i as int),
        r is None ==> best_segment(m as int, segments@) is None,
{
    let mut i: usize = 0;
    while i < segments.len()
        invariant
            i <= segments@.len(),
            forall|j: int| 0 <= j < i ==> !covers(#[trigger] segments@[j], m as int),
        decreases segments.len() - i,
    {
        if segments[i].start_ms <= m && m <= segments[i].end_ms {
            proof {
                assert(first_cover(segments@, m as int, i as int));
                let c = choose|x: int| #[trigger] first_cover(segments@, m as int, x);
                if c < i {
                    assert(covers(segments@[c], m as int));
                } else if c > i {
                    assert(!covers(segments@[i as int], m as int));
                }
            }
            return Some(i);
        }
        i = i + 1;
    }
    if segments.len() == 0 {
        return None;
    }
    let mut best: usize = 0;
    let mut best_distance: u64 = 0;
    let mid0 = (segments[0].start_ms + segments[0].end_ms) / 2;
    best_distance = if mid0 >= m { mid0 - m } else { m - mid0 };
    let mut k: usize = 1;
    while k < segments.len()
        invariant
            forall|i: int| 0 <= i < segments@.len() ==> (#[trigger] segments@[i]).start_ms + segments@[i].end_ms <= u64::MAX,
            1 <= k <= segments@.len(),
            best < k,
            best_distance == distance(segments@[best as int], m as int),
            forall|j: int| 0 <= j < k ==> distance(segments@[best as int], m as int) <= distance(#[trigger] segments@[j], m as int),
            forall|j: int| 0 <= j < best ==> distance(segments@[best as int], m as int) < distance(#[trigger] segments@[j], m as int),
        decreases segments.len() - k,
    {
        let mid = (segments[k].start_ms + segments[k].end_ms) / 2;
        let d = if mid >= m { mid - m } else { m - mid };
        if d < best_distance {
            best = k;
            best_distance = d;
        }
        k = k + 1;
    }
    proof {
        assert(!exists|x: int| 0 <= x < segments@.len() && covers(#[trigger] segments@[x], m as int));
        assert(first_nearest(segments@, m as int, best as int));
        let c = choose|x: int| #[trigger] first_nearest(segments@, m as int, x);
        if c < best {
            assert(distance(segments@[best as int], m as int) < distance(segments@[c], m as int));
        } else if c > best {
            assert(distance(segments@[c], m as int) < distance(segments@[best as int], m as int));
        }
    }
    Some(best)
}

/// Assign each ASR word to the diarization speaker segment covering its
/// midpoint (or, when none covers it, the segment whose midpoint is nearest),
/// and map speaker labels to channels numbered by first appearance.
pub fn assign_speakers_to_words(words: &[WordTiming], segments: &[SpeakerSegment]) -> (r: Vec<SpeakerWordTiming>)
    requires
        forall|i: int| 0 <= i < words@.len() ==> (#[trigger] words@[i]).start_ms + words@[i].end_ms <= u64::MAX,
        forall|i: int| 0 <= i < segments@.len() ==> (#[trigger] segments@[i]).start_ms + segments@[i].end_ms <= u64::MAX,
        words@.len() <= u32::MAX,
    ensures
        r@.len() == words@.len(),
        forall|i: int| 0 <= i < r@.len() ==> {
            let labels = words@.map_values(|w: WordTiming| word_label(w, segments@));
            &&& (#[trigger] r@[i]).start_ms == words@[i].start_ms
            &&& r@[i].end_ms == words@[i].end_ms
            &&& r@[i].text@ == words@[i].text@
            &&& r@[i].speaker@ == labels[i]
            &&& r@[i].channel == label_channel(labels, i)
        },
{
    let ghost labels = words@.map_values(|w: WordTiming| word_label(w, segments@));
    let mut seen: Vec<String> = Vec::new();
    let mut out: Vec<SpeakerWordTiming> = Vec::new();
    let mut i: usize = 0;
    while i < words.len()
        invariant
            forall|x: int| 0 <= x < words@.len() ==> (#[trigger] words@[x]).start_ms + words@[x].end_ms <= u64::MAX,
            forall|x: int| 0 <= x < segments@.len() ==> (#[trigger] segments@[x]).start_ms + segments@[x].end_ms <= u64::MAX,
            words@.len() <= u32::MAX,
            labels == words@.map_values(|w: WordTiming| word_label(w, segments@)),
            i <= words@.len(),
            seen@.map_values(|t: String| t@) == first_seen(labels.take(i as int)),
            seen@.len() <= i,
            out@.len() == i,
            forall|x: int| 0 <= x < i ==> {
                &&& (#[trigger] out@[x]).start_ms == words@[x].start_ms
                &&& out@[x].end_ms == words@[x].end_ms
                &&& out@[x].text@ == words@[x].text@
                &&& out@[x].speaker@ == labels[x]
                &&& out@[x].channel == label_channel(labels, x)
            },
        decreases words.len() - i,
    {
        let w = &words[i];
        let m = (w.start_ms + w.end_ms) / 2;
        let speaker: String = match find_segment(m, segments) {
            Some(k) => segments[k].speaker.clone(),
            None => "SPEAKER_00".to_owned(),
        };
        assert(speaker@ == labels[i as int]);
        let ghost sv = seen@.map_values(|t: String| t@);
        let mut j: usize = 0;
        while j < seen.len() && seen[j] != speaker
            invariant
                j <= seen@.len(),
                sv == seen@.map_values(|t: String| t@),
                forall|k: int| 0 <= k < j ==> sv[k] != speaker@,
            decreases seen.len() - j,
        {
            j = j + 1;
        }
        proof {
            assert(labels.take(i + 1).drop_last() =~= labels.take(i as int));
            assert(labels.take(i + 1).last() == speaker@);
        }
        if j == seen.len() {
            proof {
                assert(!sv.contains(speaker@));
                assert(first_seen(labels.take(i + 1)) == sv.push(speaker@));
                lemma_first_index_found(sv.push(speaker@), speaker@, j as int);
            }
            seen.push(speaker.clone());
            assert(seen@.map_values(|t: String| t@) =~= sv.push(speaker@));
        } else {
            proof {
                assert(sv[j as int] == speaker@);
                assert(sv.contains(speaker@));
                lemma_first_index_found(sv, speaker@, j as int);
            }
        }
        out.push(SpeakerWordTiming {
            start_ms: w.start_ms,
            end_ms: w.end_ms,
            text: w.text.clone(),
            speaker,
            channel: j as u32,
        });
        i = i + 1;
    }
    out
}

pub open spec fn abs_int(x: int) -> int {
    if x >= 0 { x } else { -x }
}

/// The first of the first `n` segments whose midpoint is nearest to `m`.
spec fn nearest_in_prefix(segs: Seq<SpeakerSegment>, m: int, n: int) -> int
    decreases n,
{
    if n <= 1 {
        0
    } else {
        let p = nearest_in_prefix(segs, m, n - 1);
        if distance(segs[n - 1], m) < distance(segs[p], m) { n - 1 } else { p }
    }
}

proof fn lemma_nearest_in_prefix(segs: Seq<SpeakerSegment>, m: int, n: int)
    requires
        1 <= n <= segs.len(),
    ensures
        0 <= nearest_in_prefix(segs, m, n) < n,
        forall|j: int| 0 <= j < n ==> distance(segs[nearest_in_prefix(segs, m, n)], m) <= distance(#[trigger] segs[j], m),
        forall|j: int| 0 <= j < nearest_in_prefix(segs, m, n) ==> distance(segs[nearest_in_prefix(segs, m, n)], m)
            < distance(#[trigger] segs[j], m),
    decreases n,
{
    if n > 1 {
        lemma_nearest_in_prefix(segs, m, n - 1);
    }
}

/// A word whose midpoint lies in no segment goes to the first segment whose
/// own midpoint, `(start_ms + end_ms) / 2`, is nearest to the word's.
pub proof fn law_uncovered_word_goes_to_nearest_segment(w: WordTiming, segs: Seq<SpeakerSegment>)
    requires
        segs.len() > 0,
        forall|j: int| 0 <= j < segs.len() ==> !((#[trigger] segs[j]).start_ms <= (w.start_ms + w.end_ms) / 2
            && (w.start_ms + w.end_ms) / 2 <= segs[j].end_ms),
    ensures
        best_segment((w.start_ms + w.end_ms) / 2, segs) matches Some(i) && {
            &&& 0 <= i < segs.len()
            &&& word_label(w, segs) == segs[i].speaker@
            &&& forall|j: int| 0 <= j < segs.len() ==> abs_int((segs[i].start_ms + segs[i].end_ms) / 2 - (w.start_ms + w.end_ms) / 2)
                <= abs_int(((#[trigger] segs[j]).start_ms + segs[j].end_ms) / 2 - (w.start_ms + w.end_ms) / 2)
            &&& forall|j: int| 0 <= j < i ==> abs_int((segs[i].start_ms + segs[i].end_ms) / 2 - (w.start_ms + w.end_ms) / 2)
                < abs_int(((#[trigger] segs[j]).start_ms + segs[j].end_ms) / 2 - (w.start_ms + w.end_ms) / 2)
        },
{
    let m = midpoint(w.start_ms, w.end_ms);
    lemma_nearest_in_prefix(segs, m, segs.len() as int);
    assert(first_nearest(segs, m, nearest_in_prefix(segs, m, segs.len() as int)));
    assert(!exists|x: int| 0 <= x < segs.len() && covers(#[trigger] segs[x], m));
    let i = choose|x: int| #[trigger] first_nearest(segs, m, x);
    assert(best_segment(m, segs) == Some(i));
}

/// A word goes to the first segment that holds its midpoint, ends included.
pub proof fn law_covered_word_goes_to_first_covering_segment(w: WordTiming, segs: Seq<SpeakerSegment>, k: int)
    requires
        0 <= k < segs.len(),
        segs[k].start_ms <= (w.start_ms + w.end_ms) / 2 <= segs[k].end_ms,
    ensures
        best_segment((w.start_ms + w.end_ms) / 2, segs) matches Some(i) && {
            &&& 0 <= i <= k
            &&& word_label(w, segs) == segs[i].speaker@
            &&& segs[i].start_ms <= (w.start_ms + w.end_ms) / 2 <= segs[i].end_ms
            &&& forall|j: int| 0 <= j < i ==> !((#[trigger] segs[j]).start_ms <= (w.start_ms + w.end_ms) / 2
                && (w.start_ms + w.end_ms) / 2 <= segs[j].end_ms)
        },
{
    let m = midpoint(w.start_ms, w.end_ms);
    assert(covers(segs[k], m));
    let f = nearest_cover(segs, m, k);
    assert(first_cover(segs, m, f));
    let i = choose|x: int| #[trigger] first_cover(segs, m, x);
    if i > f {
        assert(!covers(segs[f], m));
    } else if i < f {
        assert(!covers(segs[i], m));
    }
    assert(best_segment(m, segs) == Some(i));
}

/// The first segment, at or before `k`, that covers `m`.
proof fn nearest_cover(segs: Seq<SpeakerSegment>, m: int, k: int) -> (f: int)
    requires
        0 <= k < segs.len(),
        covers(segs[k], m),
    ensures
        first_cover(segs, m, f),
        f <= k,
    decreases k,
{
    if exists|j: int| 0 <= j < k && covers(#[trigger] segs[j], m) {
        let j = choose|j: int| 0 <= j < k && covers(#[trigger] segs[j], m);
        nearest_cover(segs, m, j)
    } else {
        k
    }
}

proof fn lemma_first_seen_props(s: Seq<Seq<char>>)
    ensures
        forall|a: int, b: int| 0 <= a < b < first_seen(s).len() ==> (#[trigger] first_seen(s)[a]) != (#[trigger] first_seen(s)[b]),
        forall|x: Seq<char>| #[trigger] first_seen(s).contains(x) <==> s.contains(x),
    decreases s.len(),
{
    if s.len() > 0 {
        let t = s.drop_last();
        lemma_first_seen_props(t);
        assert forall|x: Seq<char>| #[trigger] s.contains(x) <==> t.contains(x) || x == s.last() by {
            if s.contains(x) {
                let k = choose|k: int| 0 <= k < s.len() && s[k] == x;
                if k < t.len() {
                    assert(t[k] == x);
                }
            }
            if t.contains(x) {
                let k = choose|k: int| 0 <= k < t.len() && t[k] == x;
                assert(s[k] == x);
            }
            assert(s[s.len() - 1] == s.last());
        }
        let p = first_seen(t);
        if !p.contains(s.last()) {
            let q = p.push(s.last());
            assert forall|x: Seq<char>| #[trigger] q.contains(x) <==> p.contains(x) || x == s.last() by {
                if q.contains(x) {
                    let k = choose|k: int| 0 <= k < q.len() && q[k] == x;
                    if k < p.len() {
                        assert(p[k] == x);
                    }
                }
                if p.contains(x) {
                    let k = choose|k: int| 0 <= k < p.len() && p[k] == x;
                    assert(q[k] == x);
                }
                assert(q[q.len() - 1] == s.last());
            }
            assert forall|a: int, b: int| 0 <= a < b < q.len() implies (#[trigger] q[a]) != (#[trigger] q[b]) by {
                if b == p.len() {
                    assert(q[a] == p[a]);
                    assert(p.contains(p[a]));
                } else {
                    assert(q[a] == p[a] && q[b] == p[b]);
                }
            }
        }
    }
}

proof fn lemma_first_seen_prefix(s: Seq<Seq<char>>, n: int, m: int)
    requires
        0 <= n <= m <= s.len(),
    ensures
        first_seen(s.take(n)).len() <= first_seen(s.take(m)).len(),
        first_seen(s.take(m)).take(first_seen(s.take(n)).len() as int) == first_seen(s.take(n)),
    decreases m - n,
{
    if n == m {
        assert(first_seen(s.take(m)).take(first_seen(s.take(n)).len() as int) =~= first_seen(s.take(n)));
    } else {
        lemma_first_seen_prefix(s, n, m - 1);
        assert(s.take(m).drop_last() =~= s.take(m - 1));
        let a = first_seen(s.take(m - 1));
        let b = first_seen(s.take(m));
        let c = first_seen(s.take(n));
        assert(b == a || b == a.push(s.take(m).last()));
        assert(b.take(c.len() as int) =~= a.take(c.len() as int));
    }
}

/// `x` stands at `j` in a sequence without repeats.
proof fn lemma_index_in_distinct(f: Seq<Seq<char>>, x: Seq<char>, j: int)
    requires
        0 <= j < f.len(),
        f[j] == x,
        forall|a: int, b: int| 0 <= a < b < f.len() ==> (#[trigger] f[a]) != (#[trigger] f[b]),
    ensures
        first_index(f, x) == j,
{
    assert forall|k: int| 0 <= k < j implies f[k] != x by {
        assert(f[k] != f[j]);
    }
    lemma_first_index_found(f, x, j);
}

/// Word `i`'s channel is where its label stands in the labels listed by first
/// appearance.
proof fn lemma_channel_in_order(labels: Seq<Seq<char>>, i: int)
    requires
        0 <= i < labels.len(),
    ensures
        0 <= label_channel(labels, i) < first_seen(labels.take(i + 1)).len(),
        first_seen(labels.take(i + 1))[label_channel(labels, i)] == labels[i],
        first_seen(labels)[label_channel(labels, i)] == labels[i],
{
    let f = first_seen(labels.take(i + 1));
    lemma_first_seen_props(labels.take(i + 1));
    assert(labels.take(i + 1)[i] == labels[i]);
    assert(labels.take(i + 1).contains(labels[i]));
    assert(f.contains(labels[i]));
    let j = choose|j: int| 0 <= j < f.len() && f[j] == labels[i];
    lemma_index_in_distinct(f, labels[i], j);
    lemma_first_seen_prefix(labels, i + 1, labels.len() as int);
    assert(labels.take(labels.len() as int) =~= labels);
    assert(first_seen(labels)[j] == first_seen(labels).take(f.len() as int)[j]);
}

/// Speaker channels are numbered by first appearance: two words share a
/// channel exactly when they share a speaker label, the first word is on
/// channel 0, and a word whose label has not appeared before opens the next
/// channel, one past the highest used so far.
pub proof fn law_channels_follow_first_appearance(labels: Seq<Seq<char>>)
    ensures
        forall|i: int, j: int| 0 <= i < labels.len() && 0 <= j < labels.len() ==> (label_channel(labels, i) == label_channel(labels, j)
            <==> #[trigger] labels[i] == #[trigger] labels[j]),
        labels.len() > 0 ==> label_channel(labels, 0) == 0,
        forall|i: int| 0 < i < labels.len() && !labels.take(i).contains(#[trigger] labels[i]) ==> {
            &&& forall|j: int| 0 <= j < i ==> label_channel(labels, j) < label_channel(labels, i)
            &&& exists|j: int| 0 <= j < i && label_channel(labels, j) + 1 == label_channel(labels, i)
        },
{
    lemma_first_seen_props(labels);
    assert forall|i: int, j: int| 0 <= i < labels.len() && 0 <= j < labels.len() implies (label_channel(labels, i) == label_channel(labels, j)
        <==> #[trigger] labels[i] == #[trigger] labels[j]) by {
        lemma_channel_in_order(labels, i);
        lemma_channel_in_order(labels, j);
        lemma_first_seen_prefix(labels, i + 1, labels.len() as int);
        lemma_first_seen_prefix(labels, j + 1, labels.len() as int);
        assert(labels.take(labels.len() as int) =~= labels);
        let ci = label_channel(labels, i);
        let cj = label_channel(labels, j);
        if labels[i] == labels[j] && ci != cj {
            if ci < cj {
                assert(first_seen(labels)[ci] != first_seen(labels)[cj]);
            } else {
                assert(first_seen(labels)[cj] != first_seen(labels)[ci]);
            }
        }
    }
    if labels.len() > 0 {
        lemma_channel_in_order(labels, 0);
        let e = labels.take(1).drop_last();
        assert(e.len() == 0);
        assert(first_seen(e) == Seq::<Seq<char>>::empty());
        assert(!Seq::<Seq<char>>::empty().contains(labels.take(1).last()));
        assert(first_seen(labels.take(1)).len() == 1);
    }
    assert forall|i: int| 0 < i < labels.len() && !labels.take(i).contains(#[trigger] labels[i]) implies {
        &&& forall|j: int| 0 <= j < i ==> label_channel(labels, j) < label_channel(labels, i)
        &&& exists|j: int| 0 <= j < i && label_channel(labels, j) + 1 == label_channel(labels, i)
    } by {
        let fi = first_seen(labels.take(i));
        assert(labels.take(i + 1).drop_last() =~= labels.take(i));
        assert(labels.take(i + 1).last() == labels[i]);
        lemma_first_seen_props(labels.take(i));
        assert(!fi.contains(labels[i]));
        assert(first_seen(labels.take(i + 1)) == fi.push(labels[i]));
        lemma_channel_in_order(labels, i);
        lemma_first_seen_props(labels.take(i + 1));
        lemma_index_in_distinct(fi.push(labels[i]), labels[i], fi.len() as int);
        assert(label_channel(labels, i) == fi.len());
        assert forall|j: int| 0 <= j < i implies label_channel(labels, j) < label_channel(labels, i) by {
            lemma_channel_in_order(labels, j);
            lemma_first_seen_prefix(labels, j + 1, i);
        }
        assert(labels.take(i)[0] == labels[0]);
        assert(labels.take(i).contains(labels[0]));
        assert(fi.contains(labels[0]));
        let x = fi[fi.len() - 1];
        assert(fi.contains(x));
        assert(labels.take(i).contains(x));
        let j = choose|j: int| 0 <= j < i && labels.take(i)[j] == x;
        assert(labels[j] == x);
        lemma_channel_in_order(labels, j);
        lemma_first_seen_prefix(labels, j + 1, i);
        lemma_first_seen_prefix(labels, i, labels.len() as int);
        lemma_first_seen_prefix(labels, j + 1, labels.len() as int);
        assert(labels.take(labels.len() as int) =~= labels);
        let cj = label_channel(labels, j);
        assert(first_seen(labels)[cj] == x);
        assert(first_seen(labels)[fi.len() - 1] == fi[fi.len() - 1]);
        if cj != fi.len() - 1 {
            if cj < fi.len() - 1 {
                assert(first_seen(labels)[cj] != first_seen(labels)[fi.len() - 1]);
            } else {
                assert(first_seen(labels)[fi.len() - 1] != first_seen(labels)[cj]);
            }
        }
    }
}

} // verus!
