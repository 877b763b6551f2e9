//! Deterministic transcript entries: offsetting, phrase merging, and
//! deduplication of repeated words.
use crate::text::{
    ascii_lower, ascii_lower_chars, chars_of, string_from_chars, trim_end_by, trim_ws,
    trim_ws_chars,
};
use vstd::prelude::*;

verus! {

/// Word timing returned by model adapters.
#[derive(Debug, Clone, PartialEq)]
pub struct WordTiming {
    pub start_ms: u64,
    pub end_ms: u64,
    pub text: String,
}

/// Channel-tagged transcript entry.
#[derive(Debug, Clone, PartialEq)]
pub struct TranscriptWordEntry {
    pub channel: u32,
    pub start_ms: u64,
    pub end_ms: u64,
    pub text: String,
}

/// An entry as plain values: channel, start, end and text.
pub type EntryView = (u32, u64, u64, Seq<char>);

pub open spec fn entry_view(e: TranscriptWordEntry) -> EntryView {
    (e.channel, e.start_ms, e.end_ms, e.text@)
}

pub open spec fn entries_view(s: Seq<TranscriptWordEntry>) -> Seq<EntryView> {
    s.map_values(|e: TranscriptWordEntry| entry_view(e))
}

fn copy_entry(e: &TranscriptWordEntry) -> (r: TranscriptWordEntry)
    ensures
        r == *e,
{
    TranscriptWordEntry { channel: e.channel, start_ms: e.start_ms, end_ms: e.end_ms, text: e.text.clone() }
}

// ------------------------------------------------------------- offsetting

/// The entry a word becomes on `channel`, shifted by `offset_ms`, with its
/// text trimmed and prefixed by one space.
pub open spec fn word_entry(w: WordTiming, channel: u32, offset_ms: u64) -> EntryView {
    (channel, (w.start_ms + offset_ms) as u64, (w.end_ms + offset_ms) as u64, seq![' '] + trim_ws(w.text@))
}

pub fn words_to_transcript_entries(words: &[WordTiming], channel: u32, offset_ms: u64) -> (r: Vec<TranscriptWordEntry>)
    requires
        forall|i: int| 0 <= i < words@.len() ==> (#[trigger] words@[i]).start_ms + offset_ms <= u64::MAX
            && words@[i].end_ms + offset_ms <= u64::MAX,
    ensures
        entries_view(r@) == words@.map_values(|w: WordTiming| word_entry(w, channel, offset_ms)),
{
    let mut out: Vec<TranscriptWordEntry> = Vec::new();
    let mut i: usize = 0;
    while i < words.len()
        invariant
            i <= words@.len(),
            forall|k: int| 0 <= k < words@.len() ==> (#[trigger] words@[k]).start_ms + offset_ms <= u64::MAX
                && words@[k].end_ms + offset_ms <= u64::MAX,
            out@.len() == i,
            forall|k: int| 0 <= k < i ==> entry_view(#[trigger] out@[k]) == word_entry(words@[k], channel, offset_ms),
        decreases words.len() - i,
    {
        let w = &words[i];
        let trimmed = trim_ws_chars(chars_of(w.text.as_str()).as_slice());
        let mut text_chars: Vec<char> = Vec::new();
        text_chars.push(' ');
        let mut j: usize = 0;
        while j < trimmed.len()
            invariant
                j <= trimmed.len(),
                text_chars@ == seq![' '] + trimmed@.take(j as int),
            decreases trimmed.len() - j,
        {
            text_chars.push(trimmed[j]);
            j = j + 1;
            assert(text_chars@ =~= seq![' '] + trimmed@.take(j as int));
        }
        assert(trimmed@.take(trimmed@.len() as int) =~= trimmed@);
        out.push(TranscriptWordEntry {
            channel,
            start_ms: w.start_ms + offset_ms,
            end_ms: w.end_ms + offset_ms,
            text: string_from_chars(text_chars.as_slice()),
        });
        i = i + 1;
    }
    assert(entries_view(out@) =~= words@.map_values(|w: WordTiming| word_entry(w, channel, offset_ms)));
    out
}

// ---------------------------------------------------------------- sorting

/// `a` sorts strictly before `b` by (start, channel).
pub open spec fn key_lt(a: EntryView, b: EntryView) -> bool {
    a.1 < b.1 || (a.1 == b.1 && a.0 < b.0)
}

/// Inserts `x` after every element whose key is not greater than its own.
pub open spec fn insert_sorted(s: Seq<EntryView>, x: EntryView) -> Seq<EntryView>
    decreases s.len(),
{
    if s.len() == 0 {
        seq![x]
    } else if key_lt(x, s.last()) {
        insert_sorted(s.drop_last(), x).push(s.last())
    } else {
        s.push(x)
    }
}

/// Stable sort by (start, channel): equal keys keep their input order.
pub open spec fn stable_sort(s: Seq<EntryView>) -> Seq<EntryView>
    decreases s.len(),
{
    if s.len() == 0 {
        s
    } else {
        insert_sorted(stable_sort(s.drop_last()), s.last())
    }
}

proof fn lemma_insert_at(s: Seq<EntryView>, x: EntryView, j: int)
    requires
        0 <= j <= s.len(),
        forall|k: int| j <= k < s.len() ==> key_lt(x, #[trigger] s[k]),
        j > 0 ==> !key_lt(x, s[j - 1]),
    ensures
        insert_sorted(s, x) == s.take(j).push(x) + s.skip(j),
    decreases s.len(),
{
    if s.len() == 0 {
        assert(s.take(j).push(x) + s.skip(j) =~= seq![x]);
    } else if j == s.len() {
        assert(s.take(j).push(x) + s.skip(j) =~= s.push(x));
    } else {
        assert(key_lt(x, s.last()));
        let t = s.drop_last();
        lemma_insert_at(t, x, j);
        assert(s.take(j).push(x) + s.skip(j) =~= (t.take(j).push(x) + t.skip(j)).push(s.last()));
    }
}

fn key_less(a: &TranscriptWordEntry, b: &TranscriptWordEntry) -> (r: bool)
    ensures
        r == key_lt(entry_view(*a), entry_view(*b)),
{
    a.start_ms < b.start_ms || (a.start_ms == b.start_ms && a.channel < b.channel)
}

/// Stably sorts entries by (start, channel).
fn sort_entries(entries: &Vec<TranscriptWordEntry>) -> (r: Vec<TranscriptWordEntry>)
    ensures
        entries_view(r@) == stable_sort(entries_view(entries@)),
{
    let mut out: Vec<TranscriptWordEntry> = Vec::new();
    let mut i: usize = 0;
    while i < entries.len()
        invariant
            i <= entries.len(),
            entries_view(out@) == stable_sort(entries_view(entries@.take(i as int))),
        decreases entries.len() - i,
    {
        let x = copy_entry(&entries[i]);
        let mut j: usize = out.len();
        while j > 0 && key_less(&x, &out[j - 1])
            invariant
                j <= out.len(),
                forall|k: int| j <= k < out.len() ==> key_lt(entry_view(x), #[trigger] entries_view(out@)[k]),
            decreases j,
        {
            j = j - 1;
        }
        let ghost before = entries_view(out@);
        proof {
            lemma_insert_at(before, entry_view(x), j as int);
            assert(entries_view(entries@.take(i + 1)).drop_last() =~= entries_view(entries@.take(i as int)));
            assert(entries_view(entries@.take(i + 1)).last() == entry_view(entries@[i as int]));
        }
        out.insert(j, x);
        proof {
            assert(entries_view(out@) =~= before.take(j as int).push(entry_view(x)) + before.skip(j as int));
        }
        i = i + 1;
    }
    assert(entries@.take(entries.len() as int) =~= entries@);
    out
}

// ---------------------------------------------------------------- phrases

/// `a - b`, or zero when `b` is larger.
pub open spec fn sat_sub(a: u64, b: u64) -> int {
    if a >= b { a - b } else { 0 }
}

/// Adds one entry to merged output: it joins the last phrase when that is on
/// the same channel and the gap to it is at most `gap`.
pub open spec fn merge_step(out: Seq<EntryView>, e: EntryView, gap: u64) -> Seq<EntryView> {
    if out.len() > 0 && out.last().0 == e.0 && sat_sub(e.1, out.last().2) <= gap {
        let l = out.last();
        out.drop_last().push((l.0, l.1, if l.2 >= e.2 { l.2 } else { e.2 }, l.3 + e.3))
    } else {
        out.push(e)
    }
}

/// Merges entries in order, left to right.
pub open spec fn merge_all(s: Seq<EntryView>, gap: u64) -> Seq<EntryView>
    decreases s.len(),
{
    if s.len() == 0 {
        Seq::empty()
    } else {
        merge_step(merge_all(s.drop_last(), gap), s.last(), gap)
    }
}

/// Entries sorted by (start, channel) and merged into phrases.
pub open spec fn phrases(s: Seq<EntryView>, gap: u64) -> Seq<EntryView> {
    merge_all(stable_sort(s), gap)
}

fn merge_sorted(sorted: &Vec<TranscriptWordEntry>, max_gap_ms: u64) -> (r: Vec<TranscriptWordEntry>)
    ensures
        entries_view(r@) == merge_all(entries_view(sorted@), max_gap_ms),
{
    let mut out: Vec<TranscriptWordEntry> = Vec::new();
    let mut i: usize = 0;
    while i < sorted.len()
        invariant
            i <= sorted.len(),
            entries_view(out@) == merge_all(entries_view(sorted@.take(i as int)), max_gap_ms),
        decreases sorted.len() - i,
    {
        let e = copy_entry(&sorted[i]);
        let ghost before = entries_view(out@);
        proof {
            assert(entries_view(sorted@.take(i + 1)).drop_last() =~= entries_view(sorted@.take(i as int)));
            assert(entries_view(sorted@.take(i + 1)).last() == entry_view(sorted@[i as int]));
        }
        let n = out.len();
        if n > 0 && out[n - 1].channel == e.channel && e.start_ms.saturating_sub(out[n - 1].end_ms) <= max_gap_ms {
            let mut last = out.pop().unwrap();
            if e.end_ms > last.end_ms {
                last.end_ms = e.end_ms;
            }
            crate::text::push_str(&mut last.text, e.text.as_str());
            out.push(last);
            proof {
                assert(entries_view(out@) =~= merge_step(before, entry_view(e), max_gap_ms));
            }
        } else {
            out.push(e);
            proof {
                assert(entries_view(out@) =~= merge_step(before, entry_view(e), max_gap_ms));
            }
        }
        i = i + 1;
    }
    assert(sorted@.take(sorted.len() as int) =~= sorted@);
    out
}

/// Sorts entries by (start, channel), keeping input order for equal keys,
/// and joins each entry to the previous phrase on the same channel when the
/// gap between them is at most `max_gap_ms`.
pub fn merge_word_entries_to_phrases(entries: Vec<TranscriptWordEntry>, max_gap_ms: u64) -> (r: Vec<TranscriptWordEntry>)
    ensures
        entries_view(r@) == phrases(entries_view(entries@), max_gap_ms),
{
    let sorted = sort_entries(&entries);
    merge_sorted(&sorted, max_gap_ms)
}

// ------------------------------------------------------------------ dedupe

pub open spec fn is_punct(c: char) -> bool {
    c == '.' || c == ',' || c == '!' || c == '?'
}

pub open spec fn punct_pred() -> spec_fn(char) -> bool {
    |c: char| is_punct(c)
}

/// The comparison token of an entry's text: trimmed, without trailing
/// `.`, `,`, `!` or `?`, in ASCII lowercase.
pub open spec fn dedupe_token(text: Seq<char>) -> Seq<char> {
    ascii_lower(trim_end_by(trim_ws(text), punct_pred()))
}

/// Filler words whose immediate repetition is collapsed even when doubled.
pub open spec fn is_filler(t: Seq<char>) -> bool {
    ||| t == seq!['l', 'i', 'k', 'e']
    ||| t == seq!['y', 'e', 'a', 'h']
    ||| t == seq!['t', 'h', 'e']
    ||| t == seq!['u', 'm']
    ||| t == seq!['u', 'h']
    ||| t == seq!['s', 'o']
}

/// The latest end of a non-empty run.
pub open spec fn max_end(run: Seq<EntryView>) -> u64
    decreases run.len(),
{
    if run.len() <= 1 {
        run[0].2
    } else {
        let m = max_end(run.drop_last());
        if m >= run.last().2 { m } else { run.last().2 }
    }
}

/// A finished run of same-token entries: collapsed into its first entry,
/// stretched to the run's latest end, when the token is non-empty and the
/// run has three entries or is a filler word; kept as it is otherwise.
pub open spec fn flush(out: Seq<EntryView>, run: Seq<EntryView>, token: Seq<char>) -> Seq<EntryView> {
    if run.len() == 0 {
        out
    } else if token.len() > 0 && (run.len() >= 3 || is_filler(token)) {
        out.push((run[0].0, run[0].1, max_end(run), run[0].3))
    } else {
        out + run
    }
}

/// Output so far, the open run, and its token, after reading `s` in order.
pub open spec fn dedupe_state(s: Seq<EntryView>) -> (Seq<EntryView>, Seq<EntryView>, Seq<char>)
    decreases s.len(),
{
    if s.len() == 0 {
        (Seq::empty(), Seq::empty(), Seq::empty())
    } else {
        let st = dedupe_state(s.drop_last());
        let e = s.last();
        let t = dedupe_token(e.3);
        if st.1.len() > 0 && st.1.last().0 == e.0 && st.2 == t {
            (st.0, st.1.push(e), st.2)
        } else {
            (flush(st.0, st.1, st.2), seq![e], t)
        }
    }
}

/// Entries with runs of repeated words collapsed.
pub open spec fn deduped(s: Seq<EntryView>) -> Seq<EntryView> {
    let st = dedupe_state(s);
    flush(st.0, st.1, st.2)
}

fn normalized_dedupe_token(text: &str) -> (r: Vec<char>)
    ensures
        r@ == dedupe_token(text@),
{
    let trimmed = trim_ws_chars(chars_of(text).as_slice());
    let mut j: usize = trimmed.len();
    assert(trimmed@ =~= trimmed@.subrange(0, j as int));
    while j > 0 && (trimmed[j - 1] == '.' || trimmed[j - 1] == ',' || trimmed[j - 1] == '!' || trimmed[j - 1] == '?')
        invariant
            j <= trimmed.len(),
            trim_end_by(trimmed@, punct_pred()) == trim_end_by(trimmed@.subrange(0, j as int), punct_pred()),
        decreases j,
    {
        assert(trimmed@.subrange(0, j as int).drop_last() =~= trimmed@.subrange(0, j - 1));
        j = j - 1;
    }
    let kept = crate::text::copy_range(trimmed.as_slice(), 0, j);
    ascii_lower_chars(kept.as_slice())
}

fn chars_equal(a: &Vec<char>, b: &[char]) -> (r: bool)
    ensures
        r == (a@ == b@),
{
    if a.len() != b.len() {
        return false;
    }
    let mut i: usize = 0;
    while i < a.len()
        invariant
            a@.len() == b@.len(),
            i <= a.len(),
            forall|k: int| 0 <= k < i ==> a@[k] == b@[k],
        decreases a.len() - i,
    {
        if a[i] != b[i] {
            return false;
        }
        i = i + 1;
    }
    assert(a@ =~= b@);
    true
}

fn is_dedupe_filler_token(token: &Vec<char>) -> (r: bool)
    ensures
        r == is_filler(token@),
{
    let like: [char; 4] = ['l', 'i', 'k', 'e'];
    let yeah: [char; 4] = ['y', 'e', 'a', 'h'];
    let the: [char; 3] = ['t', 'h', 'e'];
    let um: [char; 2] = ['u', 'm'];
    let uh: [char; 2] = ['u', 'h'];
    let so: [char; 2] = ['s', 'o'];
    proof {
        assert(like@ =~= seq!['l', 'i', 'k', 'e']);
        assert(yeah@ =~= seq!['y', 'e', 'a', 'h']);
        assert(the@ =~= seq!['t', 'h', 'e']);
        assert(um@ =~= seq!['u', 'm']);
        assert(uh@ =~= seq!['u', 'h']);
        assert(so@ =~= seq!['s', 'o']);
    }
    chars_equal(token, &like) || chars_equal(token, &yeah) || chars_equal(token, &the)
        || chars_equal(token, &um) || chars_equal(token, &uh) || chars_equal(token, &so)
}

fn flush_dedupe_run(out: &mut Vec<TranscriptWordEntry>, run: &mut Vec<TranscriptWordEntry>, token: &Vec<char>)
    ensures
        entries_view(final(out)@) == flush(entries_view(old(out)@), entries_view(old(run)@), token@),
        final(run)@.len() == 0,
{
    if run.len() == 0 {
        return;
    }
    let ghost out0 = entries_view(out@);
    let ghost rv = entries_view(run@);
    if token.len() > 0 && (run.len() >= 3 || is_dedupe_filler_token(token)) {
        let mut first = copy_entry(&run[0]);
        let mut k: usize = 1;
        while k < run.len()
            invariant
                1 <= k <= run.len(),
                rv == entries_view(run@),
                entry_view(first) == (rv[0].0, rv[0].1, max_end(rv.take(k as int)), rv[0].3),
            decreases run.len() - k,
        {
            proof {
                assert(rv.take(k + 1).drop_last() =~= rv.take(k as int));
                assert(rv.take(1) =~= seq![rv[0]]);
            }
            if run[k].end_ms > first.end_ms {
                first.end_ms = run[k].end_ms;
            }
            k = k + 1;
        }
        assert(rv.take(run.len() as int) =~= rv);
        out.push(first);
        assert(entries_view(out@) =~= out0.push(entry_view(first)));
    } else {
        let mut k: usize = 0;
        while k < run.len()
            invariant
                k <= run.len(),
                rv == entries_view(run@),
                entries_view(out@) == out0 + rv.take(k as int),
            decreases run.len() - k,
        {
            let ghost before = entries_view(out@);
            let c = copy_entry(&run[k]);
            out.push(c);
            assert(rv[k as int] == entry_view(run@[k as int]));
            assert(entries_view(out@) =~= before.push(entry_view(c)));
            assert(rv.take(k + 1) =~= rv.take(k as int).push(rv[k as int]));
            assert(entries_view(out@) =~= out0 + rv.take(k + 1));
            k = k + 1;
        }
        assert(rv.take(run.len() as int) =~= rv);
    }
    run.clear();
}

/// Collapses runs of repeated words in sorted entries.
fn dedupe_sorted(sorted: &Vec<TranscriptWordEntry>) -> (r: Vec<TranscriptWordEntry>)
    ensures
        entries_view(r@) == deduped(entries_view(sorted@)),
{
    let mut out: Vec<TranscriptWordEntry> = Vec::new();
    let mut run: Vec<TranscriptWordEntry> = Vec::new();
    let mut run_token: Vec<char> = Vec::new();
    let mut i: usize = 0;
    while i < sorted.len()
        invariant
            i <= sorted.len(),
            dedupe_state(entries_view(sorted@.take(i as int))) == (entries_view(out@), entries_view(run@), run_token@),
        decreases sorted.len() - i,
    {
        let e = copy_entry(&sorted[i]);
        let token = normalized_dedupe_token(e.text.as_str());
        proof {
            assert(entries_view(sorted@.take(i + 1)).drop_last() =~= entries_view(sorted@.take(i as int)));
            assert(entries_view(sorted@.take(i + 1)).last() == entry_view(sorted@[i as int]));
        }
        let n = run.len();
        let same_run = n > 0 && run[n - 1].channel == e.channel && chars_equal(&run_token, token.as_slice());
        if same_run {
            let ghost rv = entries_view(run@);
            run.push(e);
            assert(entries_view(run@) =~= rv.push(entry_view(e)));
        } else {
            flush_dedupe_run(&mut out, &mut run, &run_token);
            run_token = token;
            run.push(e);
            assert(entries_view(run@) =~= seq![entry_view(e)]);
        }
        i = i + 1;
    }
    assert(sorted@.take(sorted.len() as int) =~= sorted@);
    flush_dedupe_run(&mut out, &mut run, &run_token);
    out
}

/// Sorts entries by (start, channel), collapses runs of a repeated word on
/// one channel (doubled filler words, or any word three or more times), and
/// merges the result into phrases.
pub fn merge_and_dedupe_entries(entries: Vec<TranscriptWordEntry>, max_gap_ms: u64) -> (r: Vec<TranscriptWordEntry>)
    ensures
        entries_view(r@) == phrases(deduped(stable_sort(entries_view(entries@))), max_gap_ms),
{
    let sorted = sort_entries(&entries);
    let deduped_entries = dedupe_sorted(&sorted);
    merge_word_entries_to_phrases(deduped_entries, max_gap_ms)
}

// ------------------------------------------------------------------- laws

/// No entry sorts strictly before an earlier one.
pub open spec fn sorted_by_key(s: Seq<EntryView>) -> bool {
    forall|i: int, j: int| 0 <= i < j < s.len() ==> !key_lt(#[trigger] s[j], #[trigger] s[i])
}

proof fn lemma_insert_sorted_keeps_order(s: Seq<EntryView>, x: EntryView)
    requires
        sorted_by_key(s),
    ensures
        sorted_by_key(insert_sorted(s, x)),
        insert_sorted(s, x).to_multiset() == s.to_multiset().insert(x),
    decreases s.len(),
{
    broadcast use vstd::seq_lib::group_to_multiset_ensures;
    if s.len() == 0 {
        assert(seq![x] =~= Seq::<EntryView>::empty().push(x));
    } else if key_lt(x, s.last()) {
        let t = s.drop_last();
        let l = s.last();
        assert(t.push(l) =~= s);
        assert(sorted_by_key(t)) by {
            assert forall|i: int, j: int| 0 <= i < j < t.len() implies !key_lt(#[trigger] t[j], #[trigger] t[i]) by {
                assert(t[i] == s[i] && t[j] == s[j]);
            }
        }
        lemma_insert_sorted_keeps_order(t, x);
        let u = insert_sorted(t, x);
        let r = u.push(l);
        assert forall|i: int, j: int| 0 <= i < j < r.len() implies !key_lt(#[trigger] r[j], #[trigger] r[i]) by {
            if j < u.len() {
                assert(r[i] == u[i] && r[j] == u[j]);
            } else {
                assert(r[j] == l && r[i] == u[i]);
                assert(u.to_multiset().count(u[i]) > 0);
                if u[i] != x {
                    assert(t.contains(u[i]));
                    let k = choose|k: int| 0 <= k < t.len() && t[k] == u[i];
                    assert(s[k] == u[i]);
                    assert(!key_lt(s[s.len() - 1], s[k]));
                }
            }
        }
    } else {
        let r = s.push(x);
        assert forall|i: int, j: int| 0 <= i < j < r.len() implies !key_lt(#[trigger] r[j], #[trigger] r[i]) by {
            if j < s.len() {
                assert(r[i] == s[i] && r[j] == s[j]);
            } else {
                assert(r[i] == s[i]);
                if i < s.len() - 1 {
                    assert(!key_lt(s[s.len() - 1], s[i]));
                }
            }
        }
    }
}

/// Sorting transcript entries puts them in (start, channel) order and
/// neither drops nor adds an entry.
pub proof fn law_sorted_entries_are_ordered_permutation(s: Seq<EntryView>)
    ensures
        sorted_by_key(stable_sort(s)),
        stable_sort(s).to_multiset() == s.to_multiset(),
    decreases s.len(),
{
    broadcast use vstd::seq_lib::group_to_multiset_ensures;
    if s.len() > 0 {
        law_sorted_entries_are_ordered_permutation(s.drop_last());
        lemma_insert_sorted_keeps_order(stable_sort(s.drop_last()), s.last());
        assert(s.drop_last().push(s.last()) =~= s);
    }
}

/// Entries that start at `start_ms` on `channel`.
pub open spec fn at_key(start_ms: u64, channel: u32) -> spec_fn(EntryView) -> bool {
    |e: EntryView| e.1 == start_ms && e.0 == channel
}

proof fn lemma_insert_split(s: Seq<EntryView>, x: EntryView) -> (j: int)
    ensures
        0 <= j <= s.len(),
        insert_sorted(s, x) == s.take(j).push(x) + s.skip(j),
        forall|k: int| j <= k < s.len() ==> key_lt(x, #[trigger] s[k]),
    decreases s.len(),
{
    if s.len() == 0 {
        assert(s.take(0).push(x) + s.skip(0) =~= seq![x]);
        0
    } else if key_lt(x, s.last()) {
        let t = s.drop_last();
        let j = lemma_insert_split(t, x);
        assert(s.take(j).push(x) + s.skip(j) =~= (t.take(j).push(x) + t.skip(j)).push(s.last()));
        assert forall|k: int| j <= k < s.len() implies key_lt(x, #[trigger] s[k]) by {
            if k < t.len() {
                assert(s[k] == t[k]);
            }
        }
        j
    } else {
        let j = s.len() as int;
        assert(s.take(j).push(x) + s.skip(j) =~= s.push(x));
        j
    }
}

proof fn lemma_filter_none(s: Seq<EntryView>, p: spec_fn(EntryView) -> bool)
    requires
        forall|k: int| 0 <= k < s.len() ==> !p(#[trigger] s[k]),
    ensures
        s.filter(p) == Seq::<EntryView>::empty(),
    decreases s.len(),
{
    reveal(Seq::filter);
    if s.len() > 0 {
        let t = s.drop_last();
        assert forall|k: int| 0 <= k < t.len() implies !p(#[trigger] t[k]) by {
            assert(t[k] == s[k]);
        }
        lemma_filter_none(t, p);
        assert(!p(s[s.len() - 1]));
    }
}

proof fn lemma_filter_push(s: Seq<EntryView>, x: EntryView, p: spec_fn(EntryView) -> bool)
    ensures
        s.push(x).filter(p) == if p(x) { s.filter(p).push(x) } else { s.filter(p) },
{
    reveal(Seq::filter);
    assert(s.push(x).drop_last() =~= s);
}

proof fn lemma_insert_keeps_key_order(s: Seq<EntryView>, x: EntryView, start_ms: u64, channel: u32)
    ensures
        insert_sorted(s, x).filter(at_key(start_ms, channel)) == s.push(x).filter(at_key(start_ms, channel)),
{
    let p = at_key(start_ms, channel);
    let j = lemma_insert_split(s, x);
    let head = s.take(j);
    let tail = s.skip(j);
    assert(s =~= head + tail);
    Seq::filter_distributes_over_add(head, tail, p);
    Seq::filter_distributes_over_add(head.push(x), tail, p);
    lemma_filter_push(head, x, p);
    lemma_filter_push(s, x, p);
    if p(x) {
        assert forall|k: int| 0 <= k < tail.len() implies !p(#[trigger] tail[k]) by {
            assert(tail[k] == s[j + k]);
            assert(key_lt(x, s[j + k]));
        }
        lemma_filter_none(tail, p);
        assert(head.filter(p) + tail.filter(p) =~= head.filter(p));
        assert(head.filter(p).push(x) + tail.filter(p) =~= head.filter(p).push(x));
    } else {
    }
}

/// Sorting is stable: the entries that share a start and a channel come
/// out in the order they came in.
pub proof fn law_sort_keeps_order_of_equal_keys(s: Seq<EntryView>, start_ms: u64, channel: u32)
    ensures
        stable_sort(s).filter(at_key(start_ms, channel)) == s.filter(at_key(start_ms, channel)),
    decreases s.len(),
{
    if s.len() > 0 {
        let t = s.drop_last();
        law_sort_keeps_order_of_equal_keys(t, start_ms, channel);
        lemma_insert_keeps_key_order(stable_sort(t), s.last(), start_ms, channel);
        lemma_filter_push(stable_sort(t), s.last(), at_key(start_ms, channel));
        lemma_filter_push(t, s.last(), at_key(start_ms, channel));
        assert(t.push(s.last()) =~= s);
    } else {
        assert(stable_sort(s) == s);
    }
}

/// Each entry lies on another channel than the one before it, or starts
/// more than `gap` after it ends.
pub open spec fn neighbours_apart(out: Seq<EntryView>, gap: u64) -> bool {
    forall|i: int| 0 <= i < out.len() - 1 ==> (#[trigger] out[i]).0 != out[i + 1].0 || sat_sub(out[i + 1].1, out[i].2) > gap
}

/// Two neighbouring phrases never qualify for merging: they lie on
/// different channels, or the later starts more than `gap` after the
/// earlier ends.
pub proof fn law_neighbouring_phrases_are_apart(s: Seq<EntryView>, gap: u64)
    ensures
        neighbours_apart(merge_all(s, gap), gap),
    decreases s.len(),
{
    if s.len() > 0 {
        let prev = merge_all(s.drop_last(), gap);
        law_neighbouring_phrases_are_apart(s.drop_last(), gap);
        let out = merge_all(s, gap);
        let e = s.last();
        if prev.len() > 0 && prev.last().0 == e.0 && sat_sub(e.1, prev.last().2) <= gap {
            assert forall|i: int| 0 <= i < out.len() - 1 implies (#[trigger] out[i]).0 != out[i + 1].0
                || sat_sub(out[i + 1].1, out[i].2) > gap by {
                assert(out[i] == prev[i]);
                if i + 1 < out.len() - 1 {
                    assert(out[i + 1] == prev[i + 1]);
                } else {
                    assert(out[i + 1].0 == prev[i + 1].0 && out[i + 1].1 == prev[i + 1].1);
                }
            }
        } else {
            assert forall|i: int| 0 <= i < out.len() - 1 implies (#[trigger] out[i]).0 != out[i + 1].0
                || sat_sub(out[i + 1].1, out[i].2) > gap by {
                assert(out[i] == prev[i]);
                if i + 1 < out.len() - 1 {
                    assert(out[i + 1] == prev[i + 1]);
                }
            }
        }
    }
}

/// `b` repeats `a`: the same channel and the same non-empty comparison token.
pub open spec fn repeats(a: EntryView, b: EntryView) -> bool {
    a.0 == b.0 && dedupe_token(a.3) == dedupe_token(b.3) && dedupe_token(a.3).len() > 0
}

/// No word stands three times in a row on one channel, and no filler word
/// twice.
pub open spec fn runs_collapsed(out: Seq<EntryView>) -> bool {
    &&& forall|i: int| 0 <= i < out.len() - 2 ==> !(repeats(#[trigger] out[i], out[i + 1]) && repeats(out[i + 1], out[i + 2]))
    &&& forall|i: int| 0 <= i < out.len() - 1 ==> !(repeats(#[trigger] out[i], out[i + 1]) && is_filler(dedupe_token(out[i].3)))
}

proof fn lemma_join_collapsed(a: Seq<EntryView>, b: Seq<EntryView>)
    requires
        runs_collapsed(a),
        runs_collapsed(b),
        a.len() > 0 && b.len() > 0 ==> !repeats(a.last(), b[0]),
    ensures
        runs_collapsed(a + b),
{
    let c = a + b;
    assert forall|i: int| 0 <= i < c.len() - 2 implies !(repeats(#[trigger] c[i], c[i + 1]) && repeats(c[i + 1], c[i + 2])) by {
        if i + 2 < a.len() {
            assert(c[i] == a[i] && c[i + 1] == a[i + 1] && c[i + 2] == a[i + 2]);
        } else if i >= a.len() {
            assert(c[i] == b[i - a.len()] && c[i + 1] == b[i - a.len() + 1] && c[i + 2] == b[i - a.len() + 2]);
        } else if i + 1 == a.len() {
            assert(c[i] == a.last() && c[i + 1] == b[0]);
        } else {
            assert(c[i + 1] == a.last() && c[i + 2] == b[0]);
        }
    }
    assert forall|i: int| 0 <= i < c.len() - 1 implies !(repeats(#[trigger] c[i], c[i + 1]) && is_filler(dedupe_token(c[i].3))) by {
        if i + 1 < a.len() {
            assert(c[i] == a[i] && c[i + 1] == a[i + 1]);
        } else if i >= a.len() {
            assert(c[i] == b[i - a.len()] && c[i + 1] == b[i - a.len() + 1]);
        } else {
            assert(c[i] == a.last() && c[i + 1] == b[0]);
        }
    }
}

/// What reading entries in order keeps true: the open run lies on one
/// channel under one token, and its first entry does not repeat the last
/// entry written out.
pub open spec fn dedupe_ok(st: (Seq<EntryView>, Seq<EntryView>, Seq<char>)) -> bool {
    &&& runs_collapsed(st.0)
    &&& forall|k: int| 0 <= k < st.1.len() ==> (#[trigger] st.1[k]).0 == st.1[0].0 && dedupe_token(st.1[k].3) == st.2
    &&& st.1.len() == 0 ==> st.0.len() == 0
    &&& st.0.len() > 0 && st.1.len() > 0 ==> !repeats(st.0.last(), st.1[0])
}

proof fn lemma_flush_collapsed(st: (Seq<EntryView>, Seq<EntryView>, Seq<char>))
    requires
        dedupe_ok(st),
    ensures
        runs_collapsed(flush(st.0, st.1, st.2)),
        st.1.len() > 0 ==> flush(st.0, st.1, st.2).len() > 0 && flush(st.0, st.1, st.2).last().0 == st.1[0].0
            && dedupe_token(flush(st.0, st.1, st.2).last().3) == st.2,
{
    let (out, run, token) = st;
    if run.len() > 0 {
        if token.len() > 0 && (run.len() >= 3 || is_filler(token)) {
            let c = (run[0].0, run[0].1, max_end(run), run[0].3);
            assert(dedupe_token(run[0].3) == token);
            lemma_join_collapsed(out, seq![c]);
            assert(out + seq![c] =~= out.push(c));
        } else {
            assert(dedupe_token(run[0].3) == token);
            assert(runs_collapsed(run)) by {
                assert forall|i: int| 0 <= i < run.len() - 2 implies !(repeats(#[trigger] run[i], run[i + 1]) && repeats(run[i + 1], run[i + 2])) by {
                    assert(dedupe_token(run[i].3) == token);
                }
                assert forall|i: int| 0 <= i < run.len() - 1 implies !(repeats(#[trigger] run[i], run[i + 1]) && is_filler(dedupe_token(run[i].3))) by {
                    assert(dedupe_token(run[i].3) == token);
                }
            }
            lemma_join_collapsed(out, run);
            assert((out + run).last() == run.last());
            assert(dedupe_token(run[run.len() - 1].3) == token);
        }
    }
}

proof fn lemma_dedupe_state_ok(s: Seq<EntryView>)
    ensures
        dedupe_ok(dedupe_state(s)),
    decreases s.len(),
{
    if s.len() > 0 {
        lemma_dedupe_state_ok(s.drop_last());
        let st = dedupe_state(s.drop_last());
        let e = s.last();
        let t = dedupe_token(e.3);
        if st.1.len() > 0 && st.1.last().0 == e.0 && st.2 == t {
            let run = st.1.push(e);
            assert forall|k: int| 0 <= k < run.len() implies (#[trigger] run[k]).0 == run[0].0 && dedupe_token(run[k].3) == st.2 by {
                if k < st.1.len() {
                    assert(run[k] == st.1[k]);
                }
                assert(st.1[st.1.len() - 1].0 == st.1[0].0);
            }
        } else {
            lemma_flush_collapsed(st);
            if st.1.len() > 0 {
                assert(st.1[st.1.len() - 1].0 == st.1[0].0);
            }
        }
    }
}

/// Collapsing repeated words leaves no word three times in a row on one
/// channel, and no filler word twice.
pub proof fn law_dedupe_leaves_no_repeated_run(s: Seq<EntryView>)
    ensures
        runs_collapsed(deduped(s)),
{
    lemma_dedupe_state_ok(s);
    lemma_flush_collapsed(dedupe_state(s));
}

} // verus!
