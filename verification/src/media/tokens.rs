//! Decoded token windows of a streaming TDT decoder: matching two decodes of
//! overlapping audio and merging them into one token sequence.
use crate::runtime::decimal::{decimal, push_decimal};
use crate::text::push_str;
use vstd::prelude::*;

verus! {

/// One decoded token: vocabulary index, first encoder frame and number of
/// frames. `confidence` is the decoder's score; the logic here only carries it.
#[derive(Debug, Clone, Copy, PartialEq)]
pub struct TokenWindow<C> {
    pub token: usize,
    pub timestamp: usize,
    pub confidence: C,
    pub duration: usize,
}

/// Frames a token covers: its duration, at least one.
pub open spec fn span_frames(duration: usize) -> int {
    if duration == 0 { 1 } else { duration as int }
}

/// `usize` addition that saturates at `usize::MAX`.
pub open spec fn sat_add(a: int, b: int) -> int {
    if a + b > usize::MAX { usize::MAX as int } else { a + b }
}

/// `usize` subtraction that saturates at zero.
pub open spec fn sat_sub(a: int, b: int) -> int {
    if a >= b { a - b } else { 0 }
}

/// The frame just after a token (saturating).
pub open spec fn window_end<C>(w: TokenWindow<C>) -> int {
    sat_add(w.timestamp as int, span_frames(w.duration))
}

/// Same token, with start frames closer than `tolerance`.
pub open spec fn windows_match<C>(a: TokenWindow<C>, b: TokenWindow<C>, tolerance: int) -> bool {
    &&& a.token == b.token
    &&& (if a.timestamp >= b.timestamp { a.timestamp - b.timestamp } else { b.timestamp - a.timestamp }) < tolerance
}

pub fn token_windows_match<C>(left: &TokenWindow<C>, right: &TokenWindow<C>, tolerance_frames: usize) -> (r: bool)
    ensures
        r == windows_match(*left, *right, tolerance_frames as int),
{
    let diff = if left.timestamp >= right.timestamp {
        left.timestamp - right.timestamp
    } else {
        right.timestamp - left.timestamp
    };
    left.token == right.token && diff < tolerance_frames
}

// ------------------------------------------------------- contiguous runs

/// Length of the run of matching pairs starting at `(i, j)`.
pub open spec fn run_len<C>(a: Seq<TokenWindow<C>>, b: Seq<TokenWindow<C>>, tol: int, i: int, j: int) -> int
    decreases a.len() - i,
{
    if 0 <= i < a.len() && 0 <= j < b.len() && windows_match(a[i], b[j], tol) {
        1 + run_len(a, b, tol, i + 1, j + 1)
    } else {
        0
    }
}

pub open spec fn lex_before(x: int, y: int, i: int, j: int) -> bool {
    x < i || (x == i && y < j)
}

/// `(i, j)` starts a longest non-empty run, and no run as long starts
/// earlier in (left, right) order.
pub open spec fn is_first_longest_run<C>(a: Seq<TokenWindow<C>>, b: Seq<TokenWindow<C>>, tol: int, i: int, j: int) -> bool {
    &&& 0 <= i < a.len()
    &&& 0 <= j < b.len()
    &&& run_len(a, b, tol, i, j) > 0
    &&& forall|x: int, y: int| 0 <= x < a.len() && 0 <= y < b.len()
        ==> #[trigger] run_len(a, b, tol, x, y) <= run_len(a, b, tol, i, j)
    &&& forall|x: int, y: int| 0 <= x < a.len() && 0 <= y < b.len() && lex_before(x, y, i, j)
        ==> #[trigger] run_len(a, b, tol, x, y) < run_len(a, b, tol, i, j)
}

/// The index pairs of the first longest run of matching windows, or nothing
/// when no pair matches.
pub open spec fn contiguous_matches<C>(a: Seq<TokenWindow<C>>, b: Seq<TokenWindow<C>>, tol: int) -> Seq<(int, int)> {
    if exists|i: int, j: int| is_first_longest_run(a, b, tol, i, j) {
        let (i, j) = choose|i: int, j: int| is_first_longest_run(a, b, tol, i, j);
        Seq::new(run_len(a, b, tol, i, j) as nat, |k: int| (i + k, j + k))
    } else {
        Seq::empty()
    }
}

proof fn lemma_run_len_bound<C>(a: Seq<TokenWindow<C>>, b: Seq<TokenWindow<C>>, tol: int, i: int, j: int)
    requires
        0 <= i,
        0 <= j,
    ensures
        0 <= run_len(a, b, tol, i, j),
        i <= a.len() ==> run_len(a, b, tol, i, j) <= a.len() - i,
        j <= b.len() ==> run_len(a, b, tol, i, j) <= b.len() - j,
    decreases a.len() - i,
{
    if 0 <= i < a.len() && 0 <= j < b.len() && windows_match(a[i], b[j], tol) {
        lemma_run_len_bound(a, b, tol, i + 1, j + 1);
    }
}

proof fn lemma_first_longest_unique<C>(a: Seq<TokenWindow<C>>, b: Seq<TokenWindow<C>>, tol: int, i: int, j: int, x: int, y: int)
    requires
        is_first_longest_run(a, b, tol, i, j),
        is_first_longest_run(a, b, tol, x, y),
    ensures
        i == x && j == y,
{
    if lex_before(x, y, i, j) {
        assert(run_len(a, b, tol, x, y) < run_len(a, b, tol, i, j));
        assert(run_len(a, b, tol, i, j) <= run_len(a, b, tol, x, y));
    } else if lex_before(i, j, x, y) {
        assert(run_len(a, b, tol, i, j) < run_len(a, b, tol, x, y));
        assert(run_len(a, b, tol, x, y) <= run_len(a, b, tol, i, j));
    }
}

/// The index pairs of the first longest run of matching windows, scanning
/// start positions in (left, right) order.
pub fn contiguous_token_matches<C: Copy>(left: &[TokenWindow<C>], right: &[TokenWindow<C>], tolerance_frames: usize) -> (r: Vec<(usize, usize)>)
    ensures
        r@.map_values(|q: (usize, usize)| (q.0 as int, q.1 as int)) == contiguous_matches(left@, right@, tolerance_frames as int),
{
    let ghost a = left@;
    let ghost b = right@;
    let ghost tol = tolerance_frames as int;
    let mut best_i: usize = 0;
    let mut best_j: usize = 0;
    let mut best_len: usize = 0;
    let mut ls: usize = 0;
    while ls < left.len()
        invariant
            ls <= left.len(),
            a == left@,
            b == right@,
            tol == tolerance_frames as int,
            forall|x: int, y: int| 0 <= x < ls && 0 <= y < b.len() ==> #[trigger] run_len(a, b, tol, x, y) <= best_len,
            best_len > 0 ==> best_i < ls && best_j < b.len() && run_len(a, b, tol, best_i as int, best_j as int) == best_len
                && forall|x: int, y: int| 0 <= x < a.len() && 0 <= y < b.len() && lex_before(x, y, best_i as int, best_j as int)
                    ==> #[trigger] run_len(a, b, tol, x, y) < best_len,
        decreases left.len() - ls,
    {
        let mut rs: usize = 0;
        while rs < right.len()
            invariant
                ls < left.len(),
                rs <= right.len(),
                a == left@,
                b == right@,
                tol == tolerance_frames as int,
                forall|x: int, y: int| 0 <= x < a.len() && 0 <= y < b.len() && lex_before(x, y, ls as int, rs as int)
                    ==> #[trigger] run_len(a, b, tol, x, y) <= best_len,
                best_len > 0 ==> lex_before(best_i as int, best_j as int, ls as int, rs as int) && best_i < a.len() && best_j < b.len()
                    && run_len(a, b, tol, best_i as int, best_j as int) == best_len
                    && forall|x: int, y: int| 0 <= x < a.len() && 0 <= y < b.len() && lex_before(x, y, best_i as int, best_j as int)
                        ==> #[trigger] run_len(a, b, tol, x, y) < best_len,
            decreases right.len() - rs,
        {
            let mut len: usize = 0;
            proof {
                lemma_run_len_bound(a, b, tol, ls as int, rs as int);
            }
            while ls + len < left.len() && rs + len < right.len()
                && token_windows_match(&left[ls + len], &right[rs + len], tolerance_frames)
                invariant
                    ls < left.len(),
                    rs < right.len(),
                    a == left@,
                    b == right@,
                    tol == tolerance_frames as int,
                    len <= left.len() - ls,
                    len <= right.len() - rs,
                    run_len(a, b, tol, ls as int, rs as int) == len + run_len(a, b, tol, ls + len, rs + len),
                decreases left.len() - ls - len,
            {
                len = len + 1;
            }
            assert(run_len(a, b, tol, ls + len, rs + len) == 0);
            if len > best_len {
                best_len = len;
                best_i = ls;
                best_j = rs;
            }
            proof {
                assert forall|x: int, y: int| 0 <= x < a.len() && 0 <= y < b.len() && lex_before(x, y, ls as int, rs + 1)
                    implies #[trigger] run_len(a, b, tol, x, y) <= best_len by {
                    if x == ls && y == rs {
                    } else {
                        assert(lex_before(x, y, ls as int, rs as int));
                    }
                }
            }
            rs = rs + 1;
        }
        ls = ls + 1;
    }
    proof {
        if best_len > 0 {
            lemma_run_len_bound(a, b, tol, best_i as int, best_j as int);
        }
    }
    let mut out: Vec<(usize, usize)> = Vec::new();
    let mut k: usize = 0;
    while k < best_len
        invariant
            k <= best_len,
            best_len > 0 ==> best_i + best_len <= left.len() && best_j + best_len <= right.len(),
            out@.len() == k,
            forall|t: int| 0 <= t < k ==> #[trigger] out@[t] == ((best_i + t) as usize, (best_j + t) as usize),
        decreases best_len - k,
    {
        out.push((best_i + k, best_j + k));
        k = k + 1;
    }
    proof {
        let target = contiguous_matches(a, b, tol);
        if best_len > 0 {
            assert(is_first_longest_run(a, b, tol, best_i as int, best_j as int));
            let (ci, cj) = choose|i: int, j: int| is_first_longest_run(a, b, tol, i, j);
            lemma_first_longest_unique(a, b, tol, best_i as int, best_j as int, ci, cj);
            assert(out@.map_values(|q: (usize, usize)| (q.0 as int, q.1 as int)) =~= target);
        } else {
            assert forall|i: int, j: int| !is_first_longest_run(a, b, tol, i, j) by {
                if 0 <= i < a.len() && 0 <= j < b.len() {
                    assert(run_len(a, b, tol, i, j) <= 0);
                }
            }
            assert(out@.map_values(|q: (usize, usize)| (q.0 as int, q.1 as int)) =~= target);
        }
    }
    out
}

// ------------------------------------------- longest common subsequence

/// Length of a longest common subsequence of matching windows of
/// `a[i..]` and `b[j..]`.
pub open spec fn lcs_len<C>(a: Seq<TokenWindow<C>>, b: Seq<TokenWindow<C>>, tol: int, i: int, j: int) -> int
    decreases a.len() - i + b.len() - j,
{
    if i < 0 || j < 0 || i >= a.len() || j >= b.len() {
        0
    } else if windows_match(a[i], b[j], tol) {
        1 + lcs_len(a, b, tol, i + 1, j + 1)
    } else if lcs_len(a, b, tol, i + 1, j) >= lcs_len(a, b, tol, i, j + 1) {
        lcs_len(a, b, tol, i + 1, j)
    } else {
        lcs_len(a, b, tol, i, j + 1)
    }
}

/// The common subsequence read back from the table of `lcs_len`: a match is
/// taken as soon as it is seen; on a tie the left window is skipped first.
pub open spec fn lcs_path<C>(a: Seq<TokenWindow<C>>, b: Seq<TokenWindow<C>>, tol: int, i: int, j: int) -> Seq<(int, int)>
    decreases a.len() - i + b.len() - j,
{
    if i < 0 || j < 0 || i >= a.len() || j >= b.len() {
        Seq::empty()
    } else if windows_match(a[i], b[j], tol) {
        seq![(i, j)] + lcs_path(a, b, tol, i + 1, j + 1)
    } else if lcs_len(a, b, tol, i + 1, j) >= lcs_len(a, b, tol, i, j + 1) {
        lcs_path(a, b, tol, i + 1, j)
    } else {
        lcs_path(a, b, tol, i, j + 1)
    }
}

proof fn lemma_lcs_len_bound<C>(a: Seq<TokenWindow<C>>, b: Seq<TokenWindow<C>>, tol: int, i: int, j: int)
    requires
        0 <= i <= a.len(),
        0 <= j <= b.len(),
    ensures
        0 <= lcs_len(a, b, tol, i, j) <= a.len() - i,
    decreases a.len() - i + b.len() - j,
{
    if i < a.len() && j < b.len() {
        lemma_lcs_len_bound(a, b, tol, i + 1, j + 1);
        lemma_lcs_len_bound(a, b, tol, i + 1, j);
        lemma_lcs_len_bound(a, b, tol, i, j + 1);
    }
}

/// The table row `dp[i][..]` as values of `lcs_len`.
pub open spec fn is_lcs_row<C>(a: Seq<TokenWindow<C>>, b: Seq<TokenWindow<C>>, tol: int, i: int, row: Seq<usize>) -> bool {
    &&& row.len() == b.len() + 1
    &&& forall|j: int| 0 <= j <= b.len() ==> #[trigger] row[j] == lcs_len(a, b, tol, i, j)
}

fn lcs_row<C: Copy>(left: &[TokenWindow<C>], right: &[TokenWindow<C>], tolerance_frames: usize, i: usize, below: &Vec<usize>) -> (r: Vec<usize>)
    requires
        i < left.len(),
        is_lcs_row(left@, right@, tolerance_frames as int, i + 1, below@),
    ensures
        is_lcs_row(left@, right@, tolerance_frames as int, i as int, r@),
{
    let ghost a = left@;
    let ghost b = right@;
    let ghost tol = tolerance_frames as int;
    let m = right.len();
    let mut row: Vec<usize> = Vec::new();
    row.push(0);
    let mut k: usize = 0;
    while k < m
        invariant
            k <= m,
            m == right.len(),
            row@.len() == k + 1,
            forall|t: int| 0 <= t <= k ==> #[trigger] row@[t] == 0,
        decreases m - k,
    {
        row.push(0);
        k = k + 1;
    }
    assert(row@[m as int] == lcs_len(a, b, tol, i as int, m as int));
    let mut j: usize = m;
    while j > 0
        invariant
            j <= m,
            m == right.len(),
            i < left.len(),
            a == left@,
            b == right@,
            tol == tolerance_frames as int,
            is_lcs_row(a, b, tol, i + 1, below@),
            row@.len() == m + 1,
            forall|t: int| j <= t <= m ==> #[trigger] row@[t] == lcs_len(a, b, tol, i as int, t),
        decreases j,
    {
        j = j - 1;
        proof {
            lemma_lcs_len_bound(a, b, tol, i + 1, j + 1);
        }
        let v = if token_windows_match(&left[i], &right[j], tolerance_frames) {
            1 + below[j + 1]
        } else if below[j] >= row[j + 1] {
            below[j]
        } else {
            row[j + 1]
        };
        row.set(j, v);
    }
    row
}

/// Index pairs of a longest common subsequence of matching windows, read
/// back from a dynamic-programming table.
pub fn lcs_token_matches<C: Copy>(left: &[TokenWindow<C>], right: &[TokenWindow<C>], tolerance_frames: usize) -> (r: Vec<(usize, usize)>)
    ensures
        r@.map_values(|q: (usize, usize)| (q.0 as int, q.1 as int)) == lcs_path(left@, right@, tolerance_frames as int, 0, 0),
{
    let ghost a = left@;
    let ghost b = right@;
    let ghost tol = tolerance_frames as int;
    let n = left.len();
    let m = right.len();
    // rows[k] is the table row for `i == n - k`.
    let mut rows: Vec<Vec<usize>> = Vec::new();
    let mut last: Vec<usize> = Vec::new();
    last.push(0);
    let mut k: usize = 0;
    while k < m
        invariant
            k <= m,
            m == right.len(),
            last@.len() == k + 1,
            forall|t: int| 0 <= t <= k ==> #[trigger] last@[t] == 0,
        decreases m - k,
    {
        last.push(0);
        k = k + 1;
    }
    assert(is_lcs_row(a, b, tol, n as int, last@));
    let mut i: usize = n;
    let mut below = last;
    while i > 0
        invariant
            i <= n,
            n == left.len(),
            a == left@,
            b == right@,
            tol == tolerance_frames as int,
            is_lcs_row(a, b, tol, i as int, below@),
            rows@.len() == n - i,
            forall|t: int| 0 <= t < rows@.len() ==> is_lcs_row(a, b, tol, n - t, #[trigger] rows@[t]@),
        decreases i,
    {
        i = i - 1;
        let row = lcs_row(left, right, tolerance_frames, i, &below);
        rows.push(below);
        below = row;
    }
    rows.push(below);
    assert(forall|t: int| 0 <= t < rows@.len() ==> is_lcs_row(a, b, tol, n - t, #[trigger] rows@[t]@));
    let mut out: Vec<(usize, usize)> = Vec::new();
    let mut x: usize = 0;
    let mut y: usize = 0;
    while x < n && y < m
        invariant
            x <= n,
            y <= m,
            n == left.len(),
            m == right.len(),
            a == left@,
            b == right@,
            tol == tolerance_frames as int,
            rows@.len() == n + 1,
            forall|t: int| 0 <= t < rows@.len() ==> is_lcs_row(a, b, tol, n - t, #[trigger] rows@[t]@),
            lcs_path(a, b, tol, 0, 0) == out@.map_values(|q: (usize, usize)| (q.0 as int, q.1 as int)) + lcs_path(a, b, tol, x as int, y as int),
        decreases n - x + m - y,
    {
        let ghost before = out@.map_values(|q: (usize, usize)| (q.0 as int, q.1 as int));
        if token_windows_match(&left[x], &right[y], tolerance_frames) {
            out.push((x, y));
            proof {
                assert(out@.map_values(|q: (usize, usize)| (q.0 as int, q.1 as int)) =~= before.push((x as int, y as int)));
                assert(seq![(x as int, y as int)] + lcs_path(a, b, tol, x + 1, y + 1) =~= lcs_path(a, b, tol, x as int, y as int));
                assert(before + lcs_path(a, b, tol, x as int, y as int) =~= before.push((x as int, y as int)) + lcs_path(a, b, tol, x + 1, y + 1));
            }
            x = x + 1;
            y = y + 1;
        } else {
            assert(is_lcs_row(a, b, tol, n - (n - x - 1), rows@[(n - x - 1) as int]@));
            assert(is_lcs_row(a, b, tol, n - (n - x), rows@[(n - x) as int]@));
            if rows[n - x - 1][y] >= rows[n - x][y + 1] {
                x = x + 1;
            } else {
                y = y + 1;
            }
        }
    }
    proof {
        assert(lcs_path(a, b, tol, x as int, y as int) =~= Seq::<(int, int)>::empty());
        assert(out@.map_values(|q: (usize, usize)| (q.0 as int, q.1 as int)) + Seq::<(int, int)>::empty()
            =~= out@.map_values(|q: (usize, usize)| (q.0 as int, q.1 as int)));
    }
    out
}

// ---------------------------------------------------------------- merging

/// The windows of `s` that start before frame `cutoff`, in order.
pub open spec fn starting_before<C>(s: Seq<TokenWindow<C>>, cutoff: int) -> Seq<TokenWindow<C>>
    decreases s.len(),
{
    if s.len() == 0 {
        s
    } else if s.last().timestamp < cutoff {
        starting_before(s.drop_last(), cutoff).push(s.last())
    } else {
        starting_before(s.drop_last(), cutoff)
    }
}

/// The windows of `s` that start at frame `cutoff` or later, in order.
pub open spec fn starting_from<C>(s: Seq<TokenWindow<C>>, cutoff: int) -> Seq<TokenWindow<C>>
    decreases s.len(),
{
    if s.len() == 0 {
        s
    } else if s.last().timestamp >= cutoff {
        starting_from(s.drop_last(), cutoff).push(s.last())
    } else {
        starting_from(s.drop_last(), cutoff)
    }
}

/// Left windows before the midpoint of the overlap, right windows after it.
pub open spec fn midpoint_merge<C>(left: Seq<TokenWindow<C>>, right: Seq<TokenWindow<C>>, left_end: int, right_start: int) -> Seq<TokenWindow<C>> {
    let cutoff = (left_end + right_start) / 2;
    starting_before(left, cutoff) + starting_from(right, cutoff)
}

pub fn merge_token_windows_by_midpoint<C: Copy>(left: &[TokenWindow<C>], right: &[TokenWindow<C>], left_end: usize, right_start: usize) -> (r: Vec<TokenWindow<C>>)
    requires
        left_end + right_start <= usize::MAX,
    ensures
        r@ == midpoint_merge(left@, right@, left_end as int, right_start as int),
{
    let cutoff = (left_end + right_start) / 2;
    let mut out: Vec<TokenWindow<C>> = Vec::new();
    let mut i: usize = 0;
    while i < left.len()
        invariant
            i <= left.len(),
            cutoff == (left_end + right_start) / 2,
            out@ == starting_before(left@.take(i as int), cutoff as int),
        decreases left.len() - i,
    {
        assert(left@.take(i + 1).drop_last() =~= left@.take(i as int));
        if left[i].timestamp < cutoff {
            out.push(left[i]);
        }
        i = i + 1;
    }
    assert(left@.take(left.len() as int) =~= left@);
    let ghost head = out@;
    let mut j: usize = 0;
    while j < right.len()
        invariant
            j <= right.len(),
            cutoff == (left_end + right_start) / 2,
            out@ == head + starting_from(right@.take(j as int), cutoff as int),
        decreases right.len() - j,
    {
        assert(right@.take(j + 1).drop_last() =~= right@.take(j as int));
        if right[j].timestamp >= cutoff {
            out.push(right[j]);
            assert(out@ =~= head + starting_from(right@.take(j + 1), cutoff as int));
        }
        j = j + 1;
    }
    assert(right@.take(right.len() as int) =~= right@);
    out
}

/// The windows strictly between positions `a` and `b` of `s`.
pub open spec fn gap_between<C>(s: Seq<TokenWindow<C>>, a: int, b: int) -> Seq<TokenWindow<C>> {
    if b > a + 1 { s.subrange(a + 1, b) } else { Seq::empty() }
}

/// The output for the `k`-th matched pair: the left window, then the longer
/// of the two gaps before the next pair (the left one on a tie).
pub open spec fn match_piece<C>(left: Seq<TokenWindow<C>>, right: Seq<TokenWindow<C>>, li: Seq<int>, ri: Seq<int>, k: int) -> Seq<TokenWindow<C>> {
    seq![left[li[k]]] + (if k + 1 < li.len() {
        let gl = gap_between(left, li[k], li[k + 1]);
        let gr = gap_between(right, ri[k], ri[k + 1]);
        if gr.len() > gl.len() { gr } else { gl }
    } else {
        Seq::empty()
    })
}

/// The pieces of the first `n` matched pairs.
pub open spec fn match_pieces<C>(left: Seq<TokenWindow<C>>, right: Seq<TokenWindow<C>>, li: Seq<int>, ri: Seq<int>, n: int) -> Seq<TokenWindow<C>>
    decreases n,
{
    if n <= 0 {
        Seq::empty()
    } else {
        match_pieces(left, right, li, ri, n - 1) + match_piece(left, right, li, ri, n - 1)
    }
}

/// Left windows before the first match, the matched pieces, and the right
/// windows after the last match. `li` and `ri` hold the matched positions
/// in `left` and `right`.
pub open spec fn merged_by_matches<C>(left: Seq<TokenWindow<C>>, right: Seq<TokenWindow<C>>, li: Seq<int>, ri: Seq<int>) -> Seq<TokenWindow<C>> {
    (if li.len() > 0 { left.take(li[0]) } else { Seq::empty() })
        + match_pieces(left, right, li, ri, li.len() as int)
        + (if ri.len() > 0 && ri.last() + 1 < right.len() { right.skip(ri.last() + 1) } else { Seq::empty() })
}

/// Positions in `left` of the matched overlap windows.
pub open spec fn matched_positions(matches: Seq<(usize, usize)>, overlap: Seq<usize>, first: bool) -> Seq<int> {
    Seq::new(matches.len(), |k: int| (if first { overlap[matches[k].0 as int] } else { overlap[matches[k].1 as int] }) as int)
}

fn push_range<C: Copy>(out: &mut Vec<TokenWindow<C>>, s: &[TokenWindow<C>], from: usize, to: usize)
    requires
        from <= to <= s.len(),
    ensures
        final(out)@ == old(out)@ + s@.subrange(from as int, to as int),
{
    let ghost start = out@;
    let mut i: usize = from;
    while i < to
        invariant
            from <= i <= to,
            to <= s.len(),
            out@ == start + s@.subrange(from as int, i as int),
        decreases to - i,
    {
        out.push(s[i]);
        assert(s@.subrange(from as int, i + 1) =~= s@.subrange(from as int, i as int).push(s@[i as int]));
        i = i + 1;
    }
}

/// Merges two decodes along matched pairs. `matches` pairs positions of
/// `overlap_left` and `overlap_right`, which hold positions in `left` and
/// `right`.
pub fn merge_token_windows_using_matches<C: Copy>(
    matches: &[(usize, usize)],
    overlap_left: &[usize],
    overlap_right: &[usize],
    left: &[TokenWindow<C>],
    right: &[TokenWindow<C>],
) -> (r: Vec<TokenWindow<C>>)
    requires
        forall|k: int| 0 <= k < matches.len() ==> (#[trigger] matches@[k]).0 < overlap_left.len() && matches@[k].1 < overlap_right.len(),
        forall|t: int| 0 <= t < overlap_left.len() ==> #[trigger] overlap_left@[t] < left.len(),
        forall|t: int| 0 <= t < overlap_right.len() ==> #[trigger] overlap_right@[t] < right.len(),
    ensures
        r@ == merged_by_matches(left@, right@, matched_positions(matches@, overlap_left@, true),
            matched_positions(matches@, overlap_right@, false)),
{
    let ghost li = matched_positions(matches@, overlap_left@, true);
    let ghost ri = matched_positions(matches@, overlap_right@, false);
    let n = matches.len();
    assert forall|q: int| 0 <= q < n implies #[trigger] li[q] < left.len() && ri[q] < right.len() by {
        assert(matches@[q].0 < overlap_left.len());
        assert(matches@[q].1 < overlap_right.len());
    }
    let mut result: Vec<TokenWindow<C>> = Vec::new();
    if n > 0 {
        push_range(&mut result, left, 0, overlap_left[matches[0].0]);
        assert(left@.subrange(0, li[0]) =~= left@.take(li[0]));
    }
    let ghost head = result@;
    let mut idx: usize = 0;
    while idx < n
        invariant
            idx <= n,
            n == matches.len(),
            n == li.len(),
            n == ri.len(),
            li == matched_positions(matches@, overlap_left@, true),
            ri == matched_positions(matches@, overlap_right@, false),
            forall|q: int| 0 <= q < n ==> (#[trigger] matches@[q]).0 < overlap_left.len() && matches@[q].1 < overlap_right.len(),
            forall|q: int| 0 <= q < n ==> #[trigger] li[q] < left.len() && ri[q] < right.len(),
            result@ == head + match_pieces(left@, right@, li, ri, idx as int),
        decreases n - idx,
    {
        let left_index = overlap_left[matches[idx].0];
        let right_index = overlap_right[matches[idx].1];
        assert(left_index == li[idx as int] && right_index == ri[idx as int]);
        let ghost before = result@;
        result.push(left[left_index]);
        if idx + 1 < n {
            let next_left_index = overlap_left[matches[idx + 1].0];
            let next_right_index = overlap_right[matches[idx + 1].1];
            assert(next_left_index == li[idx + 1] && next_right_index == ri[idx + 1]);
            let gap_left: usize = if next_left_index > left_index + 1 { next_left_index - left_index - 1 } else { 0 };
            let gap_right: usize = if next_right_index > right_index + 1 { next_right_index - right_index - 1 } else { 0 };
            if gap_right > gap_left {
                push_range(&mut result, right, right_index + 1, next_right_index);
            } else if gap_left > 0 {
                push_range(&mut result, left, left_index + 1, next_left_index);
            }
        }
        proof {
            let piece = match_piece(left@, right@, li, ri, idx as int);
            assert(result@ =~= before + piece);
            assert(match_pieces(left@, right@, li, ri, idx + 1) == match_pieces(left@, right@, li, ri, idx as int) + piece);
            assert(result@ =~= head + match_pieces(left@, right@, li, ri, idx + 1));
        }
        idx = idx + 1;
    }
    if n > 0 {
        let last_right = overlap_right[matches[n - 1].1];
        assert(last_right == ri[n - 1]);
        if last_right + 1 < right.len() {
            push_range(&mut result, right, last_right + 1, right.len());
            assert(right@.subrange(last_right + 1, right.len() as int) =~= right@.skip(last_right + 1));
        }
    }
    proof {
        assert(result@ =~= merged_by_matches(left@, right@, li, ri));
    }
    result
}

/// Positions of the windows that end after frame `threshold`.
pub open spec fn ending_after<C>(s: Seq<TokenWindow<C>>, threshold: int) -> Seq<int>
    decreases s.len(),
{
    if s.len() == 0 {
        Seq::empty()
    } else if window_end(s.last()) > threshold {
        ending_after(s.drop_last(), threshold).push(s.len() - 1)
    } else {
        ending_after(s.drop_last(), threshold)
    }
}

/// Positions of the windows that start before frame `threshold`.
pub open spec fn beginning_before<C>(s: Seq<TokenWindow<C>>, threshold: int) -> Seq<int>
    decreases s.len(),
{
    if s.len() == 0 {
        Seq::empty()
    } else if (s.last().timestamp as int) < threshold {
        beginning_before(s.drop_last(), threshold).push(s.len() - 1)
    } else {
        beginning_before(s.drop_last(), threshold)
    }
}

/// The windows of `s` at `positions`.
pub open spec fn at_positions<C>(s: Seq<TokenWindow<C>>, positions: Seq<int>) -> Seq<TokenWindow<C>> {
    Seq::new(positions.len(), |k: int| s[positions[k]])
}

/// Positions in the whole decode of matched overlap pairs.
pub open spec fn through(pairs: Seq<(int, int)>, positions: Seq<int>, first: bool) -> Seq<int> {
    Seq::new(pairs.len(), |k: int| if first { positions[pairs[k].0] } else { positions[pairs[k].1] })
}

/// Two decodes merged into one token sequence. Disjoint decodes are
/// concatenated. Otherwise the overlapping windows are matched (same token,
/// start frames closer than half the overlap): the first longest contiguous
/// run when it covers half the left overlap, else a longest common
/// subsequence; with no match, or fewer than two overlapping windows on a
/// side, the overlap is cut at its midpoint.
pub open spec fn merged_windows<C>(left: Seq<TokenWindow<C>>, right: Seq<TokenWindow<C>>, overlap: int) -> Seq<TokenWindow<C>> {
    if left.len() == 0 {
        right
    } else if right.len() == 0 {
        left
    } else {
        let left_end = window_end(left.last());
        let right_start = right[0].timestamp as int;
        if left_end <= right_start {
            left + right
        } else {
            let tol = if overlap / 2 >= 1 { overlap / 2 } else { 1 };
            let ol = ending_after(left, sat_sub(right_start, overlap));
            let or = beginning_before(right, sat_add(left_end, overlap));
            if ol.len() < 2 || or.len() < 2 {
                midpoint_merge(left, right, left_end, right_start)
            } else {
                let la = at_positions(left, ol);
                let ra = at_positions(right, or);
                let minimum = if ol.len() / 2 >= 1 { ol.len() / 2 } else { 1 };
                let contiguous = contiguous_matches(la, ra, tol);
                if contiguous.len() >= minimum {
                    merged_by_matches(left, right, through(contiguous, ol, true), through(contiguous, or, false))
                } else {
                    let common = lcs_path(la, ra, tol, 0, 0);
                    if common.len() == 0 {
                        midpoint_merge(left, right, left_end, right_start)
                    } else {
                        merged_by_matches(left, right, through(common, ol, true), through(common, or, false))
                    }
                }
            }
        }
    }
}

proof fn lemma_contiguous_in_range<C>(a: Seq<TokenWindow<C>>, b: Seq<TokenWindow<C>>, tol: int)
    ensures
        forall|k: int| 0 <= k < contiguous_matches(a, b, tol).len() ==> 0 <= (#[trigger] contiguous_matches(a, b, tol)[k]).0 < a.len()
            && 0 <= contiguous_matches(a, b, tol)[k].1 < b.len(),
{
    if exists|i: int, j: int| is_first_longest_run(a, b, tol, i, j) {
        let (i, j) = choose|i: int, j: int| is_first_longest_run(a, b, tol, i, j);
        lemma_run_len_bound(a, b, tol, i, j);
    }
}

proof fn lemma_lcs_path_in_range<C>(a: Seq<TokenWindow<C>>, b: Seq<TokenWindow<C>>, tol: int, i: int, j: int)
    requires
        0 <= i,
        0 <= j,
    ensures
        forall|k: int| 0 <= k < lcs_path(a, b, tol, i, j).len() ==> i <= (#[trigger] lcs_path(a, b, tol, i, j)[k]).0 < a.len()
            && j <= lcs_path(a, b, tol, i, j)[k].1 < b.len(),
    decreases a.len() - i + b.len() - j,
{
    if i < a.len() && j < b.len() {
        lemma_lcs_path_in_range(a, b, tol, i + 1, j + 1);
        lemma_lcs_path_in_range(a, b, tol, i + 1, j);
        lemma_lcs_path_in_range(a, b, tol, i, j + 1);
        if windows_match(a[i], b[j], tol) {
            let p = lcs_path(a, b, tol, i, j);
            assert(p == seq![(i, j)] + lcs_path(a, b, tol, i + 1, j + 1));
            assert forall|k: int| 0 <= k < p.len() implies i <= (#[trigger] p[k]).0 < a.len() && j <= p[k].1 < b.len() by {
                if k > 0 {
                    assert(p[k] == lcs_path(a, b, tol, i + 1, j + 1)[k - 1]);
                }
            }
        } else if lcs_len(a, b, tol, i + 1, j) >= lcs_len(a, b, tol, i, j + 1) {
            assert(lcs_path(a, b, tol, i, j) == lcs_path(a, b, tol, i + 1, j));
        } else {
            assert(lcs_path(a, b, tol, i, j) == lcs_path(a, b, tol, i, j + 1));
        }
    }
}

fn collect_overlap<C: Copy>(s: &[TokenWindow<C>], is_left: bool, bound: usize) -> (r: (Vec<usize>, Vec<TokenWindow<C>>))
    ensures
        is_left ==> r.0@.map_values(|x: usize| x as int) == ending_after(s@, bound as int),
        !is_left ==> r.0@.map_values(|x: usize| x as int) == beginning_before(s@, bound as int),
        r.1@ == at_positions(s@, r.0@.map_values(|x: usize| x as int)),
        forall|t: int| 0 <= t < r.0@.len() ==> #[trigger] r.0@[t] < s.len(),
{
    let mut positions: Vec<usize> = Vec::new();
    let mut windows: Vec<TokenWindow<C>> = Vec::new();
    let mut i: usize = 0;
    while i < s.len()
        invariant
            i <= s.len(),
            is_left ==> positions@.map_values(|x: usize| x as int) == ending_after(s@.take(i as int), bound as int),
            !is_left ==> positions@.map_values(|x: usize| x as int) == beginning_before(s@.take(i as int), bound as int),
            windows@ == at_positions(s@, positions@.map_values(|x: usize| x as int)),
            forall|t: int| 0 <= t < positions@.len() ==> #[trigger] positions@[t] < i,
        decreases s.len() - i,
    {
        assert(s@.take(i + 1).drop_last() =~= s@.take(i as int));
        let w = s[i];
        let end: usize = if w.duration == 0 {
            if w.timestamp < usize::MAX { w.timestamp + 1 } else { usize::MAX }
        } else if w.timestamp <= usize::MAX - w.duration {
            w.timestamp + w.duration
        } else {
            usize::MAX
        };
        let keep = if is_left { end > bound } else { w.timestamp < bound };
        if keep {
            let ghost before = positions@;
            positions.push(i);
            windows.push(w);
            assert(positions@.map_values(|x: usize| x as int) =~= before.map_values(|x: usize| x as int).push(i as int));
        }
        assert(windows@ =~= at_positions(s@, positions@.map_values(|x: usize| x as int)));
        i = i + 1;
    }
    assert(s@.take(s.len() as int) =~= s@);
    (positions, windows)
}

fn copy_windows<C: Copy>(s: &[TokenWindow<C>]) -> (r: Vec<TokenWindow<C>>)
    ensures
        r@ == s@,
{
    let mut out: Vec<TokenWindow<C>> = Vec::new();
    push_range(&mut out, s, 0, s.len());
    assert(s@.subrange(0, s.len() as int) =~= s@);
    out
}

fn end_frame<C>(w: &TokenWindow<C>) -> (r: usize)
    ensures
        r == window_end(*w),
{
    if w.duration == 0 {
        if w.timestamp < usize::MAX { w.timestamp + 1 } else { usize::MAX }
    } else if w.timestamp <= usize::MAX - w.duration {
        w.timestamp + w.duration
    } else {
        usize::MAX
    }
}

/// Merges the token windows of two decodes whose audio may overlap by
/// `overlap_frames` encoder frames.
pub fn merge_token_windows<C: Copy>(left: &[TokenWindow<C>], right: &[TokenWindow<C>], overlap_frames: usize) -> (r: Vec<TokenWindow<C>>)
    requires
        left.len() > 0 && right.len() > 0 ==> window_end(left@.last()) + right@[0].timestamp <= usize::MAX,
    ensures
        r@ == merged_windows(left@, right@, overlap_frames as int),
{
    if left.len() == 0 {
        return copy_windows(right);
    }
    if right.len() == 0 {
        return copy_windows(left);
    }
    let left_end = end_frame(&left[left.len() - 1]);
    let right_start = right[0].timestamp;
    if left_end <= right_start {
        let mut out = copy_windows(left);
        push_range(&mut out, right, 0, right.len());
        assert(right@.subrange(0, right.len() as int) =~= right@);
        return out;
    }
    let tolerance: usize = if overlap_frames / 2 >= 1 { overlap_frames / 2 } else { 1 };
    let left_bound: usize = if right_start >= overlap_frames { right_start - overlap_frames } else { 0 };
    let right_bound: usize = if left_end <= usize::MAX - overlap_frames { left_end + overlap_frames } else { usize::MAX };
    let (overlap_left, left_windows) = collect_overlap(left, true, left_bound);
    let (overlap_right, right_windows) = collect_overlap(right, false, right_bound);
    let ghost ol = overlap_left@.map_values(|x: usize| x as int);
    let ghost or = overlap_right@.map_values(|x: usize| x as int);
    if overlap_left.len() < 2 || overlap_right.len() < 2 {
        return merge_token_windows_by_midpoint(left, right, left_end, right_start);
    }
    let minimum_pairs: usize = if overlap_left.len() / 2 >= 1 { overlap_left.len() / 2 } else { 1 };
    let contiguous = contiguous_token_matches(left_windows.as_slice(), right_windows.as_slice(), tolerance);
    proof {
        lemma_contiguous_in_range(left_windows@, right_windows@, tolerance as int);
    }
    let ghost cp = contiguous@.map_values(|q: (usize, usize)| (q.0 as int, q.1 as int));
    if contiguous.len() >= minimum_pairs {
        assert forall|k: int| 0 <= k < contiguous.len() implies (#[trigger] contiguous@[k]).0 < overlap_left.len()
            && contiguous@[k].1 < overlap_right.len() by {
            assert(cp[k].0 == contiguous@[k].0);
        }
        let r = merge_token_windows_using_matches(contiguous.as_slice(), overlap_left.as_slice(), overlap_right.as_slice(), left, right);
        proof {
            assert(matched_positions(contiguous@, overlap_left@, true) =~= through(cp, ol, true));
            assert(matched_positions(contiguous@, overlap_right@, false) =~= through(cp, or, false));
        }
        return r;
    }
    let common = lcs_token_matches(left_windows.as_slice(), right_windows.as_slice(), tolerance);
    let ghost lp = common@.map_values(|q: (usize, usize)| (q.0 as int, q.1 as int));
    proof {
        lemma_lcs_path_in_range(left_windows@, right_windows@, tolerance as int, 0, 0);
    }
    if common.len() == 0 {
        return merge_token_windows_by_midpoint(left, right, left_end, right_start);
    }
    assert forall|k: int| 0 <= k < common.len() implies (#[trigger] common@[k]).0 < overlap_left.len()
        && common@[k].1 < overlap_right.len() by {
        assert(lp[k].0 == common@[k].0);
    }
    let r = merge_token_windows_using_matches(common.as_slice(), overlap_left.as_slice(), overlap_right.as_slice(), left, right);
    proof {
        assert(matched_positions(common@, overlap_left@, true) =~= through(lp, ol, true));
        assert(matched_positions(common@, overlap_right@, false) =~= through(lp, or, false));
    }
    r
}

// ------------------------------------------------------------ bounds

/// Every window ends by frame `limit`.
pub open spec fn windows_bounded<C>(s: Seq<TokenWindow<C>>, limit: int) -> bool {
    forall|k: int| 0 <= k < s.len() ==> (#[trigger] s[k]).timestamp + span_frames(s[k].duration) <= limit
}

proof fn lemma_starting_bounded<C>(s: Seq<TokenWindow<C>>, cutoff: int, limit: int)
    requires
        windows_bounded(s, limit),
    ensures
        windows_bounded(starting_before(s, cutoff), limit),
        windows_bounded(starting_from(s, cutoff), limit),
    decreases s.len(),
{
    if s.len() > 0 {
        let d = s.drop_last();
        assert(windows_bounded(d, limit)) by {
            assert forall|k: int| 0 <= k < d.len() implies (#[trigger] d[k]).timestamp + span_frames(d[k].duration) <= limit by {
                assert(d[k] == s[k]);
            }
        }
        lemma_starting_bounded(d, cutoff, limit);
        let last = s.last();
        assert(last.timestamp + span_frames(last.duration) <= limit);
    }
}

proof fn lemma_positions_in_range<C>(s: Seq<TokenWindow<C>>, threshold: int)
    ensures
        forall|k: int| 0 <= k < ending_after(s, threshold).len() ==> 0 <= #[trigger] ending_after(s, threshold)[k] < s.len(),
        forall|k: int| 0 <= k < beginning_before(s, threshold).len() ==> 0 <= #[trigger] beginning_before(s, threshold)[k] < s.len(),
    decreases s.len(),
{
    if s.len() > 0 {
        let d = s.drop_last();
        lemma_positions_in_range(d, threshold);
        let ea = ending_after(s, threshold);
        let ed = ending_after(d, threshold);
        assert forall|k: int| 0 <= k < ea.len() implies 0 <= #[trigger] ea[k] < s.len() by {
            if k < ed.len() {
                assert(ea[k] == ed[k]);
            }
        }
        let ba = beginning_before(s, threshold);
        let bd = beginning_before(d, threshold);
        assert forall|k: int| 0 <= k < ba.len() implies 0 <= #[trigger] ba[k] < s.len() by {
            if k < bd.len() {
                assert(ba[k] == bd[k]);
            }
        }
    }
}

proof fn lemma_pieces_bounded<C>(left: Seq<TokenWindow<C>>, right: Seq<TokenWindow<C>>, li: Seq<int>, ri: Seq<int>, n: int, limit: int)
    requires
        windows_bounded(left, limit),
        windows_bounded(right, limit),
        n <= li.len(),
        li.len() == ri.len(),
        forall|k: int| 0 <= k < li.len() ==> 0 <= #[trigger] li[k] < left.len() && 0 <= ri[k] < right.len(),
    ensures
        windows_bounded(match_pieces(left, right, li, ri, n), limit),
    decreases n,
{
    if n > 0 {
        lemma_pieces_bounded(left, right, li, ri, n - 1, limit);
        let k = n - 1;
        let piece = match_piece(left, right, li, ri, k);
        assert(windows_bounded(piece, limit)) by {
            assert forall|t: int| 0 <= t < piece.len() implies (#[trigger] piece[t]).timestamp + span_frames(piece[t].duration) <= limit by {
                if t == 0 {
                    assert(piece[0] == left[li[k]]);
                } else if k + 1 < li.len() {
                    let gl = gap_between(left, li[k], li[k + 1]);
                    let gr = gap_between(right, ri[k], ri[k + 1]);
                    if gr.len() > gl.len() {
                        assert(piece[t] == gr[t - 1]);
                        assert(gr[t - 1] == right[ri[k] + t]);
                    } else {
                        assert(piece[t] == gl[t - 1]);
                        assert(gl[t - 1] == left[li[k] + t]);
                    }
                }
            }
        }
        let before = match_pieces(left, right, li, ri, n - 1);
        let all = match_pieces(left, right, li, ri, n);
        assert(all == before + piece);
        assert forall|t: int| 0 <= t < all.len() implies (#[trigger] all[t]).timestamp + span_frames(all[t].duration) <= limit by {
            if t < before.len() {
                assert(all[t] == before[t]);
            } else {
                assert(all[t] == piece[t - before.len()]);
            }
        }
    }
}

proof fn lemma_matches_bounded<C>(left: Seq<TokenWindow<C>>, right: Seq<TokenWindow<C>>, li: Seq<int>, ri: Seq<int>, limit: int)
    requires
        windows_bounded(left, limit),
        windows_bounded(right, limit),
        li.len() == ri.len(),
        forall|k: int| 0 <= k < li.len() ==> 0 <= #[trigger] li[k] < left.len() && 0 <= ri[k] < right.len(),
    ensures
        windows_bounded(merged_by_matches(left, right, li, ri), limit),
{
    lemma_pieces_bounded(left, right, li, ri, li.len() as int, limit);
    let head = if li.len() > 0 { left.take(li[0]) } else { Seq::empty() };
    let body = match_pieces(left, right, li, ri, li.len() as int);
    let tail = if ri.len() > 0 && ri.last() + 1 < right.len() { right.skip(ri.last() + 1) } else { Seq::empty() };
    let all = merged_by_matches(left, right, li, ri);
    assert(all == head + body + tail);
    assert forall|t: int| 0 <= t < all.len() implies (#[trigger] all[t]).timestamp + span_frames(all[t].duration) <= limit by {
        if t < head.len() {
            assert(all[t] == left[t]);
        } else if t < head.len() + body.len() {
            assert(all[t] == body[t - head.len()]);
        } else {
            assert(all[t] == tail[t - head.len() - body.len()]);
            assert(tail[t - head.len() - body.len()] == right[ri.last() + 1 + t - head.len() - body.len()]);
        }
    }
}

/// Merging keeps every window from one of the two decodes, so a frame bound
/// that holds of both inputs holds of the result.
pub proof fn lemma_merged_windows_bounded<C>(left: Seq<TokenWindow<C>>, right: Seq<TokenWindow<C>>, overlap: int, limit: int)
    requires
        windows_bounded(left, limit),
        windows_bounded(right, limit),
    ensures
        windows_bounded(merged_windows(left, right, overlap), limit),
{
    if left.len() == 0 || right.len() == 0 {
    } else {
        let left_end = window_end(left.last());
        let right_start = right[0].timestamp as int;
        if left_end <= right_start {
            let all = left + right;
            assert forall|t: int| 0 <= t < all.len() implies (#[trigger] all[t]).timestamp + span_frames(all[t].duration) <= limit by {
                if t < left.len() {
                    assert(all[t] == left[t]);
                } else {
                    assert(all[t] == right[t - left.len()]);
                }
            }
        } else {
            let tol = if overlap / 2 >= 1 { overlap / 2 } else { 1 };
            let ol = ending_after(left, sat_sub(right_start, overlap));
            let or = beginning_before(right, sat_add(left_end, overlap));
            let cutoff = (left_end + right_start) / 2;
            lemma_starting_bounded(left, cutoff, limit);
            lemma_starting_bounded(right, cutoff, limit);
            let mid = midpoint_merge(left, right, left_end, right_start);
            let sb = starting_before(left, cutoff);
            let sf = starting_from(right, cutoff);
            assert forall|t: int| 0 <= t < mid.len() implies (#[trigger] mid[t]).timestamp + span_frames(mid[t].duration) <= limit by {
                if t < sb.len() {
                    assert(mid[t] == sb[t]);
                } else {
                    assert(mid[t] == sf[t - sb.len()]);
                }
            }
            lemma_positions_in_range(left, sat_sub(right_start, overlap));
            lemma_positions_in_range(right, sat_add(left_end, overlap));
            if ol.len() >= 2 && or.len() >= 2 {
                let la = at_positions(left, ol);
                let ra = at_positions(right, or);
                let contiguous = contiguous_matches(la, ra, tol);
                lemma_contiguous_in_range(la, ra, tol);
                let cl = through(contiguous, ol, true);
                let cr = through(contiguous, or, false);
                assert forall|k: int| 0 <= k < cl.len() implies 0 <= #[trigger] cl[k] < left.len() && 0 <= cr[k] < right.len() by {
                    assert(0 <= contiguous[k].0 < ol.len());
                    assert(0 <= contiguous[k].1 < or.len());
                }
                lemma_matches_bounded(left, right, cl, cr, limit);
                let common = lcs_path(la, ra, tol, 0, 0);
                lemma_lcs_path_in_range(la, ra, tol, 0, 0);
                let ml = through(common, ol, true);
                let mr = through(common, or, false);
                assert forall|k: int| 0 <= k < ml.len() implies 0 <= #[trigger] ml[k] < left.len() && 0 <= mr[k] < right.len() by {
                    assert(0 <= common[k].0 < ol.len());
                    assert(0 <= common[k].1 < or.len());
                }
                lemma_matches_bounded(left, right, ml, mr, limit);
            }
        }
    }
}

// ------------------------------------------------------ decoder output

/// The windows of a decoder hypothesis: tokens paired with their frames and
/// scores while all three last, each with its duration or zero where the
/// durations run out.
pub open spec fn hypothesis_windows<C>(tokens: Seq<usize>, timestamps: Seq<usize>, confidences: Seq<C>, durations: Seq<usize>) -> Seq<TokenWindow<C>> {
    let n = if tokens.len() <= timestamps.len() && tokens.len() <= confidences.len() {
        tokens.len()
    } else if timestamps.len() <= confidences.len() {
        timestamps.len()
    } else {
        confidences.len()
    };
    Seq::new(n, |i: int| TokenWindow {
        token: tokens[i],
        timestamp: timestamps[i],
        confidence: confidences[i],
        duration: if i < durations.len() { durations[i] } else { 0 },
    })
}

pub fn hypothesis_token_windows<C: Copy>(tokens: &[usize], timestamps: &[usize], confidences: &[C], durations: &[usize]) -> (r: Vec<TokenWindow<C>>)
    ensures
        r@ == hypothesis_windows(tokens@, timestamps@, confidences@, durations@),
{
    let mut n = tokens.len();
    if timestamps.len() < n {
        n = timestamps.len();
    }
    if confidences.len() < n {
        n = confidences.len();
    }
    let mut out: Vec<TokenWindow<C>> = Vec::new();
    let mut i: usize = 0;
    while i < n
        invariant
            n <= tokens.len(),
            n <= timestamps.len(),
            n <= confidences.len(),
            n == hypothesis_windows(tokens@, timestamps@, confidences@, durations@).len(),
            i <= n,
            out@ == hypothesis_windows(tokens@, timestamps@, confidences@, durations@).take(i as int),
        decreases n - i,
    {
        let duration = if i < durations.len() { durations[i] } else { 0 };
        out.push(TokenWindow { token: tokens[i], timestamp: timestamps[i], confidence: confidences[i], duration });
        proof {
            let all = hypothesis_windows(tokens@, timestamps@, confidences@, durations@);
            assert(all.take(i + 1) =~= all.take(i as int).push(all[i as int]));
        }
        i = i + 1;
    }
    proof {
        let all = hypothesis_windows(tokens@, timestamps@, confidences@, durations@);
        assert(all.take(n as int) =~= all);
    }
    out
}

/// Durations the v2 joint network predicts, by duration-bin index.
pub open spec fn duration_of_bin(bin: usize) -> Option<usize> {
    if bin < 5 { Some(bin) } else { None }
}

/// The token duration of a joint network's duration bin.
pub fn map_duration_bin(bin: usize) -> (r: Result<usize, String>)
    ensures
        match duration_of_bin(bin) {
            Some(d) => r == Ok::<usize, String>(d),
            None => r matches Err(m) && m@ == "duration bin index out of range: "@ + decimal(bin as nat),
        },
{
    let bins: [usize; 5] = [0, 1, 2, 3, 4];
    if bin < 5 {
        Ok(bins[bin])
    } else {
        let mut message = String::new();
        push_str(&mut message, "duration bin index out of range: ");
        proof {
            reveal_strlit("duration bin index out of range: ");
        }
        push_decimal(&mut message, bin as u64);
        Err(message)
    }
}

/// A token is emitted when no emission frame is set, or from that frame on.
pub fn should_emit_token(timestamp: usize, emit_after: Option<usize>) -> (r: bool)
    ensures
        r == match emit_after {
            Some(after) => timestamp >= after,
            None => true,
        },
{
    match emit_after {
        Some(after) => timestamp >= after,
        None => true,
    }
}

} // verus!
