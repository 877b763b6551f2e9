//! Character-level text helpers shared by validation, transcripts and output.
//!
//! Strings are reasoned about through their `Seq<char>` views. Whitespace is
//! the Unicode `White_Space` property, which is what `str::trim` removes.
use vstd::prelude::*;

verus! {

broadcast use vstd::string::group_string_axioms;

/// The Unicode `White_Space` characters.
pub open spec fn is_white_space(c: char) -> bool {
    ||| ('\u{9}' <= c && c <= '\u{d}')
    ||| c == ' '
    ||| c == '\u{85}'
    ||| c == '\u{a0}'
    ||| c == '\u{1680}'
    ||| ('\u{2000}' <= c && c <= '\u{200a}')
    ||| c == '\u{2028}'
    ||| c == '\u{2029}'
    ||| c == '\u{202f}'
    ||| c == '\u{205f}'
    ||| c == '\u{3000}'
}

/// A text is blank when trimming whitespace leaves nothing.
pub open spec fn is_blank_text(s: Seq<char>) -> bool {
    forall|i: int| 0 <= i < s.len() ==> is_white_space(#[trigger] s[i])
}

/// Removes leading characters that satisfy `p`.
pub open spec fn trim_start_by(s: Seq<char>, p: spec_fn(char) -> bool) -> Seq<char>
    decreases s.len(),
{
    if s.len() > 0 && p(s[0]) {
        trim_start_by(s.drop_first(), p)
    } else {
        s
    }
}

/// Removes trailing characters that satisfy `p`.
pub open spec fn trim_end_by(s: Seq<char>, p: spec_fn(char) -> bool) -> Seq<char>
    decreases s.len(),
{
    if s.len() > 0 && p(s.last()) {
        trim_end_by(s.drop_last(), p)
    } else {
        s
    }
}

pub open spec fn ws_pred() -> spec_fn(char) -> bool {
    |c: char| is_white_space(c)
}

/// `str::trim`: strips leading and trailing whitespace.
pub open spec fn trim_ws(s: Seq<char>) -> Seq<char> {
    trim_end_by(trim_start_by(s, ws_pred()), ws_pred())
}

/// ASCII lowercase of one character (`char::to_ascii_lowercase`).
pub open spec fn ascii_lower_char(c: char) -> char {
    if 'A' <= c && c <= 'Z' {
        ((c as u32) + 32) as char
    } else {
        c
    }
}

/// `str::to_ascii_lowercase`.
pub open spec fn ascii_lower(s: Seq<char>) -> Seq<char> {
    s.map_values(|c: char| ascii_lower_char(c))
}

pub fn is_white_space_char(c: char) -> (r: bool)
    ensures
        r == is_white_space(c),
{
    ('\u{9}' <= c && c <= '\u{d}') || c == ' ' || c == '\u{85}' || c == '\u{a0}' || c == '\u{1680}'
        || ('\u{2000}' <= c && c <= '\u{200a}') || c == '\u{2028}' || c == '\u{2029}' || c
        == '\u{202f}' || c == '\u{205f}' || c == '\u{3000}'
}

pub fn to_ascii_lower_char(c: char) -> (r: char)
    ensures
        r == ascii_lower_char(c),
{
    if 'A' <= c && c <= 'Z' {
        ((c as u8) + 32) as char
    } else {
        c
    }
}

/// The characters of a string slice, in order.
pub fn chars_of(s: &str) -> (r: Vec<char>)
    ensures
        r@ == s@,
{
    let mut out: Vec<char> = Vec::new();
    for c in it: s.chars()
        invariant
            it.seq() == s@,
            out@ == s@.take(it.index() as int),
    {
        out.push(c);
    }
    out
}

/// Appends one character to a string (`String::push`).
#[verifier::external_body]
pub(crate) fn push_char(s: &mut String, c: char)
    ensures
        final(s)@ == old(s)@.push(c),
{
    s.push(c);
}

/// Appends a string slice (`String::push_str`).
#[verifier::external_body]
pub(crate) fn push_str(s: &mut String, t: &str)
    ensures
        final(s)@ == old(s)@ + t@,
{
    s.push_str(t);
}

/// Builds a string from characters.
pub fn string_from_chars(cs: &[char]) -> (r: String)
    ensures
        r@ == cs@,
{
    let mut out = String::new();
    let mut i: usize = 0;
    while i < cs.len()
        invariant
            i <= cs.len(),
            out@ == cs@.take(i as int),
        decreases cs.len() - i,
    {
        push_char(&mut out, cs[i]);
        assert(cs@.take(i as int).push(cs@[i as int]) =~= cs@.take(i + 1));
        i = i + 1;
    }
    assert(cs@.take(cs.len() as int) =~= cs@);
    out
}

/// `s.trim().is_empty()`.
pub fn is_blank(s: &str) -> (r: bool)
    ensures
        r == is_blank_text(s@),
{
    let cs = chars_of(s);
    let mut i: usize = 0;
    while i < cs.len()
        invariant
            cs@ == s@,
            i <= cs.len(),
            forall|k: int| 0 <= k < i ==> is_white_space(#[trigger] cs@[k]),
        decreases cs.len() - i,
    {
        if !is_white_space_char(cs[i]) {
            return false;
        }
        i = i + 1;
    }
    true
}

/// Blankness and the emptiness of the trimmed text coincide.
pub proof fn lemma_blank_iff_trim_empty(s: Seq<char>)
    ensures
        is_blank_text(s) <==> trim_ws(s).len() == 0,
{
    lemma_trim_start_blank(s);
    let t = trim_start_by(s, ws_pred());
    lemma_trim_end_nonempty(t, ws_pred());
}

proof fn lemma_trim_start_blank(s: Seq<char>)
    ensures
        is_blank_text(s) <==> trim_start_by(s, ws_pred()).len() == 0,
        trim_start_by(s, ws_pred()).len() > 0 ==> !is_white_space(
            trim_start_by(s, ws_pred())[0],
        ),
    decreases s.len(),
{
    if s.len() > 0 && is_white_space(s[0]) {
        lemma_trim_start_blank(s.drop_first());
        if is_blank_text(s.drop_first()) {
            assert forall|i: int| 0 <= i < s.len() implies is_white_space(#[trigger] s[i]) by {
                if i > 0 {
                    assert(s[i] == s.drop_first()[i - 1]);
                }
            }
        }
        if is_blank_text(s) {
            assert forall|i: int| 0 <= i < s.drop_first().len() implies is_white_space(
                #[trigger] s.drop_first()[i],
            ) by {
                assert(s.drop_first()[i] == s[i + 1]);
            }
        }
    } else if s.len() > 0 {
        assert(!is_white_space(s[0]));
    }
}

proof fn lemma_trim_end_nonempty(s: Seq<char>, p: spec_fn(char) -> bool)
    requires
        s.len() > 0 ==> !p(s[0]),
    ensures
        (trim_end_by(s, p).len() == 0) <==> (s.len() == 0),
    decreases s.len(),
{
    if s.len() > 0 && p(s.last()) {
        assert(s.len() > 1);
        assert(s.drop_last()[0] == s[0]);
        lemma_trim_end_nonempty(s.drop_last(), p);
    }
}

/// Copies `cs[start..end]`.
pub fn copy_range(cs: &[char], start: usize, end: usize) -> (r: Vec<char>)
    requires
        start <= end <= cs.len(),
    ensures
        r@ == cs@.subrange(start as int, end as int),
{
    let mut out: Vec<char> = Vec::new();
    let mut i = start;
    while i < end
        invariant
            start <= i <= end <= cs.len(),
            out@ == cs@.subrange(start as int, i as int),
        decreases end - i,
    {
        out.push(cs[i]);
        assert(cs@.subrange(start as int, i as int).push(cs@[i as int]) =~= cs@.subrange(
            start as int,
            i + 1,
        ));
        i = i + 1;
    }
    out
}

/// Position where leading whitespace ends.
fn trim_start_ws_index(cs: &[char]) -> (r: usize)
    ensures
        r <= cs.len(),
        trim_start_by(cs@, ws_pred()) == cs@.skip(r as int),
{
    let mut i: usize = 0;
    assert(cs@.skip(0) =~= cs@);
    while i < cs.len() && is_white_space_char(cs[i])
        invariant
            i <= cs.len(),
            trim_start_by(cs@, ws_pred()) == trim_start_by(cs@.skip(i as int), ws_pred()),
        decreases cs.len() - i,
    {
        assert(cs@.skip(i as int).drop_first() =~= cs@.skip(i + 1));
        i = i + 1;
    }
    i
}

/// Position where trailing whitespace starts, within `cs[..end]`.
fn trim_end_ws_index(cs: &[char], start: usize) -> (r: usize)
    requires
        start <= cs.len(),
    ensures
        start <= r <= cs.len(),
        trim_end_by(cs@.skip(start as int), ws_pred()) == cs@.subrange(start as int, r as int),
{
    let mut j: usize = cs.len();
    assert(cs@.skip(start as int) =~= cs@.subrange(start as int, j as int));
    while j > start && is_white_space_char(cs[j - 1])
        invariant
            start <= j <= cs.len(),
            trim_end_by(cs@.skip(start as int), ws_pred()) == trim_end_by(
                cs@.subrange(start as int, j as int),
                ws_pred(),
            ),
        decreases j - start,
    {
        assert(cs@.subrange(start as int, j as int).drop_last() =~= cs@.subrange(
            start as int,
            j - 1,
        ));
        j = j - 1;
    }
    j
}

/// `str::trim` over characters.
pub fn trim_ws_chars(cs: &[char]) -> (r: Vec<char>)
    ensures
        r@ == trim_ws(cs@),
{
    let i = trim_start_ws_index(cs);
    let j = trim_end_ws_index(cs, i);
    copy_range(cs, i, j)
}

/// ASCII lowercase of a character sequence.
pub fn ascii_lower_chars(cs: &[char]) -> (r: Vec<char>)
    ensures
        r@ == ascii_lower(cs@),
{
    let mut out: Vec<char> = Vec::new();
    let mut i: usize = 0;
    while i < cs.len()
        invariant
            i <= cs.len(),
            out@ =~= ascii_lower(cs@.take(i as int)),
        decreases cs.len() - i,
    {
        out.push(to_ascii_lower_char(cs[i]));
        assert(cs@.take(i + 1) =~= cs@.take(i as int).push(cs@[i as int]));
        i = i + 1;
    }
    assert(cs@.take(cs.len() as int) =~= cs@);
    out
}

/// Whether two texts are equal.
pub fn same_text(a: &str, b: &str) -> (r: bool)
    ensures
        r == (a@ == b@),
{
    a.to_owned() == b.to_owned()
}

} // verus!
