//! Word timings of the ONNX Parakeet decoder: decoded token ids become token
//! texts with spans of encoder frames, and token texts are grouped into
//! words, dropping a word that repeats the one before it.
use crate::media::streaming::{is_ascii_punct, is_ascii_punct_char};
use crate::media::vocabulary::Vocabulary;
use crate::text::{chars_of, is_blank, is_blank_text, string_from_chars};
use vstd::prelude::*;

verus! {

/// Whether a character has the Unicode `Alphabetic` property.
pub uninterp spec fn unicode_alphabetic(c: char) -> bool;

/// The Unicode lowercase mapping of a text.
pub uninterp spec fn unicode_lowercase(s: Seq<char>) -> Seq<char>;

/// `char::is_alphabetic`: whether `c` has the Unicode `Alphabetic` property.
#[verifier::external_body]
fn is_alphabetic(c: char) -> (r: bool)
    ensures
        r == unicode_alphabetic(c),
{
    c.is_alphabetic()
}

/// `str::to_lowercase`: the Unicode lowercase mapping of `s`, which depends
/// on no locale.
#[verifier::external_body]
fn to_lowercase(s: &str) -> (r: String)
    ensures
        r@ == unicode_lowercase(s@),
{
    s.to_lowercase()
}

/// A decoded token id and the encoder frame it was emitted at.
#[derive(Debug, Clone, Copy, PartialEq, Eq, Structural)]
pub struct TimedTokenId {
    pub id: usize,
    pub frame: usize,
}

/// A token's or word's text and its span of encoder frames, from the first
/// frame up to the frame where the next piece starts.
#[derive(Debug, Clone, PartialEq, Eq)]
pub struct TimedToken {
    pub text: String,
    pub start_frame: usize,
    pub end_frame: usize,
}

pub open spec fn piece_view(t: TimedToken) -> (Seq<char>, usize, usize) {
    (t.text@, t.start_frame, t.end_frame)
}

// ------------------------------------------------------------- decoding

/// Control tokens such as `<blk>` carry no text; `<unk>` is kept.
pub open spec fn is_control_token(raw: Seq<char>) -> bool {
    raw.len() > 0 && raw[0] == '<' && raw.last() == '>' && raw != "<unk>"@
}

/// SentencePiece word marks become spaces.
pub open spec fn spaced(raw: Seq<char>) -> Seq<char> {
    raw.map_values(|c: char| if c == '\u{2581}' { ' ' } else { c })
}

pub open spec fn all_ascii_digits(s: Seq<char>) -> bool {
    forall|i: int| 0 <= i < s.len() ==> '0' <= #[trigger] s[i] && s[i] <= '9'
}

/// The number of alphabetic characters that end a text.
pub open spec fn trailing_letters(s: Seq<char>) -> nat
    decreases s.len(),
{
    if s.len() == 0 || !unicode_alphabetic(s.last()) {
        0
    } else {
        1 + trailing_letters(s.drop_last())
    }
}

/// Digits glued to a word of two or more letters, or to the article `a`,
/// are set apart by a space.
pub open spec fn needs_space_before_digits(full: Seq<char>, text: Seq<char>) -> bool {
    &&& full.len() > 0
    &&& !(text.len() > 0 && text[0] == ' ')
    &&& all_ascii_digits(text)
    &&& (trailing_letters(full) > 1 || (trailing_letters(full) == 1 && full.last() == 'a'))
}

/// Token ids with text: in the vocabulary and not a control token.
pub open spec fn kept_token(vocab: Seq<Seq<char>>, id: usize) -> bool {
    id < vocab.len() && !is_control_token(vocab[id as int])
}

/// The pieces the first `n` token ids decode to, and the text decoded so
/// far. A piece spans from its frame to the next token's frame, or one
/// frame for the last token.
pub open spec fn decoded(vocab: Seq<Seq<char>>, tokens: Seq<TimedTokenId>, n: int) -> (Seq<(Seq<char>, usize, usize)>, Seq<char>)
    decreases n,
{
    if n <= 0 || n > tokens.len() {
        (Seq::empty(), Seq::empty())
    } else {
        let prev = decoded(vocab, tokens, n - 1);
        let t = tokens[n - 1];
        if !kept_token(vocab, t.id) {
            prev
        } else {
            let text0 = spaced(vocab[t.id as int]);
            let text = if needs_space_before_digits(prev.1, text0) { seq![' '] + text0 } else { text0 };
            let end: usize = if n < tokens.len() { tokens[n].frame } else { (t.frame + 1) as usize };
            (prev.0.push((text, t.frame, end)), prev.1 + text)
        }
    }
}

/// Every token with text has a frame after which one more fits.
pub open spec fn frames_fit(vocab: Seq<Seq<char>>, tokens: Seq<TimedTokenId>) -> bool {
    forall|i: int| 0 <= i < tokens.len() && kept_token(vocab, #[trigger] tokens[i].id) ==> tokens[i].frame < usize::MAX
}

fn is_control_chars(raw: &Vec<char>) -> (r: bool)
    ensures
        r == is_control_token(raw@),
{
    let unk = chars_of("<unk>");
    proof {
        reveal_strlit("<unk>");
    }
    if raw.len() == 0 || raw[0] != '<' || raw[raw.len() - 1] != '>' {
        return false;
    }
    if raw.len() != 5 {
        assert(raw@ != "<unk>"@);
        return true;
    }
    let mut k: usize = 0;
    while k < 5
        invariant
            k <= 5,
            raw@.len() == 5,
            raw@[0] == '<',
            raw@.last() == '>',
            unk@.len() == 5,
            unk@ == "<unk>"@,
            forall|j: int| 0 <= j < k ==> raw@[j] == unk@[j],
        decreases 5 - k,
    {
        if raw[k] != unk[k] {
            assert(raw@[k as int] != "<unk>"@[k as int]);
            return true;
        }
        k = k + 1;
    }
    assert(raw@ =~= "<unk>"@);
    false
}

fn spaced_chars(raw: &Vec<char>) -> (r: Vec<char>)
    ensures
        r@ == spaced(raw@),
{
    let mut out: Vec<char> = Vec::new();
    let mut i: usize = 0;
    while i < raw.len()
        invariant
            i <= raw.len(),
            out@ == spaced(raw@).take(i as int),
        decreases raw.len() - i,
    {
        let c = raw[i];
        out.push(if c == '\u{2581}' { ' ' } else { c });
        assert(spaced(raw@).take(i + 1) =~= spaced(raw@).take(i as int).push(spaced(raw@)[i as int]));
        i = i + 1;
    }
    assert(spaced(raw@).take(raw.len() as int) =~= spaced(raw@));
    out
}

fn ascii_digits_only(s: &Vec<char>) -> (r: bool)
    ensures
        r == all_ascii_digits(s@),
{
    let mut i: usize = 0;
    while i < s.len()
        invariant
            i <= s.len(),
            forall|j: int| 0 <= j < i ==> '0' <= #[trigger] s@[j] && s@[j] <= '9',
        decreases s.len() - i,
    {
        if !('0' <= s[i] && s[i] <= '9') {
            return false;
        }
        i = i + 1;
    }
    true
}

/// A run of alphabetic characters ending a text counts toward its trailing
/// letters.
proof fn lemma_trailing_letters(s: Seq<char>, k: int)
    requires
        0 <= k <= s.len(),
        forall|j: int| k <= j < s.len() ==> unicode_alphabetic(#[trigger] s[j]),
    ensures
        trailing_letters(s) == (s.len() - k) + trailing_letters(s.take(k)),
    decreases s.len() - k,
{
    if k < s.len() {
        assert(s.drop_last().len() == s.len() - 1);
        assert forall|j: int| k <= j < s.drop_last().len() implies unicode_alphabetic(#[trigger] s.drop_last()[j]) by {
            assert(s.drop_last()[j] == s[j]);
        }
        lemma_trailing_letters(s.drop_last(), k);
        assert(s.drop_last().take(k) =~= s.take(k));
    } else {
        assert(s.take(k) =~= s);
    }
}

fn count_trailing_letters(s: &Vec<char>) -> (r: usize)
    ensures
        r == trailing_letters(s@),
{
    let mut k: usize = s.len();
    while k > 0 && is_alphabetic(s[k - 1])
        invariant
            k <= s.len(),
            forall|j: int| k <= j < s.len() ==> unicode_alphabetic(#[trigger] s@[j]),
        decreases k,
    {
        k = k - 1;
    }
    proof {
        lemma_trailing_letters(s@, k as int);
        if k > 0 {
            assert(s@.take(k as int).last() == s@[k - 1]);
        }
    }
    s.len() - k
}

/// Turns decoded token ids into texts with frame spans: ids outside the
/// vocabulary and control tokens are skipped, word marks become spaces, and
/// digits that follow a word are set apart from it.
pub fn decode_tokens(vocab: &Vocabulary, tokens: &[TimedTokenId]) -> (r: Vec<TimedToken>)
    requires
        frames_fit(vocab@, tokens@),
    ensures
        r@.map_values(|t: TimedToken| piece_view(t)) == decoded(vocab@, tokens@, tokens@.len() as int).0,
{
    let mut out: Vec<TimedToken> = Vec::new();
    let mut full: Vec<char> = Vec::new();
    let mut i: usize = 0;
    while i < tokens.len()
        invariant
            i <= tokens.len(),
            frames_fit(vocab@, tokens@),
            out@.map_values(|t: TimedToken| piece_view(t)) == decoded(vocab@, tokens@, i as int).0,
            full@ == decoded(vocab@, tokens@, i as int).1,
        decreases tokens.len() - i,
    {
        let token = tokens[i];
        let ghost prev = decoded(vocab@, tokens@, i as int);
        let raw = vocab.token(token.id);
        if let Some(raw) = raw {
            let rc = chars_of(raw);
            if !is_control_chars(&rc) {
                let mut text = spaced_chars(&rc);
                if full.len() > 0 && !(text.len() > 0 && text[0] == ' ') && ascii_digits_only(&text) {
                    let trailing = count_trailing_letters(&full);
                    let is_article_a = trailing == 1 && full[full.len() - 1] == 'a';
                    if trailing > 1 || is_article_a {
                        let mut spaced_text: Vec<char> = Vec::new();
                        spaced_text.push(' ');
                        let mut k: usize = 0;
                        while k < text.len()
                            invariant
                                k <= text.len(),
                                spaced_text@ == seq![' '] + text@.take(k as int),
                            decreases text.len() - k,
                        {
                            spaced_text.push(text[k]);
                            assert(text@.take(k + 1) =~= text@.take(k as int).push(text@[k as int]));
                            k = k + 1;
                        }
                        assert(text@.take(text.len() as int) =~= text@);
                        text = spaced_text;
                    }
                }
                let ghost text_view = text@;
                let mut k: usize = 0;
                let ghost full_before = full@;
                while k < text.len()
                    invariant
                        k <= text.len(),
                        full@ == full_before + text@.take(k as int),
                    decreases text.len() - k,
                {
                    full.push(text[k]);
                    assert(text@.take(k + 1) =~= text@.take(k as int).push(text@[k as int]));
                    k = k + 1;
                }
                assert(text@.take(text.len() as int) =~= text@);
                assert(tokens@[i as int].frame < usize::MAX);
                let end = if i + 1 < tokens.len() { tokens[i + 1].frame } else { token.frame + 1 };
                let ghost before_out = out@.map_values(|t: TimedToken| piece_view(t));
                out.push(TimedToken { text: string_from_chars(&text), start_frame: token.frame, end_frame: end });
                proof {
                    assert(out@.map_values(|t: TimedToken| piece_view(t)) =~= before_out.push((text_view, token.frame, end)));
                }
            }
        }
        i = i + 1;
    }
    out
}

// ------------------------------------------------------------- grouping

/// Drops every leading `c`.
pub open spec fn drop_leading(s: Seq<char>, c: char) -> Seq<char>
    decreases s.len(),
{
    if s.len() > 0 && s[0] == c {
        drop_leading(s.drop_first(), c)
    } else {
        s
    }
}

/// A token's text without its leading word marks and then its leading spaces.
pub open spec fn stripped(text: Seq<char>) -> Seq<char> {
    drop_leading(drop_leading(text, '\u{2581}'), ' ')
}

pub open spec fn is_punctuation_text(text: Seq<char>) -> bool {
    text.len() > 0 && forall|i: int| 0 <= i < text.len() ==> is_ascii_punct(#[trigger] text[i])
}

/// A token starts a word when it opens with a space or word mark, is
/// punctuation, or comes first, unless it continues a contraction or a
/// hyphenated word.
pub open spec fn starts_word(text: Seq<char>, i: int) -> bool {
    let s = stripped(text);
    &&& (text.len() > 0 && (text[0] == ' ' || text[0] == '\u{2581}')) || is_punctuation_text(text) || i == 0
    &&& !(s.len() > 0 && (s[0] == '\'' || s[0] == '-'))
}

/// Grouping state: the words so far, the word being built and its first
/// frame, and the lowercase text of the last word kept.
pub open spec fn pushed(
    st: (Seq<(Seq<char>, usize, usize)>, Seq<char>, usize, Seq<char>),
    end: usize,
) -> (Seq<(Seq<char>, usize, usize)>, Seq<char>, usize, Seq<char>) {
    if st.1.len() == 0 {
        st
    } else if unicode_lowercase(st.1) != st.3 {
        (st.0.push((st.1, st.2, end)), Seq::empty(), st.2, unicode_lowercase(st.1))
    } else {
        (st.0, Seq::empty(), st.2, st.3)
    }
}

pub open spec fn grouped(pieces: Seq<(Seq<char>, usize, usize)>, n: int) -> (Seq<(Seq<char>, usize, usize)>, Seq<char>, usize, Seq<char>)
    decreases n,
{
    if n <= 0 || n > pieces.len() {
        (Seq::empty(), Seq::empty(), 0, Seq::empty())
    } else {
        let st = grouped(pieces, n - 1);
        let i = n - 1;
        let t = pieces[i];
        if is_blank_text(t.0) {
            pushed(st, t.2)
        } else {
            let st1 = if starts_word(t.0, i) && st.1.len() > 0 { pushed(st, pieces[i - 1].2) } else { st };
            let start = if st1.1.len() == 0 { t.1 } else { st1.2 };
            (st1.0, st1.1 + stripped(t.0), start, st1.3)
        }
    }
}

/// The words of a sequence of pieces: the grouping state's words, with the
/// word still being built closed at the last piece's end.
pub open spec fn words_of(pieces: Seq<(Seq<char>, usize, usize)>) -> Seq<(Seq<char>, usize, usize)> {
    let st = grouped(pieces, pieces.len() as int);
    if st.1.len() > 0 { pushed(st, pieces.last().2).0 } else { st.0 }
}

fn push_word(words: &mut Vec<TimedToken>, current: &mut Vec<char>, start: usize, end: usize, last_lower: &mut Vec<char>)
    ensures
        ({
            let after = pushed((old(words)@.map_values(|t: TimedToken| piece_view(t)), old(current)@, start, old(last_lower)@), end);
            &&& final(words)@.map_values(|t: TimedToken| piece_view(t)) == after.0
            &&& final(current)@ == after.1
            &&& final(last_lower)@ == after.3
        }),
{
    if current.len() == 0 {
        return;
    }
    let text = string_from_chars(current.as_slice());
    let lower = to_lowercase(text.as_str());
    let lower_chars = chars_of(lower.as_str());
    let mut same = lower_chars.len() == last_lower.len();
    let mut k: usize = 0;
    while same && k < lower_chars.len()
        invariant
            same ==> lower_chars.len() == last_lower.len(),
            k <= lower_chars.len(),
            same ==> forall|j: int| 0 <= j < k ==> lower_chars@[j] == last_lower@[j],
            !same ==> lower_chars@ != last_lower@,
        decreases lower_chars.len() - k,
    {
        if lower_chars[k] != last_lower[k] {
            same = false;
        }
        k = k + 1;
    }
    if same {
        assert(lower_chars@ =~= last_lower@);
        current.clear();
    } else {
        let ghost before = words@.map_values(|t: TimedToken| piece_view(t));
        words.push(TimedToken { text, start_frame: start, end_frame: end });
        proof {
            assert(words@.map_values(|t: TimedToken| piece_view(t)) =~= before.push((old(current)@, start, end)));
        }
        *last_lower = lower_chars;
        current.clear();
    }
}

fn drop_leading_index(cs: &Vec<char>, from: usize, c: char) -> (r: usize)
    requires
        from <= cs.len(),
    ensures
        from <= r <= cs.len(),
        drop_leading(cs@.skip(from as int), c) == cs@.skip(r as int),
{
    let mut i = from;
    while i < cs.len() && cs[i] == c
        invariant
            from <= i <= cs.len(),
            drop_leading(cs@.skip(from as int), c) == drop_leading(cs@.skip(i as int), c),
        decreases cs.len() - i,
    {
        assert(cs@.skip(i as int).drop_first() =~= cs@.skip(i + 1));
        i = i + 1;
    }
    i
}

fn punctuation_only(cs: &Vec<char>) -> (r: bool)
    ensures
        r == is_punctuation_text(cs@),
{
    if cs.len() == 0 {
        return false;
    }
    let mut i: usize = 0;
    while i < cs.len()
        invariant
            i <= cs.len(),
            forall|j: int| 0 <= j < i ==> is_ascii_punct(#[trigger] cs@[j]),
        decreases cs.len() - i,
    {
        if !is_ascii_punct_char(cs[i]) {
            return false;
        }
        i = i + 1;
    }
    true
}

/// Groups token pieces into words: a word runs from a piece that starts one
/// to the piece before the next such piece, blank pieces close a word, and
/// a word whose lowercase text equals that of the last kept word is dropped.
pub fn group_tokens_to_words(tokens: &[TimedToken]) -> (r: Vec<TimedToken>)
    ensures
        r@.map_values(|t: TimedToken| piece_view(t)) == words_of(tokens@.map_values(|t: TimedToken| piece_view(t))),
{
    let ghost pv = tokens@.map_values(|t: TimedToken| piece_view(t));
    let mut words: Vec<TimedToken> = Vec::new();
    let mut current: Vec<char> = Vec::new();
    let mut current_start: usize = 0;
    let mut last_lower: Vec<char> = Vec::new();
    let mut i: usize = 0;
    while i < tokens.len()
        invariant
            i <= tokens.len(),
            pv == tokens@.map_values(|t: TimedToken| piece_view(t)),
            ({
                let st = grouped(pv, i as int);
                &&& words@.map_values(|t: TimedToken| piece_view(t)) == st.0
                &&& current@ == st.1
                &&& current_start == st.2
                &&& last_lower@ == st.3
            }),
        decreases tokens.len() - i,
    {
        let token = &tokens[i];
        assert(pv[i as int] == piece_view(tokens@[i as int]));
        let text = chars_of(token.text.as_str());
        if is_blank(token.text.as_str()) {
            push_word(&mut words, &mut current, current_start, token.end_frame, &mut last_lower);
        } else {
            let a = drop_leading_index(&text, 0, '\u{2581}');
            let b = drop_leading_index(&text, a, ' ');
            assert(text@.skip(0) =~= text@);
            let rest = crate::text::copy_range(&text, b, text.len());
            assert(rest@ =~= stripped(text@));
            let is_punctuation = punctuation_only(&text);
            let opens = text.len() > 0 && (text[0] == ' ' || text[0] == '\u{2581}');
            let continues = rest.len() > 0 && (rest[0] == '\'' || rest[0] == '-');
            let starts = (opens || is_punctuation || i == 0) && !continues;
            if starts && current.len() > 0 {
                assert(i > 0) by {
                    if i == 0 {
                        assert(grouped(pv, 0).1.len() == 0);
                    }
                }
                assert(pv[i - 1] == piece_view(tokens@[i - 1]));
                push_word(&mut words, &mut current, current_start, tokens[i - 1].end_frame, &mut last_lower);
            }
            if current.len() == 0 {
                current_start = token.start_frame;
            }
            let mut k: usize = 0;
            let ghost cur_before = current@;
            while k < rest.len()
                invariant
                    k <= rest.len(),
                    current@ == cur_before + rest@.take(k as int),
                decreases rest.len() - k,
            {
                current.push(rest[k]);
                assert(rest@.take(k + 1) =~= rest@.take(k as int).push(rest@[k as int]));
                k = k + 1;
            }
            assert(rest@.take(rest.len() as int) =~= rest@);
        }
        i = i + 1;
    }
    if current.len() > 0 {
        assert(tokens.len() > 0) by {
            if tokens.len() == 0 {
                assert(grouped(pv, 0).1.len() == 0);
            }
        }
        let last = tokens.len() - 1;
        assert(pv[last as int] == piece_view(tokens@[last as int]));
        push_word(&mut words, &mut current, current_start, tokens[last].end_frame, &mut last_lower);
    }
    words
}

// ----------------------------------------------------------------- laws

/// No word has the same lowercase text as the word after it, and no word is
/// empty.
pub open spec fn distinct_neighbours(ws: Seq<(Seq<char>, usize, usize)>) -> bool {
    &&& forall|i: int| 0 <= i < ws.len() - 1 ==> unicode_lowercase(#[trigger] ws[i].0) != unicode_lowercase(ws[i + 1].0)
    &&& forall|i: int| 0 <= i < ws.len() ==> (#[trigger] ws[i].0).len() > 0
}

spec fn group_state_ok(st: (Seq<(Seq<char>, usize, usize)>, Seq<char>, usize, Seq<char>)) -> bool {
    &&& distinct_neighbours(st.0)
    &&& st.0.len() > 0 ==> st.3 == unicode_lowercase(st.0.last().0)
}

proof fn lemma_pushed_keeps_state(st: (Seq<(Seq<char>, usize, usize)>, Seq<char>, usize, Seq<char>), end: usize)
    requires
        group_state_ok(st),
    ensures
        group_state_ok(pushed(st, end)),
{
    if st.1.len() > 0 && unicode_lowercase(st.1) != st.3 {
        let ws = pushed(st, end).0;
        assert forall|i: int| 0 <= i < ws.len() - 1 implies unicode_lowercase(#[trigger] ws[i].0) != unicode_lowercase(ws[i + 1].0) by {
            if i < ws.len() - 2 {
                assert(ws[i] == st.0[i] && ws[i + 1] == st.0[i + 1]);
            } else {
                assert(ws[i] == st.0.last());
            }
        }
        assert forall|i: int| 0 <= i < ws.len() implies (#[trigger] ws[i].0).len() > 0 by {
            if i < ws.len() - 1 {
                assert(ws[i] == st.0[i]);
            }
        }
    }
}

proof fn lemma_grouped_state(pieces: Seq<(Seq<char>, usize, usize)>, n: int)
    requires
        0 <= n <= pieces.len(),
    ensures
        group_state_ok(grouped(pieces, n)),
    decreases n,
{
    if n > 0 {
        lemma_grouped_state(pieces, n - 1);
        let st = grouped(pieces, n - 1);
        let t = pieces[n - 1];
        if is_blank_text(t.0) {
            lemma_pushed_keeps_state(st, t.2);
        } else if starts_word(t.0, n - 1) && st.1.len() > 0 {
            lemma_pushed_keeps_state(st, pieces[n - 2].2);
        }
    }
}

/// Grouping never yields two neighbouring words whose lowercase texts are
/// equal, nor an empty word.
pub proof fn law_grouped_words_have_distinct_neighbours(pieces: Seq<(Seq<char>, usize, usize)>)
    ensures
        distinct_neighbours(words_of(pieces)),
{
    lemma_grouped_state(pieces, pieces.len() as int);
    let st = grouped(pieces, pieces.len() as int);
    if st.1.len() > 0 {
        lemma_pushed_keeps_state(st, pieces.last().2);
    }
}

} // verus!
