//! Token vocabularies of the Parakeet models: the id of each token, read
//! from the JSON bundle vocabulary or from `token id` lines.
use crate::text::{chars_of, copy_range, string_from_chars};
use vstd::prelude::*;

verus! {

/// Why a vocabulary could not be read.
#[derive(Debug, Clone, Copy, PartialEq, Eq, Structural)]
pub enum VocabularyError {
    /// A `token id` line whose id is not a number.
    InvalidTokenId,
    /// A line vocabulary without a single token.
    Empty,
    /// A JSON vocabulary that is neither an array nor an object.
    NotArrayOrObject,
}

impl VocabularyError {
    pub fn message(&self) -> (r: &'static str)
        ensures
            *self == VocabularyError::InvalidTokenId ==> r@ == "invalid Parakeet vocab token id"@,
            *self == VocabularyError::Empty ==> r@ == "Parakeet vocab is empty"@,
            *self == VocabularyError::NotArrayOrObject ==> r@ == "parakeet_vocab.json must be a JSON array or object"@,
    {
        match self {
            VocabularyError::InvalidTokenId => "invalid Parakeet vocab token id",
            VocabularyError::Empty => "Parakeet vocab is empty",
            VocabularyError::NotArrayOrObject => "parakeet_vocab.json must be a JSON array or object",
        }
    }
}

// ------------------------------------------------------------ usize text

pub open spec fn is_digit_char(c: char) -> bool {
    '0' <= c && c <= '9'
}

pub open spec fn digits_value(s: Seq<char>) -> nat
    decreases s.len(),
{
    if s.len() == 0 {
        0
    } else {
        digits_value(s.drop_last()) * 10 + (s.last() as nat - '0' as nat) as nat
    }
}

/// The unsigned decimal a text denotes: an optional `+`, then one or more
/// ASCII digits, of a value that fits in `usize`.
pub open spec fn usize_of_text(s: Seq<char>) -> Option<nat> {
    let body = unsigned_body(s);
    if body.len() > 0 && all_digits(body) && digits_value(body) <= usize::MAX {
        Some(digits_value(body))
    } else {
        None
    }
}

/// The text after an optional leading `+`.
pub open spec fn unsigned_body(s: Seq<char>) -> Seq<char> {
    if s.len() > 0 && s[0] == '+' { s.drop_first() } else { s }
}

pub open spec fn all_digits(s: Seq<char>) -> bool {
    forall|i: int| 0 <= i < s.len() ==> is_digit_char(#[trigger] s[i])
}

/// Parses an unsigned decimal as `usize::from_str` does.
pub fn parse_usize(s: &[char]) -> (r: Option<usize>)
    ensures
        match usize_of_text(s@) {
            Some(n) => r == Some(n as usize),
            None => r is None,
        },
{
    let ghost body = unsigned_body(s@);
    let start: usize = if s.len() > 0 && s[0] == '+' { 1 } else { 0 };
    if start >= s.len() {
        return None;
    }
    let limit: u128 = usize::MAX as u128 + 1;
    // The value read so far, capped at `usize::MAX + 1`.
    let mut acc: u128 = 0;
    let mut i: usize = start;
    while i < s.len()
        invariant
            start <= i <= s.len(),
            start == 0 || start == 1,
            body == s@.subrange(start as int, s@.len() as int),
            body == unsigned_body(s@),
            limit == usize::MAX + 1,
            forall|k: int| 0 <= k < i - start ==> is_digit_char(#[trigger] body[k]),
            acc == (if digits_value(body.take(i - start)) < limit { digits_value(body.take(i - start)) } else { limit as nat }),
        decreases s.len() - i,
    {
        let c = s[i];
        if !('0' <= c && c <= '9') {
            proof {
                assert(body[i - start] == c);
                assert(!is_digit_char(body[i - start]));
                assert(!all_digits(body));
                assert(usize_of_text(s@) is None);
            }
            return None;
        }
        let d: u128 = ((c as u32) - ('0' as u32)) as u128;
        proof {
            let pre = body.take(i - start);
            let next = body.take(i - start + 1);
            assert(next.drop_last() =~= pre);
            assert(next.last() == c);
        }
        let grown: u128 = acc * 10 + d;
        acc = if grown < limit { grown } else { limit };
        i = i + 1;
    }
    proof {
        assert(body.take(s@.len() - start) =~= body);
    }
    if acc < limit {
        Some(acc as usize)
    } else {
        None
    }
}

// ----------------------------------------------------- JSON vocabulary

/// A parsed `parakeet_vocab.json`: an array of tokens by id, an object from
/// id text to token, or some other JSON value. Entries that are not strings
/// are `None`.
#[derive(Debug, Clone, PartialEq, Eq)]
pub enum VocabularyDocument {
    Array { items: Vec<Option<String>> },
    Object { entries: Vec<(String, Option<String>)> },
    Other,
}

pub open spec fn entry_view(e: (String, Option<String>)) -> (Seq<char>, Option<Seq<char>>) {
    (e.0@, match e.1 { Some(t) => Some(t@), None => None })
}

pub open spec fn opt_view(o: Option<String>) -> Option<Seq<char>> {
    match o {
        Some(t) => Some(t@),
        None => None,
    }
}

/// The largest id among the first `n` keys that are ids.
pub open spec fn max_key_id(entries: Seq<(Seq<char>, Option<Seq<char>>)>, n: int) -> Option<nat>
    decreases n,
{
    if n <= 0 {
        None
    } else {
        let rest = max_key_id(entries, n - 1);
        match usize_of_text(entries[n - 1].0) {
            Some(id) => match rest {
                Some(m) => Some(if m < id { id } else { m }),
                None => Some(id),
            },
            None => rest,
        }
    }
}

/// The token the first `n` entries give to `id`: that of the last entry
/// whose key is `id` and whose value is a string.
pub open spec fn token_for_id(entries: Seq<(Seq<char>, Option<Seq<char>>)>, n: int, id: nat) -> Option<Seq<char>>
    decreases n,
{
    if n <= 0 {
        None
    } else if usize_of_text(entries[n - 1].0) == Some(id) && entries[n - 1].1 is Some {
        entries[n - 1].1
    } else {
        token_for_id(entries, n - 1, id)
    }
}

/// Every id key is below `usize::MAX`, so that the table of ids fits.
pub open spec fn ids_fit(entries: Seq<(Seq<char>, Option<Seq<char>>)>) -> bool {
    forall|i: int| 0 <= i < entries.len() ==> (usize_of_text(#[trigger] entries[i].0) matches Some(id) ==> id < usize::MAX)
}

/// The vocabulary an object document describes: ids up to the largest id
/// key, each with its token or `None`.
pub open spec fn object_vocabulary(entries: Seq<(Seq<char>, Option<Seq<char>>)>) -> Seq<Option<Seq<char>>> {
    let len: nat = match max_key_id(entries, entries.len() as int) {
        Some(m) => m + 1,
        None => 0,
    };
    Seq::new(len, |id: int| token_for_id(entries, entries.len() as int, id as nat))
}

fn max_id_step(m: Option<usize>, key: &String) -> (r: Option<usize>)
    ensures
        r == match usize_of_text(key@) {
            Some(id) => match m {
                Some(x) => Some(if x < id { id as usize } else { x }),
                None => Some(id as usize),
            },
            None => m,
        },
{
    let cs = chars_of(key.as_str());
    match parse_usize(&cs) {
        Some(id) => match m {
            Some(x) => Some(if x < id { id } else { x }),
            None => Some(id),
        },
        None => m,
    }
}

/// Builds a bundle vocabulary from its JSON document: an array lists tokens
/// by id; an object maps id text to tokens, and ids without a string token
/// are `None`.
pub fn vocabulary_from_json(doc: &VocabularyDocument) -> (r: Result<Vec<Option<String>>, VocabularyError>)
    requires
        doc matches VocabularyDocument::Object { entries } ==> ids_fit(entries@.map_values(|e: (String, Option<String>)| entry_view(e))),
    ensures
        match doc {
            VocabularyDocument::Array { items } => r matches Ok(v) && v@.map_values(|o: Option<String>| opt_view(o))
                == items@.map_values(|o: Option<String>| opt_view(o)),
            VocabularyDocument::Object { entries } => r matches Ok(v) && v@.map_values(|o: Option<String>| opt_view(o))
                == object_vocabulary(entries@.map_values(|e: (String, Option<String>)| entry_view(e))),
            VocabularyDocument::Other => r == Err::<Vec<Option<String>>, VocabularyError>(VocabularyError::NotArrayOrObject),
        },
{
    match doc {
        VocabularyDocument::Array { items } => {
            let mut out: Vec<Option<String>> = Vec::new();
            let mut i: usize = 0;
            while i < items.len()
                invariant
                    i <= items.len(),
                    out.len() == i,
                    forall|k: int| 0 <= k < i ==> opt_view(#[trigger] out@[k]) == opt_view(items@[k]),
                decreases items.len() - i,
            {
                let item = match &items[i] {
                    Some(t) => Some(t.clone()),
                    None => None,
                };
                out.push(item);
                i = i + 1;
            }
            proof {
                assert(out@.map_values(|o: Option<String>| opt_view(o)) =~= items@.map_values(|o: Option<String>| opt_view(o)));
            }
            Ok(out)
        },
        VocabularyDocument::Object { entries } => {
            let ghost ev = entries@.map_values(|e: (String, Option<String>)| entry_view(e));
            let mut max: Option<usize> = None;
            let mut i: usize = 0;
            while i < entries.len()
                invariant
                    i <= entries.len(),
                    ev == entries@.map_values(|e: (String, Option<String>)| entry_view(e)),
                    ids_fit(ev),
                    max == match max_key_id(ev, i as int) {
                        Some(m) => Some(m as usize),
                        None => None::<usize>,
                    },
                    max_key_id(ev, i as int) matches Some(m) ==> m < usize::MAX,
                decreases entries.len() - i,
            {
                assert(ev[i as int].0 == entries@[i as int].0@);
                assert(usize_of_text(ev[i as int].0) matches Some(id) ==> id < usize::MAX);
                max = max_id_step(max, &entries[i].0);
                i = i + 1;
            }
            let len: usize = match max {
                Some(m) => m + 1,
                None => 0,
            };
            let mut out: Vec<Option<String>> = Vec::new();
            while out.len() < len
                invariant
                    out.len() <= len,
                    forall|k: int| 0 <= k < out.len() ==> out@[k] is None,
                decreases len - out.len(),
            {
                out.push(None);
            }
            let mut j: usize = 0;
            while j < entries.len()
                invariant
                    j <= entries.len(),
                    ev == entries@.map_values(|e: (String, Option<String>)| entry_view(e)),
                    ids_fit(ev),
                    out.len() == len,
                    len == match max_key_id(ev, ev.len() as int) {
                        Some(m) => m + 1,
                        None => 0,
                    },
                    forall|k: int| 0 <= k < len ==> opt_view(#[trigger] out@[k]) == token_for_id(ev, j as int, k as nat),
                decreases entries.len() - j,
            {
                let key = chars_of(entries[j].0.as_str());
                let parsed = parse_usize(&key);
                proof {
                    lemma_max_key_bounds(ev, ev.len() as int, j as int);
                }
                if let Some(id) = parsed {
                    if let Some(t) = &entries[j].1 {
                        out.set(id, Some(t.clone()));
                    }
                }
                j = j + 1;
            }
            Ok(out)
        },
        VocabularyDocument::Other => Err(VocabularyError::NotArrayOrObject),
    }
}

/// Every id key among the first `n` entries is at most their largest id.
proof fn lemma_max_key_bounds(entries: Seq<(Seq<char>, Option<Seq<char>>)>, n: int, k: int)
    requires
        0 <= k < n <= entries.len(),
    ensures
        usize_of_text(entries[k].0) matches Some(id) ==> max_key_id(entries, n) matches Some(m) && id <= m,
    decreases n,
{
    if k < n - 1 {
        lemma_max_key_bounds(entries, n - 1, k);
    }
}

// ---------------------------------------------------------- line vocabulary

/// The position of the first space at or after `from`.
pub open spec fn first_space(line: Seq<char>, from: int) -> Option<int>
    decreases line.len() - from,
{
    if from < 0 || from >= line.len() {
        None
    } else if line[from] == ' ' {
        Some(from)
    } else {
        first_space(line, from + 1)
    }
}

/// The id a `token id` line gives, when its text after the first space is
/// a number; lines without a space give none.
pub open spec fn line_id(line: Seq<char>) -> Option<nat> {
    match first_space(line, 0) {
        Some(p) => usize_of_text(line.skip(p + 1)),
        None => None,
    }
}

/// Extends a table with empty tokens so that it has the entry `id`.
pub open spec fn grow_to(t: Seq<Seq<char>>, id: nat) -> Seq<Seq<char>> {
    if id < t.len() {
        t
    } else {
        t + Seq::new((id + 1 - t.len()) as nat, |k: int| Seq::<char>::empty())
    }
}

/// The token table the first `n` lines build, or `None` once a line with a
/// space has text after it that is not an id.
pub open spec fn line_table(lines: Seq<Seq<char>>, n: int) -> Option<Seq<Seq<char>>>
    decreases n,
{
    if n <= 0 {
        Some(Seq::empty())
    } else {
        match line_table(lines, n - 1) {
            None => None,
            Some(t) => {
                let line = lines[n - 1];
                match first_space(line, 0) {
                    None => Some(t),
                    Some(p) => match usize_of_text(line.skip(p + 1)) {
                        None => None,
                        Some(id) => Some(grow_to(t, id).update(id as int, line.take(p))),
                    },
                }
            },
        }
    }
}

/// Every line's id is below `usize::MAX`, so that the table of ids fits.
pub open spec fn line_ids_fit(lines: Seq<Seq<char>>) -> bool {
    forall|i: int| 0 <= i < lines.len() ==> (line_id(#[trigger] lines[i]) matches Some(id) ==> id < usize::MAX)
}

/// Token strings of a line vocabulary, by id.
#[derive(Debug, Clone)]
pub struct Vocabulary {
    id_to_token: Vec<String>,
}

impl View for Vocabulary {
    type V = Seq<Seq<char>>;

    closed spec fn view(&self) -> Seq<Seq<char>> {
        self.id_to_token@.map_values(|t: String| t@)
    }
}

fn first_space_index(cs: &Vec<char>) -> (r: Option<usize>)
    ensures
        match r {
            Some(p) => p < cs@.len() && first_space(cs@, 0) == Some(p as int),
            None => first_space(cs@, 0) is None,
        },
{
    let mut i: usize = 0;
    while i < cs.len()
        invariant
            i <= cs.len(),
            first_space(cs@, 0) == first_space(cs@, i as int),
        decreases cs.len() - i,
    {
        if cs[i] == ' ' {
            return Some(i);
        }
        i = i + 1;
    }
    None
}

impl Vocabulary {
    /// Reads `token id` lines: each line is split at its first space, lines
    /// without one are skipped, the text after it must be an id, and ids
    /// without a line have the empty token. A vocabulary without any token
    /// is an error.
    pub fn from_lines(lines: &[String]) -> (r: Result<Vocabulary, VocabularyError>)
        requires
            line_ids_fit(lines@.map_values(|l: String| l@)),
        ensures
            match line_table(lines@.map_values(|l: String| l@), lines.len() as int) {
                None => r == Err::<Vocabulary, VocabularyError>(VocabularyError::InvalidTokenId),
                Some(t) => if t.len() == 0 {
                    r == Err::<Vocabulary, VocabularyError>(VocabularyError::Empty)
                } else {
                    r matches Ok(v) && v@ == t
                },
            },
    {
        let ghost lv = lines@.map_values(|l: String| l@);
        let mut table: Vec<String> = Vec::new();
        let mut i: usize = 0;
        while i < lines.len()
            invariant
                i <= lines.len(),
                lv == lines@.map_values(|l: String| l@),
                line_ids_fit(lv),
                line_table(lv, i as int) == Some(table@.map_values(|t: String| t@)),
            decreases lines.len() - i,
        {
            let ghost before = table@.map_values(|t: String| t@);
            let cs = chars_of(lines[i].as_str());
            assert(lv[i as int] == cs@);
            let found = first_space_index(&cs);
            if let Some(p) = found {
                assert(p < cs.len());
                assert(first_space(lv[i as int], 0) == Some(p as int));
                let id_text = copy_range(&cs, p + 1, cs.len());
                assert(id_text@ =~= cs@.skip(p + 1));
                match parse_usize(&id_text) {
                    None => {
                        proof {
                            assert(usize_of_text(lv[i as int].skip(p + 1)) is None);
                            assert(line_table(lv, i as int + 1) is None);
                            lemma_line_table_stays_failed(lv, i as int + 1, lines.len() as int);
                        }
                        return Err(VocabularyError::InvalidTokenId);
                    },
                    Some(id) => {
                        assert(line_id(lv[i as int]) == Some(id as nat));
                        let token = string_from_chars(&copy_range(&cs, 0, p));
                        assert(token@ == cs@.take(p as int));
                        if table.len() <= id {
                            while table.len() <= id
                                invariant
                                    id < usize::MAX,
                                    before.len() <= table.len() <= id + 1,
                                    table@.map_values(|t: String| t@) =~= before + Seq::new((table.len() - before.len()) as nat, |k: int| Seq::<char>::empty()),
                                decreases id + 1 - table.len(),
                            {
                                let ghost prev = table@.map_values(|t: String| t@);
                                table.push(String::new());
                                proof {
                                    assert(table@.map_values(|t: String| t@) =~= prev.push(Seq::<char>::empty()));
                                }
                            }
                        }
                        proof {
                            assert(table@.map_values(|t: String| t@) =~= grow_to(before, id as nat));
                        }
                        table.set(id, token);
                        proof {
                            assert(table@.map_values(|t: String| t@) =~= grow_to(before, id as nat).update(id as int, cs@.take(p as int)));
                        }
                    },
                }
            }
            i = i + 1;
        }
        proof {
            assert(lv.len() == lines.len());
        }
        if table.len() == 0 {
            Err(VocabularyError::Empty)
        } else {
            Ok(Vocabulary { id_to_token: table })
        }
    }

    pub fn size(&self) -> (r: usize)
        ensures
            r == self@.len(),
    {
        self.id_to_token.len()
    }

    pub fn token(&self, id: usize) -> (r: Option<&str>)
        ensures
            id < self@.len() ==> (r matches Some(t) && t@ == self@[id as int]),
            id >= self@.len() ==> r is None,
    {
        if id < self.id_to_token.len() {
            Some(self.id_to_token[id].as_str())
        } else {
            None
        }
    }
}

/// Once a prefix of the lines fails, every longer prefix fails.
proof fn lemma_line_table_stays_failed(lines: Seq<Seq<char>>, k: int, n: int)
    requires
        0 <= k <= n,
        line_table(lines, k) is None,
    ensures
        line_table(lines, n) is None,
    decreases n - k,
{
    if k < n {
        lemma_line_table_stays_failed(lines, k + 1, n);
    }
}

} // verus!
