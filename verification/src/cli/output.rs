//! XML escaping and the lines the CLI prints.
use crate::cli::error::CliError;
use crate::text::{chars_of, push_char, push_str, string_from_chars};
use vstd::prelude::*;

verus! {

/// `char::is_control`: the C0 and C1 control characters.
pub open spec fn is_control(c: char) -> bool {
    (c as u32) <= 0x1f || (0x7f <= (c as u32) && (c as u32) <= 0x9f)
}

/// Characters that may appear in XML output: tab, newline and carriage
/// return, and anything that is not a control character.
pub open spec fn xml_keeps(c: char) -> bool {
    c == '\n' || c == '\r' || c == '\t' || !is_control(c)
}

pub open spec fn text_escape(c: char) -> Seq<char> {
    if !xml_keeps(c) {
        Seq::empty()
    } else if c == '&' {
        seq!['&', 'a', 'm', 'p', ';']
    } else if c == '<' {
        seq!['&', 'l', 't', ';']
    } else if c == '>' {
        seq!['&', 'g', 't', ';']
    } else {
        seq![c]
    }
}

/// Escaped XML text: characters XML cannot carry are dropped and `&`, `<`,
/// `>` become entities.
pub open spec fn xml_text(s: Seq<char>) -> Seq<char>
    decreases s.len(),
{
    if s.len() == 0 {
        Seq::empty()
    } else {
        xml_text(s.drop_last()) + text_escape(s.last())
    }
}

pub open spec fn quote_escape(c: char) -> Seq<char> {
    if c == '"' {
        seq!['&', 'q', 'u', 'o', 't', ';']
    } else if c == '\'' {
        seq!['&', 'a', 'p', 'o', 's', ';']
    } else {
        seq![c]
    }
}

pub open spec fn quotes_escaped(s: Seq<char>) -> Seq<char>
    decreases s.len(),
{
    if s.len() == 0 {
        Seq::empty()
    } else {
        quotes_escaped(s.drop_last()) + quote_escape(s.last())
    }
}

/// Escaped XML attribute value: escaped text with both quote characters as
/// entities too.
pub open spec fn xml_attr(s: Seq<char>) -> Seq<char> {
    quotes_escaped(xml_text(s))
}

/// The character itself when XML output may carry it.
pub fn xml_char(character: char) -> (r: Option<char>)
    ensures
        r == (if xml_keeps(character) { Some(character) } else { None::<char> }),
{
    let control = (character as u32) <= 0x1f || (0x7f <= (character as u32) && (character as u32) <= 0x9f);
    if character == '\n' || character == '\r' || character == '\t' || !control {
        Some(character)
    } else {
        None
    }
}

fn push_entity(out: &mut Vec<char>, c: char)
    ensures
        final(out)@ == old(out)@ + text_escape(c),
{
    match xml_char(c) {
        None => {
            assert(old(out)@ + text_escape(c) =~= old(out)@);
        },
        Some(k) => {
            let ghost o = out@;
            if k == '&' {
                out.push('&');
                out.push('a');
                out.push('m');
                out.push('p');
                out.push(';');
            } else if k == '<' {
                out.push('&');
                out.push('l');
                out.push('t');
                out.push(';');
            } else if k == '>' {
                out.push('&');
                out.push('g');
                out.push('t');
                out.push(';');
            } else {
                out.push(k);
            }
            assert(out@ =~= o + text_escape(c));
        },
    }
}

pub fn xml_escape_text(value: &str) -> (r: String)
    ensures
        r@ == xml_text(value@),
{
    let cs = chars_of(value);
    let mut out: Vec<char> = Vec::new();
    let mut i: usize = 0;
    while i < cs.len()
        invariant
            i <= cs.len(),
            out@ == xml_text(cs@.take(i as int)),
        decreases cs.len() - i,
    {
        proof {
            assert(cs@.take(i + 1).drop_last() =~= cs@.take(i as int));
        }
        push_entity(&mut out, cs[i]);
        i = i + 1;
    }
    assert(cs@.take(cs.len() as int) =~= cs@);
    string_from_chars(out.as_slice())
}

pub fn xml_escape_attr(value: &str) -> (r: String)
    ensures
        r@ == xml_attr(value@),
{
    let escaped = xml_escape_text(value);
    let cs = chars_of(escaped.as_str());
    let mut out: Vec<char> = Vec::new();
    let mut i: usize = 0;
    while i < cs.len()
        invariant
            i <= cs.len(),
            out@ == quotes_escaped(cs@.take(i as int)),
        decreases cs.len() - i,
    {
        proof {
            assert(cs@.take(i + 1).drop_last() =~= cs@.take(i as int));
        }
        let c = cs[i];
        let ghost o = out@;
        if c == '"' {
            out.push('&');
            out.push('q');
            out.push('u');
            out.push('o');
            out.push('t');
            out.push(';');
        } else if c == '\'' {
            out.push('&');
            out.push('a');
            out.push('p');
            out.push('o');
            out.push('s');
            out.push(';');
        } else {
            out.push(c);
        }
        assert(out@ =~= o + quote_escape(c));
        i = i + 1;
    }
    assert(cs@.take(cs.len() as int) =~= cs@);
    string_from_chars(out.as_slice())
}

/// The line reporting a CLI failure.
pub fn error_line(error: &CliError) -> (r: String)
    ensures
        r@ == "<margins_error code=\""@ + xml_attr(error.code_view()) + "\">"@ + xml_text(error.message_view())
            + "</margins_error>"@,
{
    let mut out = String::new();
    push_str(&mut out, "<margins_error code=\"");
    push_str(&mut out, xml_escape_attr(error.code()).as_str());
    push_str(&mut out, "\">");
    push_str(&mut out, xml_escape_text(error.message()).as_str());
    push_str(&mut out, "</margins_error>");
    proof {
        assert(out@ =~= "<margins_error code=\""@ + xml_attr(error.code_view()) + "\">"@ + xml_text(error.message_view())
            + "</margins_error>"@);
    }
    out
}

/// The line reporting an initialized vault.
pub fn init_line(root: &str, status: &str, config_path: Option<&str>) -> (r: String)
    ensures
        r@ == "<margins_init path=\""@ + xml_attr(root@) + "\" status=\""@ + xml_attr(status@) + "\""@
            + (match config_path {
                Some(p) => " config_path=\""@ + xml_attr(p@) + "\""@,
                None => Seq::<char>::empty(),
            }) + " />"@,
{
    let mut out = String::new();
    push_str(&mut out, "<margins_init path=\"");
    push_str(&mut out, xml_escape_attr(root).as_str());
    push_str(&mut out, "\" status=\"");
    push_str(&mut out, xml_escape_attr(status).as_str());
    push_str(&mut out, "\"");
    let ghost head = out@;
    if let Some(p) = config_path {
        push_str(&mut out, " config_path=\"");
        push_str(&mut out, xml_escape_attr(p).as_str());
        push_str(&mut out, "\"");
    }
    let ghost mid = out@;
    push_str(&mut out, " />");
    proof {
        assert(mid =~= head + (match config_path {
            Some(p) => " config_path=\""@ + xml_attr(p@) + "\""@,
            None => Seq::<char>::empty(),
        }));
        assert(out@ =~= "<margins_init path=\""@ + xml_attr(root@) + "\" status=\""@ + xml_attr(status@) + "\""@
            + (match config_path {
                Some(p) => " config_path=\""@ + xml_attr(p@) + "\""@,
                None => Seq::<char>::empty(),
            }) + " />"@);
    }
    out
}

/// The two lines handing workspace setup to an agent.
pub fn setup_handoff_lines(root: &str) -> (r: (String, String))
    ensures
        r.0@ == "Paste into your agent:"@,
        r.1@ == "Set up Margins in "@ + root@ + ". Run margins guide workspace-setup and follow it end to end."@,
{
    let first = "Paste into your agent:".to_owned();
    let mut second = String::new();
    push_str(&mut second, "Set up Margins in ");
    push_str(&mut second, root);
    push_str(&mut second, ". Run margins guide workspace-setup and follow it end to end.");
    proof {
        assert(second@ =~= "Set up Margins in "@ + root@ + ". Run margins guide workspace-setup and follow it end to end."@);
    }
    (first, second)
}

/// The line `margins recall` prints when no recall engine is built in.
pub fn recall_unavailable_line() -> (r: &'static str)
    ensures
        r@ == "<margins_recall status=\"unavailable\" />"@,
{
    "<margins_recall status=\"unavailable\" />"
}

/// Escaped text carries no markup: no `<` or `>`, and no character XML
/// cannot carry.
pub proof fn law_escaped_text_is_markup_free(s: Seq<char>)
    ensures
        forall|i: int| 0 <= i < xml_text(s).len() ==> #[trigger] xml_text(s)[i] != '<' && xml_text(s)[i] != '>'
            && xml_keeps(xml_text(s)[i]),
    decreases s.len(),
{
    if s.len() > 0 {
        law_escaped_text_is_markup_free(s.drop_last());
        let head = xml_text(s.drop_last());
        let tail = text_escape(s.last());
        assert(xml_text(s) == head + tail);
        assert forall|i: int| 0 <= i < xml_text(s).len() implies #[trigger] xml_text(s)[i] != '<' && xml_text(s)[i] != '>'
            && xml_keeps(xml_text(s)[i]) by {
            if i >= head.len() {
                assert(xml_text(s)[i] == tail[i - head.len()]);
            } else {
                assert(xml_text(s)[i] == head[i]);
            }
        }
    }
}

proof fn lemma_quotes_escaped_free(s: Seq<char>)
    requires
        forall|i: int| 0 <= i < s.len() ==> #[trigger] s[i] != '<' && s[i] != '>' && xml_keeps(s[i]),
    ensures
        forall|i: int| 0 <= i < quotes_escaped(s).len() ==> #[trigger] quotes_escaped(s)[i] != '<' && quotes_escaped(s)[i] != '>'
            && quotes_escaped(s)[i] != '"' && quotes_escaped(s)[i] != '\'' && xml_keeps(quotes_escaped(s)[i]),
    decreases s.len(),
{
    if s.len() > 0 {
        let d = s.drop_last();
        assert forall|i: int| 0 <= i < d.len() implies #[trigger] d[i] != '<' && d[i] != '>' && xml_keeps(d[i]) by {
            assert(d[i] == s[i]);
        }
        lemma_quotes_escaped_free(d);
        let head = quotes_escaped(d);
        let tail = quote_escape(s.last());
        let all = quotes_escaped(s);
        assert(all == head + tail);
        assert forall|i: int| 0 <= i < all.len() implies #[trigger] all[i] != '<' && all[i] != '>' && all[i] != '"'
            && all[i] != '\'' && xml_keeps(all[i]) by {
            if i >= head.len() {
                assert(all[i] == tail[i - head.len()]);
            } else {
                assert(all[i] == head[i]);
            }
        }
    }
}

/// An escaped attribute value cannot end the attribute or open markup: it
/// holds no quote of either kind, no `<` or `>`, and no character XML cannot
/// carry.
pub proof fn law_escaped_attr_is_quote_free(s: Seq<char>)
    ensures
        forall|i: int| 0 <= i < xml_attr(s).len() ==> #[trigger] xml_attr(s)[i] != '"' && xml_attr(s)[i] != '\''
            && xml_attr(s)[i] != '<' && xml_attr(s)[i] != '>' && xml_keeps(xml_attr(s)[i]),
{
    law_escaped_text_is_markup_free(s);
    lemma_quotes_escaped_free(xml_text(s));
}

} // verus!
