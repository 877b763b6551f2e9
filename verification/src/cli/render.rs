//! The XML documents CLI commands print, built line by line from plain
//! values. Every user-controlled value is escaped.
use crate::cli::output::{xml_attr, xml_escape_attr, xml_escape_text, xml_text};
use crate::runtime::decimal::{decimal, push_decimal};
use crate::text::{push_char, push_str};
use vstd::prelude::*;

verus! {

pub open spec fn lines_view(s: Seq<String>) -> Seq<Seq<char>> {
    s.map_values(|x: String| x@)
}

pub open spec fn opt_text(o: Option<String>) -> Seq<char> {
    match o {
        Some(t) => t@,
        None => Seq::empty(),
    }
}

/// `indent<tag>text</tag>`, the text escaped.
pub open spec fn text_elem(indent: Seq<char>, tag: Seq<char>, text: Seq<char>) -> Seq<char> {
    indent + "<"@ + tag + ">"@ + xml_text(text) + "</"@ + tag + ">"@
}

/// `indent<tag>n</tag>`, the number in decimal.
pub open spec fn num_elem(indent: Seq<char>, tag: Seq<char>, n: nat) -> Seq<char> {
    indent + "<"@ + tag + ">"@ + decimal(n) + "</"@ + tag + ">"@
}

pub fn text_element(indent: &str, tag: &str, text: &str) -> (r: String)
    ensures
        r@ == text_elem(indent@, tag@, text@),
{
    let mut out = String::new();
    push_str(&mut out, indent);
    push_str(&mut out, "<");
    push_str(&mut out, tag);
    push_str(&mut out, ">");
    push_str(&mut out, xml_escape_text(text).as_str());
    push_str(&mut out, "</");
    push_str(&mut out, tag);
    push_str(&mut out, ">");
    proof {
        assert(out@ =~= text_elem(indent@, tag@, text@));
    }
    out
}

pub fn number_element(indent: &str, tag: &str, n: u64) -> (r: String)
    ensures
        r@ == num_elem(indent@, tag@, n as nat),
{
    let mut out = String::new();
    push_str(&mut out, indent);
    push_str(&mut out, "<");
    push_str(&mut out, tag);
    push_str(&mut out, ">");
    push_decimal(&mut out, n);
    push_str(&mut out, "</");
    push_str(&mut out, tag);
    push_str(&mut out, ">");
    proof {
        assert(out@ =~= num_elem(indent@, tag@, n as nat));
    }
    out
}

fn opt_str(o: &Option<String>) -> (r: &str)
    ensures
        r@ == opt_text(*o),
{
    match o {
        Some(t) => t.as_str(),
        None => {
            proof {
                reveal_strlit("");
            }
            ""
        },
    }
}

/// The decimal numeral of a signed number.
pub open spec fn signed_decimal(n: int) -> Seq<char> {
    if n < 0 { seq!['-'] + decimal((-n) as nat) } else { decimal(n as nat) }
}

pub fn push_signed_decimal(out: &mut String, n: i64)
    ensures
        final(out)@ == old(out)@ + signed_decimal(n as int),
{
    if n < 0 {
        push_char(out, '-');
        let magnitude: u64 = ((-(n + 1)) as u64) + 1;
        push_decimal(out, magnitude);
        assert(old(out)@.push('-') + decimal(magnitude as nat) =~= old(out)@ + signed_decimal(n as int));
    } else {
        push_decimal(out, n as u64);
    }
}

// --------------------------------------------------------------- recent

/// One meeting as the `recent` listing shows it.
#[derive(Debug, Clone, PartialEq, Eq)]
pub struct MeetingRow {
    pub id: String,
    pub started_at: String,
    pub segment_count: u64,
    pub title: String,
    pub calendar_event: Option<String>,
    pub people: String,
    pub memo_path: String,
    pub saved_note_path: Option<String>,
    pub transcript_path: String,
    pub status: String,
    pub source: String,
}

pub open spec fn vault_attr(vault_id: Option<Seq<char>>) -> Seq<char> {
    match vault_id {
        Some(id) => " vault=\""@ + xml_attr(id) + "\""@,
        None => Seq::empty(),
    }
}

pub open spec fn meeting_row_lines(m: MeetingRow, vault_id: Option<Seq<char>>) -> Seq<Seq<char>> {
    seq![
        "  <meeting id=\""@ + xml_attr(m.id@) + "\""@ + vault_attr(vault_id) + " started_at=\""@ + xml_attr(m.started_at@)
            + "\" segments=\""@ + decimal(m.segment_count as nat) + "\">"@,
        text_elem("    "@, "title"@, m.title@),
        text_elem("    "@, "calendar_event"@, opt_text(m.calendar_event)),
        text_elem("    "@, "people"@, m.people@),
        text_elem("    "@, "memo_path"@, m.memo_path@),
        text_elem("    "@, "saved_note_path"@, opt_text(m.saved_note_path)),
        text_elem("    "@, "transcript_path"@, m.transcript_path@),
        text_elem("    "@, "status"@, m.status@),
        text_elem("    "@, "source"@, m.source@),
        "  </meeting>"@,
    ]
}

/// The lines of one meeting row; `vault_id` tags rows of a listing across vaults.
pub fn meeting_lines(m: &MeetingRow, vault_id: Option<&str>) -> (r: Vec<String>)
    ensures
        lines_view(r@) == meeting_row_lines(*m, match vault_id { Some(v) => Some(v@), None => None }),
{
    let mut head = String::new();
    push_str(&mut head, "  <meeting id=\"");
    push_str(&mut head, xml_escape_attr(m.id.as_str()).as_str());
    push_str(&mut head, "\"");
    let ghost before_vault = head@;
    match vault_id {
        Some(id) => {
            push_str(&mut head, " vault=\"");
            push_str(&mut head, xml_escape_attr(id).as_str());
            push_str(&mut head, "\"");
        },
        None => {},
    }
    let ghost vault = match vault_id { Some(v) => Some(v@), None => None };
    assert(head@ =~= before_vault + vault_attr(vault));
    push_str(&mut head, " started_at=\"");
    push_str(&mut head, xml_escape_attr(m.started_at.as_str()).as_str());
    push_str(&mut head, "\" segments=\"");
    push_decimal(&mut head, m.segment_count);
    push_str(&mut head, "\">");
    let r = vec![
        head,
        text_element("    ", "title", m.title.as_str()),
        text_element("    ", "calendar_event", opt_str(&m.calendar_event)),
        text_element("    ", "people", m.people.as_str()),
        text_element("    ", "memo_path", m.memo_path.as_str()),
        text_element("    ", "saved_note_path", opt_str(&m.saved_note_path)),
        text_element("    ", "transcript_path", m.transcript_path.as_str()),
        text_element("    ", "status", m.status.as_str()),
        text_element("    ", "source", m.source.as_str()),
        "  </meeting>".to_owned(),
    ];
    proof {
        assert(lines_view(r@) =~= meeting_row_lines(*m, vault));
    }
    r
}

/// Meetings of one vault for the `recent` listing, newest first.
#[derive(Debug, Clone, PartialEq, Eq)]
pub struct MeetingGroup {
    pub vault_id: Option<String>,
    pub meetings: Vec<MeetingRow>,
}

/// At most this many meetings of each vault are listed.
pub const RECENT_LIMIT: usize = 30;

/// A hint printed once when a listed meeting has no saved note yet.
pub const DISTILL_HINT: &'static str = "To distill: in your coding agent run /plugin marketplace add byenzyme/margins, then /margins <session>.";

pub open spec fn listed(g: MeetingGroup) -> Seq<MeetingRow> {
    if g.meetings@.len() <= 30 { g.meetings@ } else { g.meetings@.take(30) }
}

pub open spec fn opt_view(o: Option<String>) -> Option<Seq<char>> {
    match o {
        Some(t) => Some(t@),
        None => None,
    }
}

pub open spec fn rows_lines(rows: Seq<MeetingRow>, vault_id: Option<Seq<char>>) -> Seq<Seq<char>>
    decreases rows.len(),
{
    if rows.len() == 0 {
        Seq::empty()
    } else {
        rows_lines(rows.drop_last(), vault_id) + meeting_row_lines(rows.last(), vault_id)
    }
}

pub open spec fn rows_undistilled(rows: Seq<MeetingRow>) -> bool
    decreases rows.len(),
{
    rows.len() > 0 && (opt_text(rows.last().saved_note_path).len() == 0 || rows_undistilled(rows.drop_last()))
}

pub open spec fn groups_lines(groups: Seq<MeetingGroup>) -> Seq<Seq<char>>
    decreases groups.len(),
{
    if groups.len() == 0 {
        Seq::empty()
    } else {
        groups_lines(groups.drop_last()) + rows_lines(listed(groups.last()), opt_view(groups.last().vault_id))
    }
}

pub open spec fn groups_undistilled(groups: Seq<MeetingGroup>) -> bool
    decreases groups.len(),
{
    groups.len() > 0 && (rows_undistilled(listed(groups.last())) || groups_undistilled(groups.drop_last()))
}

/// The `recent` listing: the first meetings of each vault, then the distill
/// hint when one of them has no saved note.
pub open spec fn recent_document(groups: Seq<MeetingGroup>) -> Seq<Seq<char>> {
    seq!["<margins_recent>"@] + groups_lines(groups)
        + (if groups_undistilled(groups) { seq![text_elem("  "@, "hint"@, DISTILL_HINT@)] } else { Seq::empty() })
        + seq!["</margins_recent>"@]
}

fn append_lines(out: &mut Vec<String>, more: Vec<String>)
    ensures
        lines_view(final(out)@) == lines_view(old(out)@) + lines_view(more@),
{
    let ghost start = lines_view(out@);
    let mut i: usize = 0;
    while i < more.len()
        invariant
            i <= more.len(),
            lines_view(out@) == start + lines_view(more@).take(i as int),
        decreases more.len() - i,
    {
        let ghost before = lines_view(out@);
        out.push(more[i].clone());
        proof {
            assert(lines_view(out@) =~= before.push(more@[i as int]@));
            assert(lines_view(more@).take(i + 1) =~= lines_view(more@).take(i as int).push(more@[i as int]@));
        }
        i = i + 1;
    }
    assert(lines_view(more@).take(more.len() as int) =~= lines_view(more@));
}

/// The `recent` listing over the vaults' meetings.
pub fn recent_lines(groups: &[MeetingGroup]) -> (r: Vec<String>)
    ensures
        lines_view(r@) == recent_document(groups@),
{
    let mut out: Vec<String> = Vec::new();
    out.push("<margins_recent>".to_owned());
    let mut any_undistilled = false;
    let mut g: usize = 0;
    while g < groups.len()
        invariant
            g <= groups.len(),
            lines_view(out@) == seq!["<margins_recent>"@] + groups_lines(groups@.take(g as int)),
            any_undistilled == groups_undistilled(groups@.take(g as int)),
        decreases groups.len() - g,
    {
        let group = &groups[g];
        let limit: usize = if group.meetings.len() <= RECENT_LIMIT { group.meetings.len() } else { RECENT_LIMIT };
        let vault: Option<&str> = match &group.vault_id {
            Some(v) => Some(v.as_str()),
            None => None,
        };
        let ghost shown = listed(*group);
        let ghost head = lines_view(out@);
        let mut k: usize = 0;
        let mut rows_flag = false;
        while k < limit
            invariant
                k <= limit,
                limit == shown.len(),
                shown == listed(*group),
                limit <= group.meetings.len(),
                forall|t: int| 0 <= t < limit ==> #[trigger] shown[t] == group.meetings@[t],
                (match vault { Some(v) => Some(v@), None => None::<Seq<char>> }) == opt_view(group.vault_id),
                lines_view(out@) == head + rows_lines(shown.take(k as int), opt_view(group.vault_id)),
                rows_flag == rows_undistilled(shown.take(k as int)),
            decreases limit - k,
        {
            let m = &group.meetings[k];
            let lines = meeting_lines(m, vault);
            proof {
                assert(shown.take(k + 1).drop_last() =~= shown.take(k as int));
            }
            append_lines(&mut out, lines);
            let unsaved = match &m.saved_note_path {
                Some(p) => crate::text::chars_of(p.as_str()).len() == 0,
                None => true,
            };
            rows_flag = rows_flag || unsaved;
            proof {
                assert(lines_view(out@) =~= head + rows_lines(shown.take(k + 1), opt_view(group.vault_id)));
            }
            k = k + 1;
        }
        assert(shown.take(limit as int) =~= shown);
        any_undistilled = any_undistilled || rows_flag;
        proof {
            assert(groups@.take(g + 1).drop_last() =~= groups@.take(g as int));
            assert(lines_view(out@) =~= seq!["<margins_recent>"@] + groups_lines(groups@.take(g + 1)));
        }
        g = g + 1;
    }
    assert(groups@.take(groups.len() as int) =~= groups@);
    let ghost body = lines_view(out@);
    if any_undistilled {
        out.push(text_element("  ", "hint", DISTILL_HINT));
    }
    out.push("</margins_recent>".to_owned());
    proof {
        assert(lines_view(out@) =~= recent_document(groups@));
    }
    out
}

/// The `recent` listing of a project without a `.margins` directory.
pub fn recent_empty_line() -> (r: &'static str)
    ensures
        r@ == "<margins_recent />"@,
{
    "<margins_recent />"
}

// ------------------------------------------------------------ transcript

/// What `transcript` shows of one meeting.
#[derive(Debug, Clone, PartialEq, Eq)]
pub struct TranscriptDoc {
    pub session_name: String,
    pub view: String,
    pub started_at: String,
    pub created_at: String,
    pub title: String,
    pub calendar_event: String,
    pub people: Vec<String>,
    pub memo_path: String,
    pub saved_note_path: Option<String>,
    pub source_path: String,
    pub speaker_alias: Option<String>,
    pub body: String,
}

/// Texts joined with `, `.
pub open spec fn comma_joined(parts: Seq<Seq<char>>) -> Seq<char>
    decreases parts.len(),
{
    if parts.len() == 0 {
        Seq::empty()
    } else if parts.len() == 1 {
        parts[0]
    } else {
        comma_joined(parts.drop_last()) + ", "@ + parts.last()
    }
}

pub fn join_comma(parts: &[String]) -> (r: String)
    ensures
        r@ == comma_joined(parts@.map_values(|x: String| x@)),
{
    let ghost view = parts@.map_values(|x: String| x@);
    let mut out = String::new();
    let mut i: usize = 0;
    while i < parts.len()
        invariant
            i <= parts.len(),
            view == parts@.map_values(|x: String| x@),
            out@ == comma_joined(view.take(i as int)),
        decreases parts.len() - i,
    {
        if i > 0 {
            push_str(&mut out, ", ");
        }
        push_str(&mut out, parts[i].as_str());
        proof {
            assert(view.take(i + 1).drop_last() =~= view.take(i as int));
            if i == 0 {
                assert(out@ =~= comma_joined(view.take(1)));
            }
        }
        i = i + 1;
    }
    assert(view.take(parts.len() as int) =~= view);
    out
}

pub open spec fn transcript_document(t: TranscriptDoc) -> Seq<Seq<char>> {
    seq![
        "<margins_transcript meeting_id=\""@ + xml_attr(t.session_name@) + "\" view=\""@ + t.view@ + "\">"@,
        "  <metadata>"@,
        text_elem("    "@, "started_at"@, t.started_at@),
        text_elem("    "@, "created_at"@, t.created_at@),
        text_elem("    "@, "title"@, t.title@),
        text_elem("    "@, "calendar_event"@, t.calendar_event@),
        text_elem("    "@, "people"@, comma_joined(t.people@.map_values(|x: String| x@))),
        text_elem("    "@, "memo_path"@, t.memo_path@),
        text_elem("    "@, "saved_note_path"@, opt_text(t.saved_note_path)),
        text_elem("    "@, "transcript_path"@, t.source_path@),
    ] + (match t.speaker_alias {
        Some(a) => seq!["    <speaker_alias channel=\"other\">"@ + xml_text(a@) + "</speaker_alias>"@],
        None => Seq::empty(),
    }) + seq!["  </metadata>"@, "  <body>"@, xml_text(t.body@), "  </body>"@, "</margins_transcript>"@]
}

/// The `transcript` document of one meeting.
pub fn transcript_lines(t: &TranscriptDoc) -> (r: Vec<String>)
    ensures
        lines_view(r@) == transcript_document(*t),
{
    let mut head = String::new();
    push_str(&mut head, "<margins_transcript meeting_id=\"");
    push_str(&mut head, xml_escape_attr(t.session_name.as_str()).as_str());
    push_str(&mut head, "\" view=\"");
    push_str(&mut head, t.view.as_str());
    push_str(&mut head, "\">");
    let people = join_comma(t.people.as_slice());
    let mut out = vec![
        head,
        "  <metadata>".to_owned(),
        text_element("    ", "started_at", t.started_at.as_str()),
        text_element("    ", "created_at", t.created_at.as_str()),
        text_element("    ", "title", t.title.as_str()),
        text_element("    ", "calendar_event", t.calendar_event.as_str()),
        text_element("    ", "people", people.as_str()),
        text_element("    ", "memo_path", t.memo_path.as_str()),
        text_element("    ", "saved_note_path", opt_str(&t.saved_note_path)),
        text_element("    ", "transcript_path", t.source_path.as_str()),
    ];
    let ghost first = lines_view(out@);
    match &t.speaker_alias {
        Some(alias) => {
            let mut line = String::new();
            push_str(&mut line, "    <speaker_alias channel=\"other\">");
            push_str(&mut line, xml_escape_text(alias.as_str()).as_str());
            push_str(&mut line, "</speaker_alias>");
            out.push(line);
        },
        None => {},
    }
    let ghost second = lines_view(out@);
    out.push("  </metadata>".to_owned());
    out.push("  <body>".to_owned());
    out.push(xml_escape_text(t.body.as_str()));
    out.push("  </body>".to_owned());
    out.push("</margins_transcript>".to_owned());
    proof {
        assert(lines_view(out@) =~= transcript_document(*t));
    }
    out
}

// -------------------------------------------------------------- sessions

pub open spec fn current_document(name: Seq<char>, title: Option<String>, started_at: Seq<char>, segments: nat, memo_path: Seq<char>) -> Seq<Seq<char>> {
    seq![
        "<margins_current id=\""@ + xml_attr(name) + "\">"@,
        text_elem("  "@, "title"@, opt_text(title)),
        text_elem("  "@, "started_at"@, started_at),
        num_elem("  "@, "segments"@, segments),
        text_elem("  "@, "memo_path"@, memo_path),
        "</margins_current>"@,
    ]
}

/// The `current` document of the current session.
pub fn current_lines(name: &str, title: &Option<String>, started_at: &str, segments: u64, memo_path: &str) -> (r: Vec<String>)
    ensures
        lines_view(r@) == current_document(name@, *title, started_at@, segments as nat, memo_path@),
{
    let mut head = String::new();
    push_str(&mut head, "<margins_current id=\"");
    push_str(&mut head, xml_escape_attr(name).as_str());
    push_str(&mut head, "\">");
    let r = vec![
        head,
        text_element("  ", "title", opt_str(title)),
        text_element("  ", "started_at", started_at),
        number_element("  ", "segments", segments),
        text_element("  ", "memo_path", memo_path),
        "</margins_current>".to_owned(),
    ];
    proof {
        assert(lines_view(r@) =~= current_document(name@, *title, started_at@, segments as nat, memo_path@));
    }
    r
}

/// The line confirming a new title for a session.
pub fn renamed_line(name: &str, title: &str) -> (r: String)
    ensures
        r@ == "<margins_renamed id=\""@ + xml_attr(name@) + "\"><title>"@ + xml_text(title@) + "</title></margins_renamed>"@,
{
    let mut out = String::new();
    push_str(&mut out, "<margins_renamed id=\"");
    push_str(&mut out, xml_escape_attr(name).as_str());
    push_str(&mut out, "\"><title>");
    push_str(&mut out, xml_escape_text(title).as_str());
    push_str(&mut out, "</title></margins_renamed>");
    proof {
        assert(out@ =~= "<margins_renamed id=\""@ + xml_attr(name@) + "\"><title>"@ + xml_text(title@) + "</title></margins_renamed>"@);
    }
    out
}

/// `s` padded with spaces on the right to `width` characters.
pub open spec fn pad_right(s: Seq<char>, width: nat) -> Seq<char> {
    if s.len() >= width { s } else { s + Seq::new((width - s.len()) as nat, |i: int| ' ') }
}

fn push_padded(out: &mut String, s: &str, width: usize)
    ensures
        final(out)@ == old(out)@ + pad_right(s@, width as nat),
{
    push_str(out, s);
    let n = crate::text::chars_of(s).len();
    let mut k: usize = n;
    let ghost base = old(out)@ + s@;
    while k < width
        invariant
            n == s@.len(),
            n <= k <= width || (n > width && k == n),
            out@ == base + Seq::new((k - n) as nat, |i: int| ' '),
        decreases width - k,
    {
        push_char(out, ' ');
        proof {
            assert(base + Seq::new((k + 1 - n) as nat, |i: int| ' ') =~= (base + Seq::new((k - n) as nat, |i: int| ' ')).push(' '));
        }
        k = k + 1;
    }
    proof {
        if n >= width {
            assert(out@ =~= old(out)@ + s@);
        } else {
            assert(out@ =~= old(out)@ + (s@ + Seq::new((width - n) as nat, |i: int| ' ')));
        }
    }
}

/// One session as `ls` lists it.
#[derive(Debug, Clone, PartialEq, Eq)]
pub struct SessionSummary {
    pub name: String,
    pub start_time: String,
    pub segment_count: u64,
    pub notes_path: String,
}

pub open spec fn session_row(name: Seq<char>, started: Seq<char>, segments: Seq<char>, notes: Seq<char>) -> Seq<char> {
    pad_right(name, 20) + " "@ + pad_right(started, 24) + " "@ + pad_right(segments, 8) + " "@ + notes
}

pub open spec fn summary_rows(s: Seq<SessionSummary>) -> Seq<Seq<char>>
    decreases s.len(),
{
    if s.len() == 0 {
        Seq::empty()
    } else {
        summary_rows(s.drop_last()).push(session_row(s.last().name@, s.last().start_time@,
            decimal(s.last().segment_count as nat), s.last().notes_path@))
    }
}

/// The `ls` table: a header, a rule and one row per session; a notice when
/// there are none.
pub open spec fn session_table(s: Seq<SessionSummary>) -> Seq<Seq<char>> {
    if s.len() == 0 {
        seq!["No sessions found."@]
    } else {
        seq![session_row("NAME"@, "STARTED"@, "SEGS"@, "NOTES"@), Seq::new(72, |i: int| '-')] + summary_rows(s)
    }
}

pub fn session_table_lines(sessions: &[SessionSummary]) -> (r: Vec<String>)
    ensures
        lines_view(r@) == session_table(sessions@),
{
    let mut out: Vec<String> = Vec::new();
    if sessions.len() == 0 {
        out.push("No sessions found.".to_owned());
        assert(lines_view(out@) =~= session_table(sessions@));
        return out;
    }
    let mut header = String::new();
    push_padded(&mut header, "NAME", 20);
    push_str(&mut header, " ");
    push_padded(&mut header, "STARTED", 24);
    push_str(&mut header, " ");
    push_padded(&mut header, "SEGS", 8);
    push_str(&mut header, " ");
    push_str(&mut header, "NOTES");
    assert(header@ =~= session_row("NAME"@, "STARTED"@, "SEGS"@, "NOTES"@));
    out.push(header);
    let mut rule = String::new();
    let mut k: usize = 0;
    while k < 72
        invariant
            k <= 72,
            rule@ == Seq::new(k as nat, |i: int| '-'),
        decreases 72 - k,
    {
        push_char(&mut rule, '-');
        assert(rule@ =~= Seq::new((k + 1) as nat, |i: int| '-'));
        k = k + 1;
    }
    out.push(rule);
    let ghost head = lines_view(out@);
    let mut i: usize = 0;
    while i < sessions.len()
        invariant
            i <= sessions.len(),
            lines_view(out@) == head + summary_rows(sessions@.take(i as int)),
        decreases sessions.len() - i,
    {
        let s = &sessions[i];
        let mut count = String::new();
        push_decimal(&mut count, s.segment_count);
        assert(count@ =~= decimal(s.segment_count as nat));
        let mut row = String::new();
        push_padded(&mut row, s.name.as_str(), 20);
        push_str(&mut row, " ");
        push_padded(&mut row, s.start_time.as_str(), 24);
        push_str(&mut row, " ");
        push_padded(&mut row, count.as_str(), 8);
        push_str(&mut row, " ");
        push_str(&mut row, s.notes_path.as_str());
        assert(row@ =~= session_row(s.name@, s.start_time@, decimal(s.segment_count as nat), s.notes_path@));
        let ghost before = lines_view(out@);
        out.push(row);
        proof {
            assert(sessions@.take(i + 1).drop_last() =~= sessions@.take(i as int));
            assert(sessions@.take(i + 1).last() == sessions@[i as int]);
            assert(lines_view(out@) =~= before.push(row@));
            assert(lines_view(out@) =~= head + summary_rows(sessions@.take(i + 1)));
        }
        i = i + 1;
    }
    assert(sessions@.take(sessions.len() as int) =~= sessions@);
    assert(lines_view(out@) =~= session_table(sessions@));
    out
}

/// The `ls` notice for a project without a `.margins` directory.
pub fn no_store_sessions_line() -> (r: &'static str)
    ensures
        r@ == "No sessions found (no .margins/ directory)."@,
{
    "No sessions found (no .margins/ directory)."
}

// ------------------------------------------------------------- artifacts

pub open spec fn bool_text(b: bool) -> Seq<char> {
    if b { "true"@ } else { "false"@ }
}

fn bool_str(b: bool) -> (r: &'static str)
    ensures
        r@ == bool_text(b),
{
    if b { "true" } else { "false" }
}

/// One registered artifact of a meeting.
#[derive(Debug, Clone, PartialEq, Eq)]
pub struct ArtifactRow {
    pub kind: String,
    pub ordinal: i64,
    pub retention_class: String,
    pub expires_at: Option<String>,
    pub path: String,
    pub exists: bool,
}

pub open spec fn artifact_row_lines(a: ArtifactRow) -> Seq<Seq<char>> {
    seq![
        "  <artifact kind=\""@ + xml_attr(a.kind@) + "\" ordinal=\""@ + signed_decimal(a.ordinal as int) + "\">"@,
        text_elem("    "@, "retention_class"@, a.retention_class@),
        text_elem("    "@, "expires_at"@, opt_text(a.expires_at)),
        text_elem("    "@, "path"@, a.path@),
        "    <exists>"@ + bool_text(a.exists) + "</exists>"@,
        "  </artifact>"@,
    ]
}

pub open spec fn artifacts_lines(s: Seq<ArtifactRow>) -> Seq<Seq<char>>
    decreases s.len(),
{
    if s.len() == 0 { Seq::empty() } else { artifacts_lines(s.drop_last()) + artifact_row_lines(s.last()) }
}

pub open spec fn artifact_document(meeting_id: Seq<char>, s: Seq<ArtifactRow>) -> Seq<Seq<char>> {
    seq!["<margins_artifacts meeting_id=\""@ + xml_attr(meeting_id) + "\">"@] + artifacts_lines(s) + seq!["</margins_artifacts>"@]
}

fn artifact_lines(a: &ArtifactRow) -> (r: Vec<String>)
    ensures
        lines_view(r@) == artifact_row_lines(*a),
{
    let mut head = String::new();
    push_str(&mut head, "  <artifact kind=\"");
    push_str(&mut head, xml_escape_attr(a.kind.as_str()).as_str());
    push_str(&mut head, "\" ordinal=\"");
    push_signed_decimal(&mut head, a.ordinal);
    push_str(&mut head, "\">");
    let mut exists = String::new();
    push_str(&mut exists, "    <exists>");
    push_str(&mut exists, bool_str(a.exists));
    push_str(&mut exists, "</exists>");
    let r = vec![
        head,
        text_element("    ", "retention_class", a.retention_class.as_str()),
        text_element("    ", "expires_at", opt_str(&a.expires_at)),
        text_element("    ", "path", a.path.as_str()),
        exists,
        "  </artifact>".to_owned(),
    ];
    proof {
        assert(lines_view(r@) =~= artifact_row_lines(*a));
    }
    r
}

/// The `artifacts` document of a meeting.
pub fn artifact_list_lines(meeting_id: &str, artifacts: &[ArtifactRow]) -> (r: Vec<String>)
    ensures
        lines_view(r@) == artifact_document(meeting_id@, artifacts@),
{
    let mut head = String::new();
    push_str(&mut head, "<margins_artifacts meeting_id=\"");
    push_str(&mut head, xml_escape_attr(meeting_id).as_str());
    push_str(&mut head, "\">");
    let ghost head_view = head@;
    let mut out: Vec<String> = Vec::new();
    out.push(head);
    let ghost first = lines_view(out@);
    assert(first =~= seq![head_view]);
    let mut i: usize = 0;
    while i < artifacts.len()
        invariant
            i <= artifacts.len(),
            lines_view(out@) == first + artifacts_lines(artifacts@.take(i as int)),
        decreases artifacts.len() - i,
    {
        append_lines(&mut out, artifact_lines(&artifacts[i]));
        proof {
            assert(artifacts@.take(i + 1).drop_last() =~= artifacts@.take(i as int));
            assert(lines_view(out@) =~= first + artifacts_lines(artifacts@.take(i + 1)));
        }
        i = i + 1;
    }
    assert(artifacts@.take(artifacts.len() as int) =~= artifacts@);
    let ghost body = lines_view(out@);
    out.push("</margins_artifacts>".to_owned());
    proof {
        assert(lines_view(out@) =~= body.push("</margins_artifacts>"@));
        assert(lines_view(out@) =~= artifact_document(meeting_id@, artifacts@));
    }
    out
}

/// One expired artifact a prune removed, or tried to.
#[derive(Debug, Clone, PartialEq, Eq)]
pub struct PrunedArtifact {
    pub session_id: String,
    pub kind: String,
    pub ordinal: i64,
    pub deleted: bool,
    pub registry_rows: u64,
    pub path: String,
    pub expires_at: Option<String>,
}

pub open spec fn pruned_row_lines(a: PrunedArtifact) -> Seq<Seq<char>> {
    seq![
        "  <artifact session_id=\""@ + xml_attr(a.session_id@) + "\" kind=\""@ + xml_attr(a.kind@) + "\" ordinal=\""@
            + signed_decimal(a.ordinal as int) + "\" deleted=\""@ + bool_text(a.deleted) + "\" registry_rows=\""@
            + decimal(a.registry_rows as nat) + "\">"@,
        text_elem("    "@, "path"@, a.path@),
        text_elem("    "@, "expires_at"@, opt_text(a.expires_at)),
        "  </artifact>"@,
    ]
}

pub open spec fn pruned_lines(s: Seq<PrunedArtifact>) -> Seq<Seq<char>>
    decreases s.len(),
{
    if s.len() == 0 { Seq::empty() } else { pruned_lines(s.drop_last()) + pruned_row_lines(s.last()) }
}

pub open spec fn prune_document(s: Seq<PrunedArtifact>, deleted: nat, rows: nat) -> Seq<Seq<char>> {
    seq!["<margins_artifacts_prune>"@] + pruned_lines(s)
        + seq!["  <summary deleted=\""@ + decimal(deleted) + "\" rows=\""@ + decimal(rows) + "\" />"@, "</margins_artifacts_prune>"@]
}

fn pruned_artifact_lines(a: &PrunedArtifact) -> (r: Vec<String>)
    ensures
        lines_view(r@) == pruned_row_lines(*a),
{
    let mut head = String::new();
    push_str(&mut head, "  <artifact session_id=\"");
    push_str(&mut head, xml_escape_attr(a.session_id.as_str()).as_str());
    push_str(&mut head, "\" kind=\"");
    push_str(&mut head, xml_escape_attr(a.kind.as_str()).as_str());
    push_str(&mut head, "\" ordinal=\"");
    push_signed_decimal(&mut head, a.ordinal);
    push_str(&mut head, "\" deleted=\"");
    push_str(&mut head, bool_str(a.deleted));
    push_str(&mut head, "\" registry_rows=\"");
    push_decimal(&mut head, a.registry_rows);
    push_str(&mut head, "\">");
    let r = vec![
        head,
        text_element("    ", "path", a.path.as_str()),
        text_element("    ", "expires_at", opt_str(&a.expires_at)),
        "  </artifact>".to_owned(),
    ];
    proof {
        assert(lines_view(r@) =~= pruned_row_lines(*a));
    }
    r
}

/// The report of an artifact prune.
pub fn prune_lines(artifacts: &[PrunedArtifact], deleted: u64, registry_rows: u64) -> (r: Vec<String>)
    ensures
        lines_view(r@) == prune_document(artifacts@, deleted as nat, registry_rows as nat),
{
    let mut out: Vec<String> = Vec::new();
    out.push("<margins_artifacts_prune>".to_owned());
    let ghost first = lines_view(out@);
    assert(first =~= seq!["<margins_artifacts_prune>"@]);
    let mut i: usize = 0;
    while i < artifacts.len()
        invariant
            i <= artifacts.len(),
            lines_view(out@) == first + pruned_lines(artifacts@.take(i as int)),
        decreases artifacts.len() - i,
    {
        append_lines(&mut out, pruned_artifact_lines(&artifacts[i]));
        proof {
            assert(artifacts@.take(i + 1).drop_last() =~= artifacts@.take(i as int));
            assert(lines_view(out@) =~= first + pruned_lines(artifacts@.take(i + 1)));
        }
        i = i + 1;
    }
    assert(artifacts@.take(artifacts.len() as int) =~= artifacts@);
    let mut summary = String::new();
    push_str(&mut summary, "  <summary deleted=\"");
    push_decimal(&mut summary, deleted);
    push_str(&mut summary, "\" rows=\"");
    push_decimal(&mut summary, registry_rows);
    push_str(&mut summary, "\" />");
    let ghost body = lines_view(out@);
    let ghost summary_view = summary@;
    out.push(summary);
    out.push("</margins_artifacts_prune>".to_owned());
    proof {
        assert(lines_view(out@) =~= body.push(summary_view).push("</margins_artifacts_prune>"@));
        assert(lines_view(out@) =~= prune_document(artifacts@, deleted as nat, registry_rows as nat));
    }
    out
}

/// The prune report of a project without a `.margins` directory.
pub fn prune_empty_line() -> (r: &'static str)
    ensures
        r@ == "<margins_artifacts_prune deleted=\"0\" rows=\"0\" />"@,
{
    "<margins_artifacts_prune deleted=\"0\" rows=\"0\" />"
}

// ------------------------------------------------------------ processing

/// What reprocessing a session produced.
#[derive(Debug, Clone, PartialEq, Eq)]
pub struct ProcessReport {
    pub session_name: String,
    pub segment_count: u64,
    pub speakers: u64,
    pub transcript_entries: u64,
    pub transcript_json: String,
    pub aligned_path: String,
    pub asr_backend: String,
}

pub open spec fn process_document(p: ProcessReport) -> Seq<Seq<char>> {
    seq![
        "<margins_process meeting_id=\""@ + xml_attr(p.session_name@) + "\" status=\"ok\">"@,
        num_elem("  "@, "segments"@, p.segment_count as nat),
        num_elem("  "@, "speakers"@, p.speakers as nat),
        num_elem("  "@, "transcript_entries"@, p.transcript_entries as nat),
        text_elem("  "@, "transcript_json"@, p.transcript_json@),
        text_elem("  "@, "aligned_path"@, p.aligned_path@),
        text_elem("  "@, "asr_backends"@, p.asr_backend@),
        "</margins_process>"@,
    ]
}

pub fn process_lines(p: &ProcessReport) -> (r: Vec<String>)
    ensures
        lines_view(r@) == process_document(*p),
{
    let mut head = String::new();
    push_str(&mut head, "<margins_process meeting_id=\"");
    push_str(&mut head, xml_escape_attr(p.session_name.as_str()).as_str());
    push_str(&mut head, "\" status=\"ok\">");
    let r = vec![
        head,
        number_element("  ", "segments", p.segment_count),
        number_element("  ", "speakers", p.speakers),
        number_element("  ", "transcript_entries", p.transcript_entries),
        text_element("  ", "transcript_json", p.transcript_json.as_str()),
        text_element("  ", "aligned_path", p.aligned_path.as_str()),
        text_element("  ", "asr_backends", p.asr_backend.as_str()),
        "</margins_process>".to_owned(),
    ];
    proof {
        assert(lines_view(r@) =~= process_document(*p));
    }
    r
}

/// What transcribing an audio file produced. `duration_secs` is the duration
/// already written with three decimals; `audio_mode` and `asr_backend` are
/// fixed identifiers and are printed as they are.
#[derive(Debug, Clone, PartialEq, Eq)]
pub struct TranscribeReport {
    pub session_name: String,
    pub audio_path: String,
    pub memo_path: String,
    pub transcript_json: String,
    pub transcript_path: String,
    pub duration_secs: String,
    pub audio_mode: String,
    pub speakers: u64,
    pub asr_backend: String,
    pub transcript_entries: u64,
}

pub open spec fn transcribe_document(t: TranscribeReport) -> Seq<Seq<char>> {
    seq![
        "<margins_transcribe meeting_id=\""@ + xml_attr(t.session_name@) + "\" status=\"ok\">"@,
        text_elem("  "@, "audio_path"@, t.audio_path@),
        text_elem("  "@, "memo_path"@, t.memo_path@),
        text_elem("  "@, "transcript_json"@, t.transcript_json@),
        text_elem("  "@, "transcript_path"@, t.transcript_path@),
        "  <duration_secs>"@ + t.duration_secs@ + "</duration_secs>"@,
        "  <audio_mode>"@ + t.audio_mode@ + "</audio_mode>"@,
        num_elem("  "@, "speakers"@, t.speakers as nat),
        "  <asr_backend>"@ + t.asr_backend@ + "</asr_backend>"@,
        num_elem("  "@, "transcript_entries"@, t.transcript_entries as nat),
        "</margins_transcribe>"@,
    ]
}

fn raw_element(open: &str, text: &str, close: &str) -> (r: String)
    ensures
        r@ == open@ + text@ + close@,
{
    let mut out = String::new();
    push_str(&mut out, open);
    push_str(&mut out, text);
    push_str(&mut out, close);
    out
}

pub fn transcribe_lines(t: &TranscribeReport) -> (r: Vec<String>)
    ensures
        lines_view(r@) == transcribe_document(*t),
{
    let mut head = String::new();
    push_str(&mut head, "<margins_transcribe meeting_id=\"");
    push_str(&mut head, xml_escape_attr(t.session_name.as_str()).as_str());
    push_str(&mut head, "\" status=\"ok\">");
    let r = vec![
        head,
        text_element("  ", "audio_path", t.audio_path.as_str()),
        text_element("  ", "memo_path", t.memo_path.as_str()),
        text_element("  ", "transcript_json", t.transcript_json.as_str()),
        text_element("  ", "transcript_path", t.transcript_path.as_str()),
        raw_element("  <duration_secs>", t.duration_secs.as_str(), "</duration_secs>"),
        raw_element("  <audio_mode>", t.audio_mode.as_str(), "</audio_mode>"),
        number_element("  ", "speakers", t.speakers),
        raw_element("  <asr_backend>", t.asr_backend.as_str(), "</asr_backend>"),
        number_element("  ", "transcript_entries", t.transcript_entries),
        "</margins_transcribe>".to_owned(),
    ];
    proof {
        assert(lines_view(r@) =~= transcribe_document(*t));
    }
    r
}

// ---------------------------------------------------------------- import

/// One imported meeting: its session, its note and, when written, its transcript.
#[derive(Debug, Clone, PartialEq, Eq)]
pub struct ImportedMeeting {
    pub session_id: String,
    pub note_path: String,
    pub transcript_path: Option<String>,
}

pub open spec fn imported_row_lines(m: ImportedMeeting) -> Seq<Seq<char>> {
    seq!["  <meeting id=\""@ + xml_attr(m.session_id@) + "\">"@, text_elem("    "@, "memo_path"@, m.note_path@)]
        + (match m.transcript_path {
            Some(p) => seq![text_elem("    "@, "transcript_path"@, p@)],
            None => Seq::empty(),
        }) + seq!["  </meeting>"@]
}

pub open spec fn imported_lines(s: Seq<ImportedMeeting>) -> Seq<Seq<char>>
    decreases s.len(),
{
    if s.len() == 0 { Seq::empty() } else { imported_lines(s.drop_last()) + imported_row_lines(s.last()) }
}

pub open spec fn import_document(imported: nat, used_vault: bool, s: Seq<ImportedMeeting>) -> Seq<Seq<char>> {
    seq!["<margins_import_granola status=\"ok\" imported=\""@ + decimal(imported) + "\" destination=\""@
        + (if used_vault { "vault"@ } else { "margins"@ }) + "\">"@]
        + (if used_vault {
            Seq::empty()
        } else {
            seq!["  <hint>No .margins/config.toml vault was configured; imported into .margins only.</hint>"@]
        }) + imported_lines(s) + seq!["</margins_import_granola>"@]
}

fn imported_meeting_lines(m: &ImportedMeeting) -> (r: Vec<String>)
    ensures
        lines_view(r@) == imported_row_lines(*m),
{
    let mut head = String::new();
    push_str(&mut head, "  <meeting id=\"");
    push_str(&mut head, xml_escape_attr(m.session_id.as_str()).as_str());
    push_str(&mut head, "\">");
    let mut r = vec![head, text_element("    ", "memo_path", m.note_path.as_str())];
    match &m.transcript_path {
        Some(p) => r.push(text_element("    ", "transcript_path", p.as_str())),
        None => {},
    }
    r.push("  </meeting>".to_owned());
    proof {
        assert(lines_view(r@) =~= imported_row_lines(*m));
    }
    r
}

/// The report of a Granola import.
pub fn import_lines(imported: u64, used_vault: bool, meetings: &[ImportedMeeting]) -> (r: Vec<String>)
    ensures
        lines_view(r@) == import_document(imported as nat, used_vault, meetings@),
{
    let mut head = String::new();
    push_str(&mut head, "<margins_import_granola status=\"ok\" imported=\"");
    push_decimal(&mut head, imported);
    push_str(&mut head, "\" destination=\"");
    push_str(&mut head, if used_vault { "vault" } else { "margins" });
    push_str(&mut head, "\">");
    let ghost head_view = head@;
    let mut out: Vec<String> = Vec::new();
    out.push(head);
    if !used_vault {
        out.push("  <hint>No .margins/config.toml vault was configured; imported into .margins only.</hint>".to_owned());
    }
    let ghost first = lines_view(out@);
    assert(first =~= seq![head_view] + (if used_vault {
        Seq::empty()
    } else {
        seq!["  <hint>No .margins/config.toml vault was configured; imported into .margins only.</hint>"@]
    }));
    let mut i: usize = 0;
    while i < meetings.len()
        invariant
            i <= meetings.len(),
            lines_view(out@) == first + imported_lines(meetings@.take(i as int)),
        decreases meetings.len() - i,
    {
        append_lines(&mut out, imported_meeting_lines(&meetings[i]));
        proof {
            assert(meetings@.take(i + 1).drop_last() =~= meetings@.take(i as int));
            assert(lines_view(out@) =~= first + imported_lines(meetings@.take(i + 1)));
        }
        i = i + 1;
    }
    assert(meetings@.take(meetings.len() as int) =~= meetings@);
    let ghost body = lines_view(out@);
    out.push("</margins_import_granola>".to_owned());
    proof {
        assert(lines_view(out@) =~= body.push("</margins_import_granola>"@));
        assert(lines_view(out@) =~= import_document(imported as nat, used_vault, meetings@));
    }
    out
}

/// The capability report of the public composition, as compact JSON with
/// keys in order: no recall, no capture, no terminal interface.
pub fn public_capabilities_json() -> (r: &'static str)
    ensures
        r@ == "{\"capture\":{\"available\":false,\"provider\":\"unavailable\"},\"composition\":\"public-open-core\",\"official\":false,\"product\":\"margins\",\"recall\":{\"available\":false,\"indexing\":false,\"local_model\":false,\"lookup\":false,\"scan\":false},\"schema\":1,\"tui\":{\"available\":false}}"@,
{
    "{\"capture\":{\"available\":false,\"provider\":\"unavailable\"},\"composition\":\"public-open-core\",\"official\":false,\"product\":\"margins\",\"recall\":{\"available\":false,\"indexing\":false,\"local_model\":false,\"lookup\":false,\"scan\":false},\"schema\":1,\"tui\":{\"available\":false}}"
}

} // verus!
