use pulldown_cmark::{Event, Options, Parser, Tag, TagEnd};
use vstd::prelude::*;
use vstd::string::StringSliceAdditionalSpecFns;
use crate::text::views_of;

verus! {

/// The parts of a markdown event stream that a table of contents reads.
pub enum MdEvent {
    /// A heading of the given level opens at the given byte offset.
    HeadingStart(u8, usize),
    /// A heading closes.
    HeadingEnd,
    /// Plain text.
    Text(String),
    /// Inline code.
    Code(String),
    /// A soft or hard line break.
    Break,
    /// Anything else.
    Other,
}

/// The events that pulldown-cmark reports for `content`.
pub uninterp spec fn markdown_events(content: Seq<char>) -> Seq<MdEvent>;

/// Relies on pulldown_cmark::Parser (tables, footnotes, strikethrough and
/// task lists enabled) with offsets: the events depend on the text alone.
#[verifier::external_body]
fn parse_markdown(content: &str) -> (r: Vec<MdEvent>)
    ensures
        r@ == markdown_events(content@),
{
    let options = Options::ENABLE_TABLES | Options::ENABLE_FOOTNOTES
        | Options::ENABLE_STRIKETHROUGH | Options::ENABLE_TASKLISTS;
    Parser::new_ext(content, options).into_offset_iter().map(|(event, range)| match event {
        Event::Start(Tag::Heading { level, .. }) => MdEvent::HeadingStart(level as u8, range.start),
        Event::End(TagEnd::Heading(_)) => MdEvent::HeadingEnd,
        Event::Text(text) => MdEvent::Text(text.into_string()),
        Event::Code(text) => MdEvent::Code(text.into_string()),
        Event::SoftBreak | Event::HardBreak => MdEvent::Break,
        _ => MdEvent::Other,
    }).collect()
}

/// A heading: the line it starts on and its text after its `#` marks.
pub struct TocEntry {
    pub line: usize,
    pub text: String,
}

/// Where the scan of the events stands: inside a heading or not, where the
/// current heading starts, its text so far, and the headings found.
pub struct ScanState {
    pub in_heading: bool,
    pub start: nat,
    pub text: Seq<char>,
    pub found: Seq<(nat, Seq<char>)>,
}

/// `n` hash marks.
pub open spec fn hashes(n: nat) -> Seq<char> {
    Seq::new(n, |i: int| '#')
}

/// Whether a heading of `level` is listed under the level limit.
pub open spec fn level_wanted(level: u8, max_level: Option<u8>) -> bool {
    match max_level {
        Some(m) => level <= m,
        None => true,
    }
}

/// The scan after one more event.
pub open spec fn scan_step(content: &str, max_level: Option<u8>, st: ScanState, ev: MdEvent) -> ScanState {
    match ev {
        MdEvent::HeadingStart(level, offset) => if level_wanted(level, max_level) {
            ScanState { in_heading: true, start: offset as nat, text: hashes(level as nat) + seq![' '], ..st }
        } else {
            st
        },
        MdEvent::HeadingEnd => if st.in_heading {
            ScanState {
                in_heading: false,
                found: st.found.push((line_of_offset(content, st.start), st.text)),
                ..st
            }
        } else {
            st
        },
        MdEvent::Text(t) => if st.in_heading {
            ScanState { text: st.text + t@, ..st }
        } else {
            st
        },
        MdEvent::Code(t) => if st.in_heading {
            ScanState { text: st.text + t@, ..st }
        } else {
            st
        },
        MdEvent::Break => if st.in_heading {
            ScanState { text: st.text + seq![' '], ..st }
        } else {
            st
        },
        MdEvent::Other => st,
    }
}

/// The scan after the first `n` events.
pub open spec fn scan(content: &str, max_level: Option<u8>, events: Seq<MdEvent>, n: int) -> ScanState
    decreases n,
{
    if n <= 0 {
        ScanState { in_heading: false, start: 0, text: seq![], found: seq![] }
    } else {
        scan_step(content, max_level, scan(content, max_level, events, n - 1), events[n - 1])
    }
}

/// The headings that the events show, with their lines.
pub open spec fn headings_of(content: &str, max_level: Option<u8>, events: Seq<MdEvent>) -> Seq<(nat, Seq<char>)> {
    scan(content, max_level, events, events.len() as int).found
}

/// The line and text of each entry.
pub open spec fn entries_view(v: Seq<TocEntry>) -> Seq<(nat, Seq<char>)> {
    v.map_values(|e: TocEntry| (e.line as nat, e.text@))
}

/// Lists the headings of level at most `max_level` (all when `None`) that
/// the events of `content` show, each with the line it starts on.
pub fn collect_headings(content: &str, events: &Vec<MdEvent>, max_level: Option<u8>) -> (r: Vec<TocEntry>)
    requires
        content.spec_bytes().len() < usize::MAX,
    ensures
        entries_view(r@) == headings_of(content, max_level, events@),
{
    let mut entries: Vec<TocEntry> = Vec::new();
    let mut in_heading = false;
    let mut start: usize = 0;
    let mut text = String::new();
    let mut i: usize = 0;
    while i < events.len()
        invariant
            i <= events@.len(),
            content.spec_bytes().len() < usize::MAX,
            ({
                let st = scan(content, max_level, events@, i as int);
                &&& st.in_heading == in_heading
                &&& st.start == start as nat
                &&& st.text == text@
                &&& st.found == entries_view(entries@)
            }),
        decreases events@.len() - i,
    {
        let ghost prev_entries = entries_view(entries@);
        match &events[i] {
            MdEvent::HeadingStart(level, offset) => {
                let wanted = match max_level {
                    Some(m) => *level <= m,
                    None => true,
                };
                if wanted {
                    in_heading = true;
                    start = *offset;
                    text = String::new();
                    let mut k: u8 = 0;
                    while k < *level
                        invariant
                            k <= *level,
                            text@ == hashes(k as nat),
                        decreases *level - k,
                    {
                        text.append("#");
                        proof {
                            reveal_strlit("#");
                            assert(text@ =~= hashes((k + 1) as nat));
                        }
                        k = k + 1;
                    }
                    text.append(" ");
                    proof {
                        reveal_strlit(" ");
                        assert(" "@ =~= seq![' ']);
                    }
                }
            },
            MdEvent::HeadingEnd => {
                if in_heading {
                    let line = offset_to_line_number(content, start);
                    let entry_text = text.clone();
                    entries.push(TocEntry { line, text: entry_text });
                    in_heading = false;
                    proof {
                        assert(entries_view(entries@) =~= prev_entries.push((line as nat, text@)));
                    }
                }
            },
            MdEvent::Text(t) => {
                if in_heading {
                    text.append(t.as_str());
                }
            },
            MdEvent::Code(t) => {
                if in_heading {
                    text.append(t.as_str());
                }
            },
            MdEvent::Break => {
                if in_heading {
                    text.append(" ");
                    proof {
                        reveal_strlit(" ");
                        assert(" "@ =~= seq![' ']);
                    }
                }
            },
            MdEvent::Other => {},
        }
        i = i + 1;
    }
    entries
}

/// Lists the headings of a markdown text, of level at most `max_level` (all
/// when `None`), each with the line it starts on.
pub fn extract_toc(content: &str, max_level: Option<u8>) -> (r: Vec<TocEntry>)
    requires
        content.spec_bytes().len() < usize::MAX,
    ensures
        entries_view(r@) == headings_of(content, max_level, markdown_events(content@)),
{
    let events = parse_markdown(content);
    collect_headings(content, &events, max_level)
}

/// The decimal digits of `n`.
pub open spec fn decimal(n: nat) -> Seq<char>
    decreases n,
{
    if n < 10 {
        seq![digit_char(n)]
    } else {
        decimal(n / 10) + seq![digit_char(n % 10)]
    }
}

/// The digit that writes `d`.
pub open spec fn digit_char(d: nat) -> char {
    if d == 0 { '0' } else if d == 1 { '1' } else if d == 2 { '2' } else if d == 3 { '3' }
    else if d == 4 { '4' } else if d == 5 { '5' } else if d == 6 { '6' } else if d == 7 { '7' }
    else if d == 8 { '8' } else { '9' }
}

fn digit(d: usize) -> (s: &'static str)
    requires
        d < 10,
    ensures
        s@ == seq![digit_char(d as nat)],
{
    proof {
        reveal_strlit("0");
        reveal_strlit("1");
        reveal_strlit("2");
        reveal_strlit("3");
        reveal_strlit("4");
        reveal_strlit("5");
        reveal_strlit("6");
        reveal_strlit("7");
        reveal_strlit("8");
        reveal_strlit("9");
    }
    let s = if d == 0 { "0" } else if d == 1 { "1" } else if d == 2 { "2" } else if d == 3 { "3" }
    else if d == 4 { "4" } else if d == 5 { "5" } else if d == 6 { "6" } else if d == 7 { "7" }
    else if d == 8 { "8" } else { "9" };
    proof {
        assert(s@ =~= seq![digit_char(d as nat)]);
    }
    s
}

/// Writes `n` in decimal.
pub fn decimal_string(n: usize) -> (r: String)
    ensures
        r@ == decimal(n as nat),
    decreases n,
{
    if n < 10 {
        String::from_str(digit(n))
    } else {
        let mut s = decimal_string(n / 10);
        s.append(digit(n % 10));
        s
    }
}

/// One line of the table of contents, without its newline.
pub open spec fn toc_line(e: (nat, Seq<char>)) -> Seq<char> {
    "Line "@ + decimal(e.0) + ": "@ + e.1
}

/// Writes the table of contents, one `Line <n>: <heading>` line per entry.
pub fn format_toc(entries: &Vec<TocEntry>) -> (r: Vec<String>)
    ensures
        views_of(r@) == entries_view(entries@).map_values(|e: (nat, Seq<char>)| toc_line(e)),
{
    let ghost want = entries_view(entries@).map_values(|e: (nat, Seq<char>)| toc_line(e));
    let mut out: Vec<String> = Vec::new();
    let mut i: usize = 0;
    while i < entries.len()
        invariant
            i <= entries@.len(),
            want == entries_view(entries@).map_values(|e: (nat, Seq<char>)| toc_line(e)),
            views_of(out@) == want.subrange(0, i as int),
        decreases entries@.len() - i,
    {
        let mut line = String::from_str("Line ");
        let n = decimal_string(entries[i].line);
        line.append(n.as_str());
        line.append(": ");
        line.append(entries[i].text.as_str());
        let ghost prev = views_of(out@);
        out.push(line);
        proof {
            assert(want[i as int] == line@);
            assert(views_of(out@) =~= prev + seq![line@]);
            assert(want.subrange(0, i + 1) =~= want.subrange(0, i as int) + seq![line@]);
        }
        i = i + 1;
    }
    proof {
        assert(want.subrange(0, entries@.len() as int) =~= want);
    }
    out
}

/// Number of newline bytes among the first `n` bytes of `bytes`.
pub open spec fn newlines_in(bytes: Seq<u8>, n: int) -> nat
    decreases n,
{
    if n <= 0 || bytes.len() == 0 {
        0
    } else if n > bytes.len() {
        newlines_in(bytes, bytes.len() as int)
    } else {
        newlines_in(bytes, n - 1) + if bytes[n - 1] == 10u8 { 1nat } else { 0nat }
    }
}

/// One-based line number of the byte at `offset` in `content` (an offset past
/// the end counts the whole text).
pub open spec fn line_of_offset(content: &str, offset: nat) -> nat {
    let bytes = content.spec_bytes();
    let end = if offset < bytes.len() { offset as int } else { bytes.len() as int };
    newlines_in(bytes, end) + 1
}

/// Maps a byte offset into `content` to its one-based line number.
pub fn offset_to_line_number(content: &str, offset: usize) -> (line: usize)
    requires
        content.spec_bytes().len() < usize::MAX,
    ensures
        line == line_of_offset(content, offset as nat),
{
    let bytes = content.as_bytes();
    let end: usize = if offset < bytes.len() { offset } else { bytes.len() };
    let mut count: usize = 0;
    let mut i: usize = 0;
    while i < end
        invariant
            bytes@ == content.spec_bytes(),
            end <= bytes@.len(),
            i <= end,
            count == newlines_in(bytes@, i as int),
            count <= i,
        decreases end - i,
    {
        if bytes[i] == 10u8 {
            count = count + 1;
        }
        i = i + 1;
    }
    count + 1
}

} // verus!
