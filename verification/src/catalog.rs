//! Text processing of earthquake catalogue and waveform downloads: pulling
//! the CSV table out of an ISC web reply, and naming downloaded files.

use vstd::prelude::*;
use vstd::string::{StrSliceExecFns, StringExecFns};
use crate::calendar::{CalendarDate, ClockTime, valid, clock_valid, year_text, two_digits, render_pattern, format_moment};
use crate::text::{trim, str_trim, chars_of, string_from_chars, push_char, str_eq, contains_str, occurs_in};

verus! {

/// The pieces of `s` between newline characters, in order (a text without
/// newline is one piece).
pub open spec fn split_lines(s: Seq<char>) -> Seq<Seq<char>>
    decreases s.len(),
{
    split_lines_from(s, seq![])
}

/// The pieces of `cur + s` between newline characters.
pub open spec fn split_lines_from(s: Seq<char>, cur: Seq<char>) -> Seq<Seq<char>>
    decreases s.len(),
{
    if s.len() == 0 {
        seq![cur]
    } else if s[0] == '\n' {
        seq![cur] + split_lines_from(s.drop_first(), seq![])
    } else {
        split_lines_from(s.drop_first(), cur.push(s[0]))
    }
}

/// The start of the header line of the CSV table.
pub open spec fn eventid_prefix() -> Seq<char> {
    seq!['E', 'V', 'E', 'N', 'T', 'I', 'D', ',']
}

/// The line that ends the CSV table.
pub open spec fn stop_line() -> Seq<char> {
    seq!['S', 'T', 'O', 'P']
}

/// Whether `p` starts `s`.
pub open spec fn has_prefix(s: Seq<char>, p: Seq<char>) -> bool {
    p.len() <= s.len() && s.subrange(0, p.len() as int) == p
}

/// The CSV rows collected from the trimmed lines `ls`, given whether the
/// table has started: a line starting `EVENTID,` (re)starts the table and is
/// kept, inside the table `STOP` or a line starting `<` ends everything, and
/// other non-empty lines are kept; each kept line ends with a newline.
pub open spec fn payload_of(ls: Seq<Seq<char>>, inside: bool) -> Seq<char>
    decreases ls.len(),
{
    if ls.len() == 0 {
        seq![]
    } else {
        let t = trim(ls[0]);
        if has_prefix(t, eventid_prefix()) {
            t.push('\n') + payload_of(ls.drop_first(), true)
        } else if inside {
            if t == stop_line() || (t.len() > 0 && t[0] == '<') {
                seq![]
            } else if t.len() > 0 {
                t.push('\n') + payload_of(ls.drop_first(), true)
            } else {
                payload_of(ls.drop_first(), true)
            }
        } else {
            payload_of(ls.drop_first(), false)
        }
    }
}

/// The CSV table an ISC reply carries: the lines from the `EVENTID,` header
/// up to `STOP` or the next HTML tag, trimmed, each ending in a newline.
pub open spec fn spec_isc_payload(body: Seq<char>) -> Seq<char> {
    payload_of(split_lines(body), false)
}

/// Whether `p` starts `s`.
pub(crate) fn starts_with_chars(s: &Vec<char>, p: &Vec<char>) -> (r: bool)
    ensures
        r == has_prefix(s@, p@),
{
    if p.len() > s.len() {
        return false;
    }
    let mut i: usize = 0;
    while i < p.len()
        invariant
            p.len() <= s.len(),
            i <= p.len(),
            forall|j: int| 0 <= j < i ==> s@[j] == p@[j],
        decreases p.len() - i,
    {
        if s[i] != p[i] {
            assert(s@.subrange(0, p@.len() as int)[i as int] != p@[i as int]);
            return false;
        }
        i = i + 1;
    }
    assert(s@.subrange(0, p@.len() as int) =~= p@);
    true
}

/// Feed one line of the reply to the collector. Returns whether the table
/// has ended.
fn collect_line(line: &Vec<char>, inside: &mut bool, out: &mut String, prefix: &Vec<char>) -> (ended: bool)
    requires
        prefix@ == eventid_prefix(),
    ensures
        ({
            let t = trim(line@);
            if has_prefix(t, eventid_prefix()) {
                &&& !ended && *final(inside)
                &&& final(out)@ == old(out)@ + t.push('\n')
            } else if *old(inside) {
                if t == stop_line() || (t.len() > 0 && t[0] == '<') {
                    &&& ended
                    &&& final(out)@ == old(out)@
                } else if t.len() > 0 {
                    &&& !ended && *final(inside)
                    &&& final(out)@ == old(out)@ + t.push('\n')
                } else {
                    &&& !ended && *final(inside)
                    &&& final(out)@ == old(out)@
                }
            } else {
                &&& !ended && !*final(inside)
                &&& final(out)@ == old(out)@
            }
        }),
{
    let s = string_from_chars(line);
    let t = str_trim(s.as_str());
    let tc = chars_of(t);
    if starts_with_chars(&tc, prefix) {
        *inside = true;
        let mut i: usize = 0;
        let ghost o = out@;
        while i < tc.len()
            invariant
                i <= tc@.len(),
                out@ == o + tc@.take(i as int),
            decreases tc.len() - i,
        {
            push_char(out, tc[i]);
            i = i + 1;
            assert(out@ =~= o + tc@.take(i as int));
        }
        push_char(out, '\n');
        assert(tc@.take(tc@.len() as int) == tc@);
        assert(out@ =~= o + tc@.push('\n'));
        return false;
    }
    if *inside {
        proof { reveal_strlit("STOP"); assert("STOP"@ =~= stop_line()); }
        if str_eq(t, "STOP") || (tc.len() > 0 && tc[0] == '<') {
            return true;
        }
        if tc.len() > 0 {
            let mut i: usize = 0;
            let ghost o = out@;
            while i < tc.len()
                invariant
                    i <= tc@.len(),
                    out@ == o + tc@.take(i as int),
                decreases tc.len() - i,
            {
                push_char(out, tc[i]);
                i = i + 1;
                assert(out@ =~= o + tc@.take(i as int));
            }
            push_char(out, '\n');
            assert(tc@.take(tc@.len() as int) == tc@);
            assert(out@ =~= o + tc@.push('\n'));
        }
        return false;
    }
    false
}

/// Extract the CSV table from an ISC reply, which often wraps it in HTML:
/// the lines from the `EVENTID,` header up to `STOP` or the next HTML tag,
/// trimmed, each followed by a newline. Empty when there is no table.
pub fn extract_isc_csv(body: &str) -> (r: String)
    ensures
        r@ == spec_isc_payload(body@),
{
    proof {
        reveal_strlit("EVENTID,");
        assert("EVENTID,"@ =~= eventid_prefix());
    }
    let prefix = chars_of("EVENTID,");
    let b = chars_of(body);
    let mut out = String::new();
    let mut inside = false;
    let mut cur: Vec<char> = Vec::new();
    let mut i: usize = 0;
    let ghost total = spec_isc_payload(body@);
    assert(b@.skip(0) == b@);
    while i < b.len()
        invariant
            b@ == body@,
            prefix@ == eventid_prefix(),
            i <= b@.len(),
            total == spec_isc_payload(body@),
            total == out@ + payload_of(split_lines_from(b@.skip(i as int), cur@), inside),
        decreases b.len() - i,
    {
        let c = b[i];
        let ghost rest = b@.skip(i as int);
        assert(rest.drop_first() == b@.skip(i + 1));
        assert(rest[0] == c);
        if c == '\n' {
            let ghost ls = split_lines_from(rest.drop_first(), seq![]);
            assert(split_lines_from(rest, cur@) == seq![cur@] + ls);
            assert((seq![cur@] + ls)[0] == cur@);
            assert((seq![cur@] + ls).drop_first() =~= ls);
            let ghost old_out = out@;
            let ghost old_inside = inside;
            let ghost line = cur@;
            let ended = collect_line(&cur, &mut inside, &mut out, &prefix);
            proof {
                let t = trim(line);
                assert(payload_of(seq![line] + ls, old_inside) == (if has_prefix(t, eventid_prefix()) {
                    t.push('\n') + payload_of(ls, true)
                } else if old_inside {
                    if t == stop_line() || (t.len() > 0 && t[0] == '<') {
                        seq![]
                    } else if t.len() > 0 {
                        t.push('\n') + payload_of(ls, true)
                    } else {
                        payload_of(ls, true)
                    }
                } else {
                    payload_of(ls, false)
                }));
            }
            if ended {
                assert(total == out@);
                return out;
            }
            cur = Vec::new();
            assert(old_out + payload_of(seq![line] + ls, old_inside) =~= out@ + payload_of(ls, inside));
            assert(cur@ =~= Seq::<char>::empty());
        } else {
            assert(split_lines_from(rest, cur@) == split_lines_from(rest.drop_first(), cur@.push(c)));
            cur.push(c);
        }
        i = i + 1;
    }
    assert(b@.skip(i as int) =~= Seq::<char>::empty());
    assert(split_lines_from(b@.skip(i as int), cur@) == seq![cur@]);
    let ghost old_out = out@;
    let ghost old_inside = inside;
    let ghost line = cur@;
    let _ended = collect_line(&cur, &mut inside, &mut out, &prefix);
    proof {
        let t = trim(line);
        assert(seq![line].drop_first() =~= Seq::<Seq<char>>::empty());
        assert(payload_of(seq![line].drop_first(), true) == Seq::<char>::empty());
        assert(payload_of(seq![line].drop_first(), false) == Seq::<char>::empty());
        assert(old_out + payload_of(seq![line], old_inside) =~= out@);
    }
    out
}

/// A line without the carriage return that ended it.
pub open spec fn strip_cr(l: Seq<char>) -> Seq<char> {
    if l.len() > 0 && l.last() == '\r' { l.drop_last() } else { l }
}

/// The lines of `cur + s` as `str::lines` yields them.
pub open spec fn std_lines_from(s: Seq<char>, cur: Seq<char>) -> Seq<Seq<char>>
    decreases s.len(),
{
    if s.len() == 0 {
        if cur.len() > 0 { seq![cur] } else { seq![] }
    } else if s[0] == '\n' {
        seq![strip_cr(cur)] + std_lines_from(s.drop_first(), seq![])
    } else {
        std_lines_from(s.drop_first(), cur.push(s[0]))
    }
}

/// The lines of a text: pieces ended by a newline, which is dropped
/// together with a carriage return before it, and a last piece without
/// newline when it is not empty.
pub open spec fn std_lines(s: Seq<char>) -> Seq<Seq<char>> {
    std_lines_from(s, seq![])
}

/// Calls `str::lines`; claims it yields `std_lines`.
#[verifier::external_body]
pub(crate) fn lines_of(s: &str) -> (r: Vec<String>)
    ensures
        r@.len() == std_lines(s@).len(),
        forall|i: int| 0 <= i < r@.len() ==> #[trigger] r@[i]@ == std_lines(s@)[i],
{
    s.lines().map(|l| l.to_string()).collect()
}

/// The text the lines `ls` make when each is followed by a newline.
pub open spec fn joined_lines(ls: Seq<Seq<char>>) -> Seq<char>
    decreases ls.len(),
{
    if ls.len() == 0 { seq![] } else { joined_lines(ls.drop_last()) + ls.last().push('\n') }
}

/// Add the raw text of one piece of a catalogue search to what earlier
/// pieces gave: the first piece is kept whole, later pieces without their
/// header line, each line followed by a newline.
pub fn append_catalog_text(all: &mut String, raw: &str, is_first: bool)
    ensures
        is_first ==> final(all)@ == old(all)@ + raw@,
        !is_first ==> final(all)@ == old(all)@ + (if std_lines(raw@).len() > 0 { joined_lines(std_lines(raw@).drop_first()) } else { seq![] }),
{
    if is_first {
        all.append(raw);
        return;
    }
    let ls = lines_of(raw);
    if ls.len() == 0 {
        return;
    }
    let ghost tail = std_lines(raw@).drop_first();
    let ghost base = all@;
    let mut i: usize = 1;
    assert(tail.take(0) =~= Seq::<Seq<char>>::empty());
    while i < ls.len()
        invariant
            1 <= i <= ls@.len(),
            ls@.len() == std_lines(raw@).len(),
            forall|k: int| 0 <= k < ls@.len() ==> #[trigger] ls@[k]@ == std_lines(raw@)[k],
            tail == std_lines(raw@).drop_first(),
            all@ == base + joined_lines(tail.take(i - 1)),
        decreases ls.len() - i,
    {
        all.append(ls[i].as_str());
        push_char(all, '\n');
        proof {
            assert(tail.take(i as int).drop_last() =~= tail.take(i - 1));
            assert(tail.take(i as int).last() == ls@[i as int]@);
        }
        i = i + 1;
        assert(all@ =~= base + joined_lines(tail.take(i - 1)));
    }
    assert(tail.take(i - 1) =~= tail);
}

/// What an ISC catalogue reply holds.
#[derive(Debug)]
pub enum IscReply {
    /// The CSV table of events.
    Table(String),
    /// The search found no events.
    NoEvents,
    /// The server is busy or rate-limited.
    Busy,
    /// The search criteria were rejected.
    BadCriteria,
    /// Something else (HTML): the start of the reply, newlines as spaces.
    NotCsv(String),
}

/// The first 200 characters of `body`, newlines replaced by spaces.
pub open spec fn spec_snippet(body: Seq<char>) -> Seq<char> {
    let n = if body.len() < 200 { body.len() as int } else { 200int };
    Seq::new(n as nat, |i: int| if body[i] == '\n' { ' ' } else { body[i] })
}

/// The reading of a reply that `classify_isc_reply` gives.
pub open spec fn spec_classify(body: Seq<char>, r: IscReply) -> bool {
    let p = spec_isc_payload(body);
    if p.len() > 0 {
        r matches IscReply::Table(t) && t@ == p
    } else if occurs_in("No events were found"@, body) {
        r is NoEvents
    } else if occurs_in("Sorry, but your request cannot be processed at the present time"@, body) {
        r is Busy
    } else if occurs_in("The search could not be run due to problems"@, body) {
        r is BadCriteria
    } else {
        r matches IscReply::NotCsv(s) && s@ == spec_snippet(body)
    }
}

/// Read an ISC reply: the CSV table when there is one, otherwise which of
/// the known refusals the page states, or its first characters.
pub fn classify_isc_reply(body: &str) -> (r: IscReply)
    ensures
        spec_classify(body@, r),
{
    let table = extract_isc_csv(body);
    if table.as_str().unicode_len() > 0 {
        return IscReply::Table(table);
    }
    if contains_str(body, "No events were found") {
        return IscReply::NoEvents;
    }
    if contains_str(body, "Sorry, but your request cannot be processed at the present time") {
        return IscReply::Busy;
    }
    if contains_str(body, "The search could not be run due to problems") {
        return IscReply::BadCriteria;
    }
    let b = chars_of(body);
    let n: usize = if b.len() < 200 { b.len() } else { 200 };
    let mut snippet = String::new();
    let mut i: usize = 0;
    while i < n
        invariant
            b@ == body@,
            n as int == (if body@.len() < 200 { body@.len() as int } else { 200int }),
            i <= n,
            snippet@ == spec_snippet(body@).take(i as int),
        decreases n - i,
    {
        let c = if b[i] == '\n' { ' ' } else { b[i] };
        push_char(&mut snippet, c);
        i = i + 1;
        assert(snippet@ =~= spec_snippet(body@).take(i as int));
    }
    assert(spec_snippet(body@).take(n as int) =~= spec_snippet(body@));
    IscReply::NotCsv(snippet)
}

impl IscReply {
    /// The error a refusal is reported as; `None` for a table or an empty
    /// result.
    pub fn error_message(&self) -> (r: Option<String>)
        ensures
            match self {
                IscReply::Table(_) | IscReply::NoEvents => r is None,
                IscReply::Busy => r matches Some(m) && m@ == "ISC API Server is busy or rate-limited (Try again in a few minutes)."@,
                IscReply::BadCriteria => r matches Some(m) && m@ == "ISC API Error: The search could not be run due to problems with the search criteria."@,
                IscReply::NotCsv(s) => r matches Some(m) && m@ == "ISC API returned HTML instead of CSV data. Snippet: "@ + s@,
            },
    {
        match self {
            IscReply::Table(_) | IscReply::NoEvents => None,
            IscReply::Busy => Some(String::from_str("ISC API Server is busy or rate-limited (Try again in a few minutes).")),
            IscReply::BadCriteria => Some(String::from_str("ISC API Error: The search could not be run due to problems with the search criteria.")),
            IscReply::NotCsv(s) => {
                let mut m = String::from_str("ISC API returned HTML instead of CSV data. Snippet: ");
                m.append(s.as_str());
                Some(m)
            },
        }
    }
}

/// The character a channel pattern character stands as in a file name.
pub open spec fn safe_channel_char(c: char) -> Seq<char> {
    if c == ',' { seq!['_'] } else if c == '*' { seq!['A', 'L', 'L'] } else if c == '?' { seq!['A', 'N', 'Y'] } else { seq![c] }
}

/// A channel pattern made safe for a file name: `,` becomes `_`, `*`
/// becomes `ALL` and `?` becomes `ANY`.
pub open spec fn spec_safe_channel(s: Seq<char>) -> Seq<char>
    decreases s.len(),
{
    if s.len() == 0 { seq![] } else { spec_safe_channel(s.drop_last()) + safe_channel_char(s.last()) }
}

/// Make a channel pattern safe for a file name.
pub fn safe_channel(channel: &str) -> (r: String)
    ensures
        r@ == spec_safe_channel(channel@),
{
    let c = chars_of(channel);
    let mut r = String::new();
    let mut i: usize = 0;
    while i < c.len()
        invariant
            c@ == channel@,
            i <= c@.len(),
            r@ == spec_safe_channel(c@.take(i as int)),
        decreases c.len() - i,
    {
        let ch = c[i];
        let ghost before = r@;
        if ch == ',' {
            push_char(&mut r, '_');
        } else if ch == '*' {
            push_char(&mut r, 'A');
            push_char(&mut r, 'L');
            push_char(&mut r, 'L');
        } else if ch == '?' {
            push_char(&mut r, 'A');
            push_char(&mut r, 'N');
            push_char(&mut r, 'Y');
        } else {
            push_char(&mut r, ch);
        }
        assert(c@.take(i + 1).drop_last() =~= c@.take(i as int));
        assert(r@ =~= before + safe_channel_char(ch));
        i = i + 1;
    }
    assert(c@.take(c@.len() as int) =~= c@);
    r
}

/// The name of a downloaded file: `NET.STA.CHANNEL.ext` with the channel
/// made safe.
pub fn download_file_name(network: &str, station: &str, channel: &str, ext: &str) -> (r: String)
    ensures
        r@ == network@ + seq!['.'] + station@ + seq!['.'] + spec_safe_channel(channel@) + seq!['.'] + ext@,
{
    let mut r = String::from_str(network);
    push_char(&mut r, '.');
    r.append(station);
    push_char(&mut r, '.');
    let safe = safe_channel(channel);
    r.append(safe.as_str());
    push_char(&mut r, '.');
    r.append(ext);
    r
}

/// A catalogue search: the area, the period, the depth and magnitude
/// limits (the numbers as the text they are written in), and the
/// magnitude types preferred, in order.
pub struct IscSearchParams {
    pub bot_lat: String,
    pub top_lat: String,
    pub left_lon: String,
    pub right_lon: String,
    pub start_date: CalendarDate,
    pub start_time: ClockTime,
    pub end_date: CalendarDate,
    pub end_time: ClockTime,
    pub min_depth: String,
    pub max_depth: String,
    pub min_mag: String,
    pub max_mag: String,
    pub mag_priority: Vec<String>,
}

/// A time of day as `HH:MM:SS`.
pub open spec fn hms_text(t: ClockTime) -> Seq<char> {
    two_digits(t.hour as int) + seq![':'] + two_digits(t.minute as int) + seq![':'] + two_digits(t.second as int)
}

/// The request sent to the ISC bulletin search for `p`: a comprehensive
/// CSV catalogue of the rectangle, period and limits.
pub open spec fn spec_isc_query_url(p: IscSearchParams) -> Seq<char> {
    "http://www.isc.ac.uk/cgi-bin/web-db-run?out_format=CATCSV&request=COMPREHENSIVE&searchshape=RECT&bot_lat="@
        + p.bot_lat@ + "&top_lat="@ + p.top_lat@ + "&left_lon="@ + p.left_lon@ + "&right_lon="@ + p.right_lon@
        + "&start_year="@ + year_text(p.start_date.year as int) + "&start_month="@ + two_digits(p.start_date.month as int)
        + "&start_day="@ + two_digits(p.start_date.day as int) + "&start_time="@ + hms_text(p.start_time)
        + "&end_year="@ + year_text(p.end_date.year as int) + "&end_month="@ + two_digits(p.end_date.month as int)
        + "&end_day="@ + two_digits(p.end_date.day as int) + "&end_time="@ + hms_text(p.end_time)
        + "&min_dep="@ + p.min_depth@ + "&max_dep="@ + p.max_depth@ + "&min_mag="@ + p.min_mag@ + "&max_mag="@ + p.max_mag@
}

/// The year, month, day and time of day of a moment, as the ISC form takes
/// them.
fn isc_time_fields(d: CalendarDate, t: ClockTime) -> (r: (String, String, String, String))
    requires
        valid(d),
        clock_valid(t),
    ensures
        r.0@ == year_text(d.year as int),
        r.1@ == two_digits(d.month as int),
        r.2@ == two_digits(d.day as int),
        r.3@ == hms_text(t),
{
    proof {
        reveal_strlit("%Y");
        reveal_strlit("%m");
        reveal_strlit("%d");
        reveal_strlit("%H:%M:%S");
        reveal_with_fuel(render_pattern, 7);
        assert("%Y"@.subrange(2, 2) =~= Seq::<char>::empty());
        assert("%m"@.subrange(2, 2) =~= Seq::<char>::empty());
        assert("%d"@.subrange(2, 2) =~= Seq::<char>::empty());
        let p = "%H:%M:%S"@;
        assert(p.subrange(2, 8).drop_first() =~= p.subrange(3, 8));
        assert(p.subrange(3, 8).subrange(2, 5) =~= p.subrange(5, 8));
        assert(p.subrange(5, 8).drop_first() =~= p.subrange(6, 8));
        assert(p.subrange(6, 8).subrange(2, 2) =~= Seq::<char>::empty());
        assert(render_pattern("%Y"@, d, t) =~= year_text(d.year as int));
        assert(render_pattern("%m"@, d, t) =~= two_digits(d.month as int));
        assert(render_pattern("%d"@, d, t) =~= two_digits(d.day as int));
        assert(render_pattern(p, d, t) =~= hms_text(t));
    }
    let y = format_moment(d, t, "%Y");
    let m = format_moment(d, t, "%m");
    let dd = format_moment(d, t, "%d");
    let hms = format_moment(d, t, "%H:%M:%S");
    (y, m, dd, hms)
}

/// Build the ISC bulletin request for a search.
pub fn isc_query_url(p: &IscSearchParams) -> (r: String)
    requires
        valid(p.start_date),
        clock_valid(p.start_time),
        valid(p.end_date),
        clock_valid(p.end_time),
    ensures
        r@ == spec_isc_query_url(*p),
{
    let (sy, sm, sd, st) = isc_time_fields(p.start_date, p.start_time);
    let (ey, em, ed, et) = isc_time_fields(p.end_date, p.end_time);
    let mut r = String::from_str("http://www.isc.ac.uk/cgi-bin/web-db-run?out_format=CATCSV&request=COMPREHENSIVE&searchshape=RECT&bot_lat=");
    r.append(p.bot_lat.as_str());
    r.append("&top_lat=");
    r.append(p.top_lat.as_str());
    r.append("&left_lon=");
    r.append(p.left_lon.as_str());
    r.append("&right_lon=");
    r.append(p.right_lon.as_str());
    r.append("&start_year=");
    r.append(sy.as_str());
    r.append("&start_month=");
    r.append(sm.as_str());
    r.append("&start_day=");
    r.append(sd.as_str());
    r.append("&start_time=");
    r.append(st.as_str());
    r.append("&end_year=");
    r.append(ey.as_str());
    r.append("&end_month=");
    r.append(em.as_str());
    r.append("&end_day=");
    r.append(ed.as_str());
    r.append("&end_time=");
    r.append(et.as_str());
    r.append("&min_dep=");
    r.append(p.min_depth.as_str());
    r.append("&max_dep=");
    r.append(p.max_depth.as_str());
    r.append("&min_mag=");
    r.append(p.min_mag.as_str());
    r.append("&max_mag=");
    r.append(p.max_mag.as_str());
    r
}

} // verus!
