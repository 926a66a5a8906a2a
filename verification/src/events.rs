//! Rows of an ISC event table: which lines describe events, the magnitude
//! readings a row carries, and which reading is chosen for the event.

use vstd::prelude::*;
use vstd::string::StringExecFns;
use crate::text::{pieces, split_on, trim, str_trim, chars_of, string_from_chars, is_numeric, spec_is_numeric, to_uppercase, spec_uppercase};
use crate::catalog::{has_prefix, starts_with_chars};

verus! {

/// The trimmed comma-separated fields of a trimmed line.
pub open spec fn row_fields(line: Seq<char>) -> Seq<Seq<char>> {
    pieces(trim(line), ',').map_values(|f: Seq<char>| trim(f))
}

/// The start of the header line of the table.
pub open spec fn event_header() -> Seq<char> {
    seq!['E', 'V', 'E', 'N', 'T', 'I', 'D']
}

/// Every character of `s` is numeric.
pub open spec fn all_numeric(s: Seq<char>) -> bool {
    forall|i: int| 0 <= i < s.len() ==> #[trigger] spec_is_numeric(s[i])
}

/// A line of the table describes an event: it is neither blank nor the
/// header, it has at least twelve fields (up to the first magnitude), and
/// its first field, the event id, is numeric.
pub open spec fn is_event_row(line: Seq<char>) -> bool {
    let t = trim(line);
    let f = row_fields(line);
    t.len() > 0 && !has_prefix(t, event_header()) && f.len() >= 12 && all_numeric(f[0])
}

fn all_numeric_chars(v: &Vec<char>) -> (r: bool)
    ensures
        r == all_numeric(v@),
{
    let mut i: usize = 0;
    while i < v.len()
        invariant
            i <= v@.len(),
            forall|j: int| 0 <= j < i ==> #[trigger] spec_is_numeric(v@[j]),
        decreases v.len() - i,
    {
        if !is_numeric(v[i]) {
            return false;
        }
        i = i + 1;
    }
    true
}

/// The trimmed fields of a table line that describes an event; `None` for
/// the header, blank lines and lines that are not events.
pub fn event_fields(line: &str) -> (r: Option<Vec<String>>)
    ensures
        r is Some <==> is_event_row(line@),
        r matches Some(v) ==> v@.len() == row_fields(line@).len()
            && forall|k: int| 0 <= k < v@.len() ==> #[trigger] v@[k]@ == row_fields(line@)[k],
{
    let t = str_trim(line);
    let tc = chars_of(t);
    if tc.len() == 0 {
        return None;
    }
    let header = chars_of("EVENTID");
    proof {
        reveal_strlit("EVENTID");
        assert("EVENTID"@ =~= event_header());
    }
    if starts_with_chars(&tc, &header) {
        return None;
    }
    let parts = split_on(&tc, ',');
    let ghost spec_fields = row_fields(line@);
    let mut fields: Vec<String> = Vec::new();
    let mut k: usize = 0;
    while k < parts.len()
        invariant
            tc@ == trim(line@),
            parts@.len() == pieces(tc@, ',').len(),
            forall|j: int| 0 <= j < parts@.len() ==> #[trigger] parts@[j]@ == pieces(tc@, ',')[j],
            spec_fields == row_fields(line@),
            k <= parts@.len(),
            fields@.len() == k,
            forall|j: int| 0 <= j < k ==> #[trigger] fields@[j]@ == spec_fields[j],
        decreases parts.len() - k,
    {
        let raw = string_from_chars(&parts[k]);
        let f = String::from_str(str_trim(raw.as_str()));
        fields.push(f);
        k = k + 1;
    }
    if fields.len() < 12 {
        return None;
    }
    let first = chars_of(fields[0].as_str());
    if !all_numeric_chars(&first) {
        return None;
    }
    Some(fields)
}

/// One magnitude reading of an event row: who reported it, its type, and
/// its value as written.
#[derive(Debug, Clone)]
pub struct MagnitudeReading {
    pub author: String,
    pub mag_type: String,
    pub value: String,
}

/// How many complete `(author, type, value)` triplets follow the ninth
/// field of a row with `n` fields.
pub open spec fn reading_count(n: int) -> int {
    if n < 9 { 0 } else { (n - 9) / 3 }
}

/// The magnitude triplets of an event row, in order, read from field nine
/// on: author, type and value.
pub fn magnitude_readings(fields: &Vec<String>) -> (r: Vec<MagnitudeReading>)
    ensures
        r@.len() == reading_count(fields@.len() as int),
        forall|k: int| 0 <= k < r@.len() ==> {
            &&& (#[trigger] r@[k]).author@ == fields@[9 + 3 * k]@
            &&& r@[k].mag_type@ == fields@[10 + 3 * k]@
            &&& r@[k].value@ == fields@[11 + 3 * k]@
        },
{
    let n = fields.len();
    let mut r: Vec<MagnitudeReading> = Vec::new();
    let mut i: usize = 9;
    while i < n && n - i > 2
        invariant
            n == fields@.len(),
            i == 9 + 3 * r@.len(),
            r@.len() == 0 || i <= n,
            forall|k: int| 0 <= k < r@.len() ==> {
                &&& (#[trigger] r@[k]).author@ == fields@[9 + 3 * k]@
                &&& r@[k].mag_type@ == fields@[10 + 3 * k]@
                &&& r@[k].value@ == fields@[11 + 3 * k]@
            },
        decreases n - i,
    {
        let reading = MagnitudeReading {
            author: fields[i].clone(),
            mag_type: fields[i + 1].clone(),
            value: fields[i + 2].clone(),
        };
        r.push(reading);
        i = i + 3;
    }
    r
}

/// Whether a magnitude type matches a priority entry: the type starts with
/// the entry, both upper-cased.
pub open spec fn type_matches(t: Seq<char>, p: Seq<char>) -> bool {
    has_prefix(spec_uppercase(t), spec_uppercase(p))
}

/// Whether some type of `types` matches the priority entry `p`.
pub open spec fn matches_any(types: Seq<Seq<char>>, p: Seq<char>) -> bool {
    exists|j: int| 0 <= j < types.len() && #[trigger] type_matches(types[j], p)
}

/// `j` is the first type matching `p`.
pub open spec fn first_match_at(types: Seq<Seq<char>>, p: Seq<char>, j: int) -> bool {
    &&& 0 <= j < types.len()
    &&& type_matches(types[j], p)
    &&& forall|j2: int| 0 <= j2 < j ==> !#[trigger] type_matches(types[j2], p)
}

/// `q` is the first priority entry that some type matches.
pub open spec fn first_priority_at(types: Seq<Seq<char>>, prio: Seq<Seq<char>>, q: int) -> bool {
    &&& 0 <= q < prio.len()
    &&& matches_any(types, prio[q])
    &&& forall|q2: int| 0 <= q2 < q ==> !#[trigger] matches_any(types, prio[q2])
}

/// The reading chosen among `types`, given in decreasing order of
/// magnitude: the first type matching the first priority entry that any
/// type matches; the first reading when no entry matches; none when there
/// are no readings.
pub open spec fn chosen_reading(types: Seq<Seq<char>>, prio: Seq<Seq<char>>, r: Option<usize>) -> bool {
    match r {
        Some(j) => (exists|q: int| first_priority_at(types, prio, q) && first_match_at(types, prio[q], j as int))
            || ((forall|q: int| 0 <= q < prio.len() ==> !#[trigger] matches_any(types, prio[q])) && j == 0 && types.len() > 0),
        None => types.len() == 0,
    }
}

/// Choose the magnitude that stands for an event, by the user's order of
/// preferred magnitude types.
pub fn select_magnitude(types: &Vec<String>, priority: &Vec<String>) -> (r: Option<usize>)
    ensures
        chosen_reading(types@.map_values(|s: String| s@), priority@.map_values(|s: String| s@), r),
{
    let ghost ts = types@.map_values(|s: String| s@);
    let ghost ps = priority@.map_values(|s: String| s@);
    let n = types.len();
    let mut ups: Vec<Vec<char>> = Vec::new();
    let mut j: usize = 0;
    while j < n
        invariant
            n == types@.len(),
            j <= n,
            ups@.len() == j,
            forall|k: int| 0 <= k < j ==> #[trigger] ups@[k]@ == spec_uppercase(types@[k]@),
        decreases n - j,
    {
        let u = to_uppercase(types[j].as_str());
        ups.push(chars_of(u.as_str()));
        j = j + 1;
    }
    let mut q: usize = 0;
    while q < priority.len()
        invariant
            n == types@.len(),
            ts == types@.map_values(|s: String| s@),
            ps == priority@.map_values(|s: String| s@),
            ups@.len() == n,
            forall|k: int| 0 <= k < n ==> #[trigger] ups@[k]@ == spec_uppercase(types@[k]@),
            q <= priority@.len(),
            forall|q2: int| 0 <= q2 < q ==> !#[trigger] matches_any(ts, ps[q2]),
        decreases priority.len() - q,
    {
        let pu = to_uppercase(priority[q].as_str());
        let pc = chars_of(pu.as_str());
        let mut k: usize = 0;
        while k < n
            invariant
                n == types@.len(),
                ts == types@.map_values(|s: String| s@),
                ps == priority@.map_values(|s: String| s@),
                ups@.len() == n,
                forall|k2: int| 0 <= k2 < n ==> #[trigger] ups@[k2]@ == spec_uppercase(types@[k2]@),
                q < priority@.len(),
                pc@ == spec_uppercase(priority@[q as int]@),
                k <= n,
                forall|q2: int| 0 <= q2 < q ==> !#[trigger] matches_any(ts, ps[q2]),
                forall|k2: int| 0 <= k2 < k ==> !#[trigger] type_matches(ts[k2], ps[q as int]),
            decreases n - k,
        {
            if starts_with_chars(&ups[k], &pc) {
                proof {
                    assert(type_matches(ts[k as int], ps[q as int]));
                    assert(matches_any(ts, ps[q as int]));
                    assert(first_priority_at(ts, ps, q as int));
                    assert(first_match_at(ts, ps[q as int], k as int));
                }
                return Some(k);
            }
            k = k + 1;
        }
        proof {
            assert forall|j2: int| 0 <= j2 < ts.len() implies !#[trigger] type_matches(ts[j2], ps[q as int]) by {}
        }
        q = q + 1;
    }
    if n > 0 {
        Some(0)
    } else {
        None
    }
}

/// The non-empty trimmed entries among the first `n` pieces, in order.
pub open spec fn nonempty_trimmed(ps: Seq<Seq<char>>, n: int) -> Seq<Seq<char>>
    decreases n,
{
    if n <= 0 {
        Seq::empty()
    } else {
        let rest = nonempty_trimmed(ps, n - 1);
        if trim(ps[n - 1]).len() > 0 { rest.push(trim(ps[n - 1])) } else { rest }
    }
}

/// The magnitude types of a comma-separated priority list such as
/// `MW, MS, ML, MB`: each entry trimmed, empty entries left out.
pub open spec fn priority_entries(text: Seq<char>) -> Seq<Seq<char>> {
    nonempty_trimmed(pieces(text, ','), pieces(text, ',').len() as int)
}

/// Reads a comma-separated magnitude priority list.
pub fn parse_mag_priority(text: &str) -> (r: Vec<String>)
    ensures
        r@.len() == priority_entries(text@).len(),
        forall|k: int| 0 <= k < r@.len() ==> #[trigger] r@[k]@ == priority_entries(text@)[k],
{
    let tc = chars_of(text);
    let parts = split_on(&tc, ',');
    let mut out: Vec<String> = Vec::new();
    let mut k: usize = 0;
    while k < parts.len()
        invariant
            tc@ == text@,
            parts@.len() == pieces(tc@, ',').len(),
            forall|j: int| 0 <= j < parts@.len() ==> #[trigger] parts@[j]@ == pieces(tc@, ',')[j],
            k <= parts@.len(),
            out@.len() == nonempty_trimmed(pieces(tc@, ','), k as int).len(),
            forall|j: int| 0 <= j < out@.len() ==> #[trigger] out@[j]@ == nonempty_trimmed(pieces(tc@, ','), k as int)[j],
        decreases parts.len() - k,
    {
        let raw = string_from_chars(&parts[k]);
        let t = str_trim(raw.as_str());
        if t.unicode_len() > 0 {
            out.push(String::from_str(t));
        }
        k = k + 1;
    }
    out
}

} // verus!
