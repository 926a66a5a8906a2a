//! H/V spectral ratio analysis: which loaded traces are its vertical and
//! horizontal components, how the two horizontal spectra are combined,
//! and how the SESAME quality criteria combine.

use vstd::prelude::*;
use crate::text::{contains_str, occurs_in};

verus! {

/// How the two horizontal spectra are combined into one.
#[derive(Clone, Debug, Copy, PartialEq, Eq, Structural)]
pub enum HorizontalCombineMethod {
    Geometric,
    Quadratic,
    Arithmetic,
    Maximum,
}

impl Default for HorizontalCombineMethod {
    fn default() -> (r: Self)
        ensures
            r == HorizontalCombineMethod::Geometric,
    {
        HorizontalCombineMethod::Geometric
    }
}

/// Outcome of the SESAME reliability and clear-peak criteria.
#[derive(Clone, Debug)]
pub struct SesameResult {
    pub reliability_c1: bool,
    pub reliability_c2: bool,
    pub reliability_c3: bool,

    pub clear_peak_c1: bool,
    pub clear_peak_c2: bool,
    pub clear_peak_c3: bool,
    pub clear_peak_c4: bool,
    pub clear_peak_c5: bool,
    pub clear_peak_c6: bool,

    pub is_reliable: bool,
    pub is_clear_peak: bool,
}

/// The number of the six clear-peak criteria that hold.
pub open spec fn met_count(c: [bool; 6]) -> int {
    (if c[0] { 1int } else { 0 }) + (if c[1] { 1int } else { 0 }) + (if c[2] { 1int } else { 0 })
        + (if c[3] { 1int } else { 0 }) + (if c[4] { 1int } else { 0 }) + (if c[5] { 1int } else { 0 })
}

impl SesameResult {
    /// Combine the individual criteria: the curve is reliable when all
    /// three reliability criteria hold, and the peak is clear when at least
    /// five of the six clear-peak criteria hold.
    pub fn from_criteria(reliability: [bool; 3], clear_peak: [bool; 6]) -> (r: Self)
        ensures
            r.reliability_c1 == reliability[0],
            r.reliability_c2 == reliability[1],
            r.reliability_c3 == reliability[2],
            r.clear_peak_c1 == clear_peak[0],
            r.clear_peak_c2 == clear_peak[1],
            r.clear_peak_c3 == clear_peak[2],
            r.clear_peak_c4 == clear_peak[3],
            r.clear_peak_c5 == clear_peak[4],
            r.clear_peak_c6 == clear_peak[5],
            r.is_reliable == (reliability[0] && reliability[1] && reliability[2]),
            r.is_clear_peak == (met_count(clear_peak) >= 5),
    {
        let mut count: usize = 0;
        let mut i: usize = 0;
        while i < 6
            invariant
                i <= 6,
                count as int == (if i > 0 && clear_peak[0] { 1int } else { 0 }) + (if i > 1 && clear_peak[1] { 1int } else { 0 })
                    + (if i > 2 && clear_peak[2] { 1int } else { 0 }) + (if i > 3 && clear_peak[3] { 1int } else { 0 })
                    + (if i > 4 && clear_peak[4] { 1int } else { 0 }) + (if i > 5 && clear_peak[5] { 1int } else { 0 }),
            decreases 6 - i,
        {
            if clear_peak[i] {
                count = count + 1;
            }
            i = i + 1;
        }
        SesameResult {
            reliability_c1: reliability[0],
            reliability_c2: reliability[1],
            reliability_c3: reliability[2],
            clear_peak_c1: clear_peak[0],
            clear_peak_c2: clear_peak[1],
            clear_peak_c3: clear_peak[2],
            clear_peak_c4: clear_peak[3],
            clear_peak_c5: clear_peak[4],
            clear_peak_c6: clear_peak[5],
            is_reliable: reliability[0] && reliability[1] && reliability[2],
            is_clear_peak: count >= 5,
        }
    }
}

/// A component of a three-component recording.
#[derive(Clone, Debug, Copy, PartialEq, Eq, Structural)]
pub enum Component {
    Vertical,
    North,
    East,
}

/// Whether `s` ends with `c`.
pub open spec fn ends_with_char(s: Seq<char>, c: char) -> bool {
    s.len() > 0 && s.last() == c
}

/// Whether a trace with this channel code and file name records component
/// `c`: the channel or file name ends with its letter (`Z`, `N`, `E`) or,
/// for the horizontals, its digit (`1`, `2`), or the file name holds the
/// band codes `BH`, `HH` or `EH` followed by the letter.
pub open spec fn is_component(channel: Seq<char>, file: Seq<char>, c: Component) -> bool {
    match c {
        Component::Vertical =>
            ends_with_char(channel, 'Z') || occurs_in(seq!['B', 'H', 'Z'], file) || occurs_in(seq!['H', 'H', 'Z'], file)
                || occurs_in(seq!['E', 'H', 'Z'], file) || ends_with_char(file, 'Z'),
        Component::North =>
            ends_with_char(channel, 'N') || ends_with_char(channel, '1') || occurs_in(seq!['B', 'H', 'N'], file)
                || occurs_in(seq!['H', 'H', 'N'], file) || occurs_in(seq!['E', 'H', 'N'], file)
                || ends_with_char(file, 'N') || ends_with_char(file, '1'),
        Component::East =>
            ends_with_char(channel, 'E') || ends_with_char(channel, '2') || occurs_in(seq!['B', 'H', 'E'], file)
                || occurs_in(seq!['H', 'H', 'E'], file) || occurs_in(seq!['E', 'H', 'E'], file)
                || ends_with_char(file, 'E') || ends_with_char(file, '2'),
    }
}

/// The first trace from position `i` on, of those given by channel code
/// and file name, that records component `c`.
pub open spec fn first_component(ts: Seq<(Seq<char>, Seq<char>)>, c: Component, i: int) -> Option<int>
    decreases ts.len() - i,
{
    if i < 0 || i >= ts.len() {
        None
    } else if is_component(ts[i].0, ts[i].1, c) {
        Some(i)
    } else {
        first_component(ts, c, i + 1)
    }
}

/// The channel codes and file names of traces.
pub open spec fn trace_names(ts: Seq<(String, String)>) -> Seq<(Seq<char>, Seq<char>)> {
    ts.map_values(|t: (String, String)| (t.0@, t.1@))
}

fn ends_with(s: &str, c: char) -> (r: bool)
    ensures
        r == ends_with_char(s@, c),
{
    let n = s.unicode_len();
    n > 0 && s.get_char(n - 1) == c
}

fn holds_band(file: &str, c: Component) -> (r: bool)
    ensures
        r == match c {
            Component::Vertical => occurs_in(seq!['B', 'H', 'Z'], file@) || occurs_in(seq!['H', 'H', 'Z'], file@)
                || occurs_in(seq!['E', 'H', 'Z'], file@),
            Component::North => occurs_in(seq!['B', 'H', 'N'], file@) || occurs_in(seq!['H', 'H', 'N'], file@)
                || occurs_in(seq!['E', 'H', 'N'], file@),
            Component::East => occurs_in(seq!['B', 'H', 'E'], file@) || occurs_in(seq!['H', 'H', 'E'], file@)
                || occurs_in(seq!['E', 'H', 'E'], file@),
        },
{
    match c {
        Component::Vertical => {
            proof {
                reveal_strlit("BHZ");
                reveal_strlit("HHZ");
                reveal_strlit("EHZ");
                assert("BHZ"@ =~= seq!['B', 'H', 'Z']);
                assert("HHZ"@ =~= seq!['H', 'H', 'Z']);
                assert("EHZ"@ =~= seq!['E', 'H', 'Z']);
            }
            contains_str(file, "BHZ") || contains_str(file, "HHZ") || contains_str(file, "EHZ")
        },
        Component::North => {
            proof {
                reveal_strlit("BHN");
                reveal_strlit("HHN");
                reveal_strlit("EHN");
                assert("BHN"@ =~= seq!['B', 'H', 'N']);
                assert("HHN"@ =~= seq!['H', 'H', 'N']);
                assert("EHN"@ =~= seq!['E', 'H', 'N']);
            }
            contains_str(file, "BHN") || contains_str(file, "HHN") || contains_str(file, "EHN")
        },
        Component::East => {
            proof {
                reveal_strlit("BHE");
                reveal_strlit("HHE");
                reveal_strlit("EHE");
                assert("BHE"@ =~= seq!['B', 'H', 'E']);
                assert("HHE"@ =~= seq!['H', 'H', 'E']);
                assert("EHE"@ =~= seq!['E', 'H', 'E']);
            }
            contains_str(file, "BHE") || contains_str(file, "HHE") || contains_str(file, "EHE")
        },
    }
}

/// Whether the trace with this channel code and file name records `c`.
pub fn records_component(channel: &str, file: &str, c: Component) -> (r: bool)
    ensures
        r == is_component(channel@, file@, c),
{
    let band = holds_band(file, c);
    match c {
        Component::Vertical => ends_with(channel, 'Z') || band || ends_with(file, 'Z'),
        Component::North => ends_with(channel, 'N') || ends_with(channel, '1') || band
            || ends_with(file, 'N') || ends_with(file, '1'),
        Component::East => ends_with(channel, 'E') || ends_with(channel, '2') || band
            || ends_with(file, 'E') || ends_with(file, '2'),
    }
}

/// The first of the traces, given by channel code and file name, that
/// records component `c`.
pub fn find_component(traces: &Vec<(String, String)>, c: Component) -> (r: Option<usize>)
    ensures
        match r {
            Some(i) => first_component(trace_names(traces@), c, 0) == Some(i as int),
            None => first_component(trace_names(traces@), c, 0) is None,
        },
{
    let ghost ts = trace_names(traces@);
    let mut i: usize = 0;
    while i < traces.len()
        invariant
            i <= traces.len(),
            ts == trace_names(traces@),
            first_component(ts, c, 0) == first_component(ts, c, i as int),
        decreases traces.len() - i,
    {
        if records_component(traces[i].0.as_str(), traces[i].1.as_str(), c) {
            return Some(i);
        }
        i = i + 1;
    }
    None
}

/// The vertical, north and east traces for an H/V analysis: for each, the
/// first trace that records it; none unless all three are found.
pub fn hvsr_components(traces: &Vec<(String, String)>) -> (r: Option<(usize, usize, usize)>)
    ensures
        r is Some <==> (first_component(trace_names(traces@), Component::Vertical, 0) is Some
            && first_component(trace_names(traces@), Component::North, 0) is Some
            && first_component(trace_names(traces@), Component::East, 0) is Some),
        r matches Some((z, n, e)) ==> {
            &&& first_component(trace_names(traces@), Component::Vertical, 0) == Some(z as int)
            &&& first_component(trace_names(traces@), Component::North, 0) == Some(n as int)
            &&& first_component(trace_names(traces@), Component::East, 0) == Some(e as int)
        },
{
    let z = find_component(traces, Component::Vertical);
    let n = find_component(traces, Component::North);
    let e = find_component(traces, Component::East);
    match (z, n, e) {
        (Some(z), Some(n), Some(e)) => Some((z, n, e)),
        _ => None,
    }
}

/// Why a recording cannot be cut into analysis windows.
#[derive(Clone, Debug, Copy, PartialEq, Eq, Structural)]
pub enum WindowError {
    /// The recording has no samples.
    EmptyData,
    /// A window is longer than the recording, or windows do not advance.
    InvalidWindow,
}

/// The number of windows of `window` samples, each starting `step` samples
/// after the previous one, that fit in a recording of `total` samples.
pub fn count_windows(total: usize, window: usize, step: usize) -> (r: Result<usize, WindowError>)
    requires
        window > 0 || step > 1 || total < usize::MAX,
    ensures
        (r == Err::<usize, WindowError>(WindowError::EmptyData)) == (total == 0),
        (r == Err::<usize, WindowError>(WindowError::InvalidWindow)) == (total > 0 && (window > total || step == 0)),
        r matches Ok(n) ==> n == (total - window) / (step as int) + 1,
{
    if total == 0 {
        return Err(WindowError::EmptyData);
    }
    if window > total || step == 0 {
        return Err(WindowError::InvalidWindow);
    }
    let q = (total - window) / step;
    proof {
        let span = (total - window) as int;
        assert(q * step <= span) by (nonlinear_arith)
            requires q == span / (step as int), span >= 0, step >= 1;
        assert(q <= q * step) by (nonlinear_arith)
            requires q >= 0, step >= 1;
        if step > 1 {
            assert(q * 2 <= q * step) by (nonlinear_arith)
                requires q >= 0, step >= 2;
        }
    }
    Ok(q + 1)
}

/// The windows counted lie inside the recording: there is at least one,
/// and the last ends at or before the last sample.
pub proof fn law_windows_inside_recording(total: int, window: int, step: int)
    requires
        0 < total,
        0 <= window <= total,
        step > 0,
    ensures
        (total - window) / step + 1 >= 1,
        ((total - window) / step) * step + window <= total,
{
    assert(((total - window) / step) * step <= total - window) by (nonlinear_arith)
        requires total - window >= 0, step > 0;
}

} // verus!
