//! Input files of the Coulomb stress calculator: what each line of a
//! `.inp` model file states, and which columns of a receiver table hold
//! which quantity.

use vstd::prelude::*;
use crate::text::{chars_of, to_lowercase, spec_lowercase, contains_str, occurs_in, to_uppercase, spec_uppercase,
    str_trim, trim, split_whitespace, tokens, string_from_chars, find_chars, first_occurrence_from, pieces, split_on};
use crate::paths::opt_chars;

verus! {

/// The quantity a column of a receiver table holds.
#[derive(Debug, Clone, Copy, PartialEq, Eq, Structural)]
pub enum ColumnRole {
    Lon,
    Lat,
    X,
    Y,
    Z,
    Strike,
    Dip,
    Rake,
}

/// Whether `s` starts with the character `c`.
pub open spec fn starts_with_char(s: Seq<char>, c: char) -> bool {
    s.len() > 0 && s[0] == c
}

/// The quantity a lower-cased header names: the first of longitude
/// (`lon` in it), latitude (`lat`), `x…`, `y…`, `z…`, strike, dip and rake
/// that it matches.
pub open spec fn header_role(h: Seq<char>) -> Option<ColumnRole> {
    if occurs_in("lon"@, h) {
        Some(ColumnRole::Lon)
    } else if occurs_in("lat"@, h) {
        Some(ColumnRole::Lat)
    } else if starts_with_char(h, 'x') {
        Some(ColumnRole::X)
    } else if starts_with_char(h, 'y') {
        Some(ColumnRole::Y)
    } else if starts_with_char(h, 'z') {
        Some(ColumnRole::Z)
    } else if occurs_in("strike"@, h) {
        Some(ColumnRole::Strike)
    } else if occurs_in("dip"@, h) {
        Some(ColumnRole::Dip)
    } else if occurs_in("rake"@, h) {
        Some(ColumnRole::Rake)
    } else {
        None
    }
}

/// The column of each quantity in a receiver table.
#[derive(Debug, Clone, Copy, PartialEq, Eq, Structural)]
pub struct BatchColumns {
    pub lon: Option<usize>,
    pub lat: Option<usize>,
    pub x: Option<usize>,
    pub y: Option<usize>,
    pub z: Option<usize>,
    pub strike: Option<usize>,
    pub dip: Option<usize>,
    pub rake: Option<usize>,
}

/// `c` with the column of `role` set to `i`.
pub open spec fn with_role(c: BatchColumns, role: ColumnRole, i: usize) -> BatchColumns {
    match role {
        ColumnRole::Lon => BatchColumns { lon: Some(i), ..c },
        ColumnRole::Lat => BatchColumns { lat: Some(i), ..c },
        ColumnRole::X => BatchColumns { x: Some(i), ..c },
        ColumnRole::Y => BatchColumns { y: Some(i), ..c },
        ColumnRole::Z => BatchColumns { z: Some(i), ..c },
        ColumnRole::Strike => BatchColumns { strike: Some(i), ..c },
        ColumnRole::Dip => BatchColumns { dip: Some(i), ..c },
        ColumnRole::Rake => BatchColumns { rake: Some(i), ..c },
    }
}

/// The columns found among the first `n` headers: for each quantity the
/// last header naming it.
pub open spec fn columns_upto(headers: Seq<Seq<char>>, n: int) -> BatchColumns
    decreases n,
{
    if n <= 0 {
        BatchColumns { lon: None, lat: None, x: None, y: None, z: None, strike: None, dip: None, rake: None }
    } else {
        let c = columns_upto(headers, n - 1);
        match header_role(spec_lowercase(headers[n - 1])) {
            Some(role) => with_role(c, role, (n - 1) as usize),
            None => c,
        }
    }
}

fn first_char_is(s: &Vec<char>, c: char) -> (b: bool)
    ensures
        b == starts_with_char(s@, c),
{
    s.len() > 0 && s[0] == c
}

fn role_of(h: &str) -> (r: Option<ColumnRole>)
    ensures
        r == header_role(spec_lowercase(h@)),
{
    let lower = to_lowercase(h);
    let l = lower.as_str();
    let lc = chars_of(l);
    if contains_str(l, "lon") {
        Some(ColumnRole::Lon)
    } else if contains_str(l, "lat") {
        Some(ColumnRole::Lat)
    } else if first_char_is(&lc, 'x') {
        Some(ColumnRole::X)
    } else if first_char_is(&lc, 'y') {
        Some(ColumnRole::Y)
    } else if first_char_is(&lc, 'z') {
        Some(ColumnRole::Z)
    } else if contains_str(l, "strike") {
        Some(ColumnRole::Strike)
    } else if contains_str(l, "dip") {
        Some(ColumnRole::Dip)
    } else if contains_str(l, "rake") {
        Some(ColumnRole::Rake)
    } else {
        None
    }
}

/// Find the columns of a receiver table from its header names.
pub fn batch_columns(headers: &Vec<String>) -> (r: BatchColumns)
    ensures
        r == columns_upto(headers@.map_values(|s: String| s@), headers@.len() as int),
{
    let ghost hs = headers@.map_values(|s: String| s@);
    let mut c = BatchColumns { lon: None, lat: None, x: None, y: None, z: None, strike: None, dip: None, rake: None };
    let mut i: usize = 0;
    while i < headers.len()
        invariant
            i <= headers@.len(),
            hs == headers@.map_values(|s: String| s@),
            c == columns_upto(hs, i as int),
        decreases headers.len() - i,
    {
        match role_of(headers[i].as_str()) {
            Some(ColumnRole::Lon) => c.lon = Some(i),
            Some(ColumnRole::Lat) => c.lat = Some(i),
            Some(ColumnRole::X) => c.x = Some(i),
            Some(ColumnRole::Y) => c.y = Some(i),
            Some(ColumnRole::Z) => c.z = Some(i),
            Some(ColumnRole::Strike) => c.strike = Some(i),
            Some(ColumnRole::Dip) => c.dip = Some(i),
            Some(ColumnRole::Rake) => c.rake = Some(i),
            None => {},
        }
        i = i + 1;
    }
    c
}

/// The part of a `.inp` file a line belongs to.
#[derive(Debug, Clone, Copy, PartialEq, Eq, Structural)]
pub enum InpSection {
    Header,
    Grid,
    SizeParams,
    CrossSection,
    MapInfo,
}

/// The section a trimmed, upper-cased line opens, when it is a section
/// title.
pub open spec fn section_title(t: Seq<char>) -> Option<InpSection> {
    if occurs_in("GRID PARAMETERS"@, t) {
        Some(InpSection::Grid)
    } else if occurs_in("SIZE PARAMETERS"@, t) {
        Some(InpSection::SizeParams)
    } else if occurs_in("CROSS SECTION"@, t) {
        Some(InpSection::CrossSection)
    } else if occurs_in("MAP INFO"@, t) {
        Some(InpSection::MapInfo)
    } else {
        None
    }
}

/// The first word after the first occurrence of `key` in `up`.
pub open spec fn word_after(up: Seq<char>, key: Seq<char>) -> Option<Seq<char>> {
    let p = first_occurrence_from(key, up, 0);
    if p < 0 {
        None
    } else {
        let t = tokens(up.subrange(p + key.len(), up.len() as int));
        if t.len() > 0 { Some(t[0]) } else { None }
    }
}

/// Which grid setting an upper-cased line names: start, finish and step in
/// x and y, in that order.
pub open spec fn grid_key(up: Seq<char>) -> Option<usize> {
    if occurs_in("START-X"@, up) { Some(0) }
    else if occurs_in("START-Y"@, up) { Some(1) }
    else if occurs_in("FINISH-X"@, up) { Some(2) }
    else if occurs_in("FINISH-Y"@, up) { Some(3) }
    else if occurs_in("X-INC"@, up) { Some(4) }
    else if occurs_in("Y-INC"@, up) { Some(5) }
    else { None }
}

/// Which cross-section setting an upper-cased line names: start and finish
/// in x and y.
pub open spec fn cross_key(up: Seq<char>) -> Option<usize> {
    if occurs_in("START-X"@, up) { Some(0) }
    else if occurs_in("START-Y"@, up) { Some(1) }
    else if occurs_in("FINISH-X"@, up) { Some(2) }
    else if occurs_in("FINISH-Y"@, up) { Some(3) }
    else { None }
}

/// Which map setting an upper-cased line names: least, greatest and origin
/// longitude, then the same for latitude.
pub open spec fn map_key(up: Seq<char>) -> Option<usize> {
    if occurs_in("MIN. LON"@, up) { Some(0) }
    else if occurs_in("MAX. LON"@, up) { Some(1) }
    else if occurs_in("ZERO LON"@, up) { Some(2) }
    else if occurs_in("MIN. LAT"@, up) { Some(3) }
    else if occurs_in("MAX. LAT"@, up) { Some(4) }
    else if occurs_in("ZERO LAT"@, up) { Some(5) }
    else { None }
}

/// The value a `key = value` line gives: the first word after the `=`, or
/// nothing.
pub open spec fn assigned_value(up: Seq<char>) -> Seq<char> {
    let t = tokens(pieces(up, '=')[1]);
    if t.len() > 0 { t[0] } else { seq![] }
}

/// The setting an upper-cased line with exactly one `=` gives in a grid,
/// cross-section or map section: which one, and its value as written.
pub open spec fn setting_of(up: Seq<char>, sec: InpSection) -> Option<(usize, Seq<char>)> {
    if pieces(up, '=').len() == 2 {
        let key = match sec {
            InpSection::Grid => grid_key(up),
            InpSection::CrossSection => cross_key(up),
            InpSection::MapInfo => map_key(up),
            _ => None,
        };
        match key {
            Some(k) => Some((k, assigned_value(up))),
            None => None,
        }
    } else {
        None
    }
}

/// What one line of a `.inp` file states. Numbers are kept as the words
/// they are written as.
pub struct InpLine {
    /// The section after this line.
    pub section: InpSection,
    /// Whether the fault table is open after this line.
    pub in_faults: bool,
    /// Poisson's ratio (`PR1=`).
    pub poisson: Option<String>,
    /// The calculation depth (`DEPTH=` on the `PR1=` line).
    pub depth: Option<String>,
    /// Young's modulus (`E1=`, on a line with `E2=`).
    pub young: Option<String>,
    /// The friction coefficient (`FRIC=`).
    pub friction: Option<String>,
    /// The words of a regional stress line (`SIGMA1-SIGMA3`), upper-cased.
    pub stress: Option<Vec<String>>,
    /// The words of a row of the fault table with at least eleven words.
    pub fault_row: Option<Vec<String>>,
    /// A numbered setting of the current section and its value.
    pub setting: Option<(usize, String)>,
}

/// The characters of each word of an optional list.
pub open spec fn opt_words(o: Option<Vec<String>>) -> Option<Seq<Seq<char>>> {
    match o {
        Some(v) => Some(v@.map_values(|s: String| s@)),
        None => None,
    }
}

/// The characters of an optional numbered value.
pub open spec fn opt_setting(o: Option<(usize, String)>) -> Option<(usize, Seq<char>)> {
    match o {
        Some((k, v)) => Some((k, v@)),
        None => None,
    }
}

/// `r` is what `line` states when it follows a line that left section
/// `sec` and the fault table open or not (`faults`): a section title only
/// changes the section; otherwise the header values it names are read, a
/// line with `XXX` opens or closes the fault table, and any other line may
/// be a fault row and a setting of the section.
#[verifier::opaque]
pub open spec fn inp_line_reads(r: InpLine, line: Seq<char>, sec: InpSection, faults: bool) -> bool {
    let up = spec_uppercase(line);
    match section_title(trim(up)) {
        Some(ns) => {
            &&& r.section == ns
            &&& r.in_faults == faults
            &&& r.poisson is None && r.depth is None && r.young is None && r.friction is None
            &&& r.stress is None && r.fault_row is None && r.setting is None
        },
        None => {
            &&& r.section == sec
            &&& opt_chars(r.poisson) == (if occurs_in("PR1="@, up) { word_after(up, "PR1="@) } else { None })
            &&& opt_chars(r.depth) == (if occurs_in("PR1="@, up) { word_after(up, "DEPTH="@) } else { None })
            &&& opt_chars(r.young) == (if occurs_in("E1="@, up) && occurs_in("E2="@, up) { word_after(up, "E1="@) } else { None })
            &&& opt_chars(r.friction) == (if occurs_in("FRIC="@, up) { word_after(up, "FRIC="@) } else { None })
            &&& opt_words(r.stress) == (if occurs_in("SIGMA1-SIGMA3"@, up) { Some(tokens(up)) } else { None })
            &&& if occurs_in("XXX"@, up) {
                &&& r.in_faults == !faults
                &&& r.fault_row is None
                &&& r.setting is None
            } else {
                &&& r.in_faults == faults
                &&& opt_words(r.fault_row) == (if faults && tokens(line).len() >= 11 { Some(tokens(line)) } else { None })
                &&& opt_setting(r.setting) == setting_of(up, sec)
            }
        },
    }
}

fn word_after_key(upc: &Vec<char>, key: &str) -> (r: Option<String>)
    ensures
        opt_chars(r) == word_after(upc@, key@),
{
    let kc = chars_of(key);
    match find_chars(upc, &kc) {
        Some(p) => {
            let total = upc.len();
            assert(p + kc@.len() <= total);
            let start = p + kc.len();
            let mut rest: Vec<char> = Vec::new();
            let mut i: usize = start;
            while i < upc.len()
                invariant
                    start <= i <= upc@.len(),
                    rest@ == upc@.subrange(start as int, i as int),
                decreases upc.len() - i,
            {
                rest.push(upc[i]);
                i = i + 1;
                assert(rest@ =~= upc@.subrange(start as int, i as int));
            }
            let rs = string_from_chars(&rest);
            let words = split_whitespace(rs.as_str());
            if words.len() > 0 {
                let w = words[0].clone();
                Some(w)
            } else {
                None
            }
        },
        None => None,
    }
}

fn setting_in(upc: &Vec<char>, up: &str, sec: InpSection) -> (r: Option<(usize, String)>)
    requires
        upc@ == up@,
    ensures
        opt_setting(r) == setting_of(up@, sec),
{
    let parts = split_on(upc, '=');
    if parts.len() != 2 {
        return None;
    }
    let key: Option<usize> = match sec {
        InpSection::Grid => {
            if contains_str(up, "START-X") { Some(0) }
            else if contains_str(up, "START-Y") { Some(1) }
            else if contains_str(up, "FINISH-X") { Some(2) }
            else if contains_str(up, "FINISH-Y") { Some(3) }
            else if contains_str(up, "X-INC") { Some(4) }
            else if contains_str(up, "Y-INC") { Some(5) }
            else { None }
        },
        InpSection::CrossSection => {
            if contains_str(up, "START-X") { Some(0) }
            else if contains_str(up, "START-Y") { Some(1) }
            else if contains_str(up, "FINISH-X") { Some(2) }
            else if contains_str(up, "FINISH-Y") { Some(3) }
            else { None }
        },
        InpSection::MapInfo => {
            if contains_str(up, "MIN. LON") { Some(0) }
            else if contains_str(up, "MAX. LON") { Some(1) }
            else if contains_str(up, "ZERO LON") { Some(2) }
            else if contains_str(up, "MIN. LAT") { Some(3) }
            else if contains_str(up, "MAX. LAT") { Some(4) }
            else if contains_str(up, "ZERO LAT") { Some(5) }
            else { None }
        },
        _ => None,
    };
    match key {
        Some(k) => {
            let rhs = string_from_chars(&parts[1]);
            let words = split_whitespace(rhs.as_str());
            let v = if words.len() > 0 { words[0].clone() } else { String::new() };
            Some((k, v))
        },
        None => None,
    }
}

/// Read one line of a `.inp` file, given the section and the state of the
/// fault table left by the lines before it.
pub fn classify_inp_line(line: &str, sec: InpSection, in_faults: bool) -> (r: InpLine)
    ensures
        inp_line_reads(r, line@, sec, in_faults),
{
    proof {
        reveal(inp_line_reads);
    }
    let up_s = to_uppercase(line);
    let up = up_s.as_str();
    let t = str_trim(up);
    let title: Option<InpSection> = if contains_str(t, "GRID PARAMETERS") {
        Some(InpSection::Grid)
    } else if contains_str(t, "SIZE PARAMETERS") {
        Some(InpSection::SizeParams)
    } else if contains_str(t, "CROSS SECTION") {
        Some(InpSection::CrossSection)
    } else if contains_str(t, "MAP INFO") {
        Some(InpSection::MapInfo)
    } else {
        None
    };
    if let Some(ns) = title {
        return InpLine {
            section: ns,
            in_faults,
            poisson: None,
            depth: None,
            young: None,
            friction: None,
            stress: None,
            fault_row: None,
            setting: None,
        };
    }
    let upc = chars_of(up);
    let has_pr1 = contains_str(up, "PR1=");
    let poisson = if has_pr1 { word_after_key(&upc, "PR1=") } else { None };
    let depth = if has_pr1 { word_after_key(&upc, "DEPTH=") } else { None };
    let young = if contains_str(up, "E1=") && contains_str(up, "E2=") { word_after_key(&upc, "E1=") } else { None };
    let friction = if contains_str(up, "FRIC=") { word_after_key(&upc, "FRIC=") } else { None };
    let stress = if contains_str(up, "SIGMA1-SIGMA3") { Some(split_whitespace(up)) } else { None };
    proof {
        if stress is Some {
            assert(stress->0@.map_values(|s: String| s@) =~= tokens(up@));
        }
    }
    if contains_str(up, "XXX") {
        return InpLine {
            section: sec,
            in_faults: !in_faults,
            poisson,
            depth,
            young,
            friction,
            stress,
            fault_row: None,
            setting: None,
        };
    }
    let fault_row = if in_faults {
        let w = split_whitespace(line);
        if w.len() >= 11 {
            proof {
                assert(w@.map_values(|s: String| s@) =~= tokens(line@));
            }
            Some(w)
        } else {
            None
        }
    } else {
        None
    };
    let setting = setting_in(&upc, up, sec);
    InpLine { section: sec, in_faults, poisson, depth, young, friction, stress, fault_row, setting }
}

/// The section in force before line `k`, given what the lines before it
/// read.
pub open spec fn section_before(r: Seq<InpLine>, k: int) -> InpSection {
    if k <= 0 { InpSection::Header } else { r[k - 1].section }
}

/// Whether the fault table is open before line `k`.
pub open spec fn faults_before(r: Seq<InpLine>, k: int) -> bool {
    if k <= 0 { false } else { r[k - 1].in_faults }
}

/// Read the lines of a `.inp` file in order, from the header section with
/// the fault table closed.
pub fn classify_inp_lines(lines: &Vec<String>) -> (r: Vec<InpLine>)
    ensures
        r@.len() == lines@.len(),
        forall|k: int| 0 <= k < r@.len() ==>
            inp_line_reads(#[trigger] r@[k], lines@[k]@, section_before(r@, k), faults_before(r@, k)),
{
    let mut r: Vec<InpLine> = Vec::new();
    let ghost mut before_secs: Seq<InpSection> = seq![];
    let ghost mut before_faults: Seq<bool> = seq![];
    let mut sec = InpSection::Header;
    let mut faults = false;
    let mut k: usize = 0;
    while k < lines.len()
        invariant
            k <= lines@.len(),
            r@.len() == k,
            before_secs.len() == k,
            before_faults.len() == k,
            sec == section_before(r@, k as int),
            faults == faults_before(r@, k as int),
            forall|j: int| 0 <= j < k ==> before_secs[j] == section_before(r@, j) && before_faults[j] == faults_before(r@, j),
            forall|j: int| 0 <= j < k ==> inp_line_reads(#[trigger] r@[j], lines@[j]@, before_secs[j], before_faults[j]),
        decreases lines.len() - k,
    {
        let l = classify_inp_line(lines[k].as_str(), sec, faults);
        proof {
            before_secs = before_secs.push(sec);
            before_faults = before_faults.push(faults);
        }
        sec = l.section;
        faults = l.in_faults;
        r.push(l);
        k = k + 1;
    }
    proof {
        assert forall|j: int| 0 <= j < r@.len() implies
            inp_line_reads(#[trigger] r@[j], lines@[j]@, section_before(r@, j), faults_before(r@, j)) by {
            assert(before_secs[j] == section_before(r@, j));
        }
    }
    r
}

/// The lines joined by single spaces.
pub open spec fn joined_by_space(ls: Seq<Seq<char>>) -> Seq<char>
    decreases ls.len(),
{
    if ls.len() == 0 {
        seq![]
    } else if ls.len() == 1 {
        ls[0]
    } else {
        joined_by_space(ls.drop_last()) + seq![' '] + ls.last()
    }
}

/// Whether the fault table gives slip as rake and net slip: the whole
/// file, its lines joined by spaces and upper-cased, mentions `RAKE`.
pub fn uses_rake(lines: &Vec<String>) -> (r: bool)
    ensures
        r == occurs_in("RAKE"@, spec_uppercase(joined_by_space(lines@.map_values(|s: String| s@)))),
{
    let ghost ls = lines@.map_values(|s: String| s@);
    let mut all = String::new();
    let mut k: usize = 0;
    while k < lines.len()
        invariant
            k <= lines@.len(),
            ls == lines@.map_values(|s: String| s@),
            all@ == joined_by_space(ls.take(k as int)),
        decreases lines.len() - k,
    {
        proof {
            assert(ls.take(k + 1).drop_last() =~= ls.take(k as int));
            assert(ls.take(k + 1).last() == lines@[k as int]@);
        }
        if k > 0 {
            crate::text::push_char(&mut all, ' ');
        }
        all.append(lines[k].as_str());
        k = k + 1;
        proof {
            if k == 1 {
                assert(ls.take(1) =~= seq![ls[0]]);
            }
        }
    }
    assert(ls.take(lines@.len() as int) =~= ls);
    let up = to_uppercase(all.as_str());
    contains_str(up.as_str(), "RAKE")
}

} // verus!
