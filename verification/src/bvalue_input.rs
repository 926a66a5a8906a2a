//! Input of the b-value analysis: which columns of an earthquake table hold
//! what, and which quantities the analysis maps.

use vstd::prelude::*;
use crate::text::{to_lowercase, contains_str, occurs_in, spec_lowercase};

verus! {

/// Whether the b-value is mapped in space or along time.
#[derive(Debug, Clone, Copy, PartialEq, Eq, Structural)]
pub enum BVorMode {
    Spatial,
    Temporal,
}

/// A quantity an earthquake table holds.
#[derive(Debug, Clone, Copy, PartialEq, Eq, Structural)]
pub enum CatalogField {
    Longitude,
    Latitude,
    Magnitude,
    Depth,
    Time,
}

/// The name the analysis is told its mode by.
pub open spec fn spec_mode_name(m: BVorMode) -> Seq<char> {
    match m {
        BVorMode::Spatial => seq!['s', 'p', 'a', 't', 'i', 'a', 'l'],
        BVorMode::Temporal => seq!['t', 'e', 'm', 'p', 'o', 'r', 'a', 'l'],
    }
}

/// The quantities on the two axes of the map: longitude and latitude in
/// space; time (scaled to the table's span) and depth along time.
pub open spec fn spec_axes(m: BVorMode) -> (CatalogField, CatalogField) {
    match m {
        BVorMode::Spatial => (CatalogField::Longitude, CatalogField::Latitude),
        BVorMode::Temporal => (CatalogField::Time, CatalogField::Depth),
    }
}

impl BVorMode {
    /// The name the analysis is told its mode by.
    pub fn name(&self) -> (r: &'static str)
        ensures
            r@ == spec_mode_name(*self),
    {
        match self {
            BVorMode::Spatial => {
                proof { reveal_strlit("spatial"); }
                "spatial"
            },
            BVorMode::Temporal => {
                proof { reveal_strlit("temporal"); }
                "temporal"
            },
        }
    }

    /// The quantities on the two axes of the b-value map.
    pub fn axes(&self) -> (r: (CatalogField, CatalogField))
        ensures
            r == spec_axes(*self),
    {
        match self {
            BVorMode::Spatial => (CatalogField::Longitude, CatalogField::Latitude),
            BVorMode::Temporal => (CatalogField::Time, CatalogField::Depth),
        }
    }
}

/// Whether a lower-cased header names field `f`: it holds `lon`, `lat`,
/// `mag` or `dep`, or for the time `time` or `date`.
pub open spec fn names_field(low: Seq<char>, f: CatalogField) -> bool {
    match f {
        CatalogField::Longitude => occurs_in(seq!['l', 'o', 'n'], low),
        CatalogField::Latitude => occurs_in(seq!['l', 'a', 't'], low),
        CatalogField::Magnitude => occurs_in(seq!['m', 'a', 'g'], low),
        CatalogField::Depth => occurs_in(seq!['d', 'e', 'p'], low),
        CatalogField::Time => occurs_in(seq!['t', 'i', 'm', 'e'], low) || occurs_in(seq!['d', 'a', 't', 'e'], low),
    }
}

/// The first header from position `i` on that names `f`, once lower-cased.
pub open spec fn first_naming(hs: Seq<Seq<char>>, f: CatalogField, i: int) -> Option<int>
    decreases hs.len() - i,
{
    if i < 0 || i >= hs.len() {
        None
    } else if names_field(spec_lowercase(hs[i]), f) {
        Some(i)
    } else {
        first_naming(hs, f, i + 1)
    }
}

/// A header found from position `i` on lies there and names the field.
proof fn lemma_first_naming_found(hs: Seq<Seq<char>>, f: CatalogField, i: int)
    ensures
        first_naming(hs, f, i) matches Some(k) ==> i <= k < hs.len() && names_field(spec_lowercase(hs[k]), f),
    decreases hs.len() - i,
{
    if 0 <= i < hs.len() && !names_field(spec_lowercase(hs[i]), f) {
        lemma_first_naming_found(hs, f, i + 1);
    }
}

/// The column of each quantity in an earthquake table.
#[derive(Debug, Clone, Copy, PartialEq, Eq, Structural)]
pub struct CatalogColumns {
    pub lon: usize,
    pub lat: usize,
    pub mag: usize,
    pub depth: usize,
    pub time: usize,
}

/// The column of field `f`.
pub open spec fn column_of(c: CatalogColumns, f: CatalogField) -> usize {
    match f {
        CatalogField::Longitude => c.lon,
        CatalogField::Latitude => c.lat,
        CatalogField::Magnitude => c.mag,
        CatalogField::Depth => c.depth,
        CatalogField::Time => c.time,
    }
}

/// Whether lower-cased header `low` names field `f`.
fn header_names(low: &str, f: CatalogField) -> (r: bool)
    ensures
        r == names_field(low@, f),
{
    match f {
        CatalogField::Longitude => {
            proof {
                reveal_strlit("lon");
                assert("lon"@ =~= seq!['l', 'o', 'n']);
            }
            contains_str(low, "lon")
        },
        CatalogField::Latitude => {
            proof {
                reveal_strlit("lat");
                assert("lat"@ =~= seq!['l', 'a', 't']);
            }
            contains_str(low, "lat")
        },
        CatalogField::Magnitude => {
            proof {
                reveal_strlit("mag");
                assert("mag"@ =~= seq!['m', 'a', 'g']);
            }
            contains_str(low, "mag")
        },
        CatalogField::Depth => {
            proof {
                reveal_strlit("dep");
                assert("dep"@ =~= seq!['d', 'e', 'p']);
            }
            contains_str(low, "dep")
        },
        CatalogField::Time => {
            proof {
                reveal_strlit("time");
                reveal_strlit("date");
                assert("time"@ =~= seq!['t', 'i', 'm', 'e']);
                assert("date"@ =~= seq!['d', 'a', 't', 'e']);
            }
            contains_str(low, "time") || contains_str(low, "date")
        },
    }
}

/// The first of the lower-cased headers that names `f`.
fn first_column(lows: &Vec<String>, Ghost(hs): Ghost<Seq<Seq<char>>>, f: CatalogField) -> (r: Option<usize>)
    requires
        lows.len() == hs.len(),
        forall|k: int| 0 <= k < hs.len() ==> #[trigger] lows@[k]@ == spec_lowercase(hs[k]),
    ensures
        match r {
            Some(i) => first_naming(hs, f, 0) == Some(i as int),
            None => first_naming(hs, f, 0) is None,
        },
{
    let mut i: usize = 0;
    while i < lows.len()
        invariant
            i <= lows.len(),
            lows.len() == hs.len(),
            forall|k: int| 0 <= k < hs.len() ==> #[trigger] lows@[k]@ == spec_lowercase(hs[k]),
            first_naming(hs, f, 0) == first_naming(hs, f, i as int),
        decreases lows.len() - i,
    {
        if header_names(lows[i].as_str(), f) {
            return Some(i);
        }
        i = i + 1;
    }
    None
}

/// The characters of each header.
pub open spec fn header_texts(hs: Seq<String>) -> Seq<Seq<char>> {
    hs.map_values(|h: String| h@)
}

/// Finds the columns of an earthquake table from its header names: for
/// each quantity the first header that names it, once lower-cased. There
/// are none unless every quantity is named.
pub fn catalog_columns(headers: &Vec<String>) -> (r: Option<CatalogColumns>)
    ensures
        r is Some <==> (forall|f: CatalogField| #[trigger] first_naming(header_texts(headers@), f, 0) is Some),
        r matches Some(c) ==> forall|f: CatalogField|
            #[trigger] first_naming(header_texts(headers@), f, 0) == Some(column_of(c, f) as int),
        r matches Some(c) ==> forall|f: CatalogField| #[trigger] column_of(c, f) < headers.len()
            && names_field(spec_lowercase(headers@[column_of(c, f) as int]@), f),
{
    let ghost hs = header_texts(headers@);
    let mut lows: Vec<String> = Vec::new();
    let mut i: usize = 0;
    while i < headers.len()
        invariant
            i <= headers.len(),
            hs == header_texts(headers@),
            lows.len() == i,
            forall|k: int| 0 <= k < i ==> #[trigger] lows@[k]@ == spec_lowercase(hs[k]),
        decreases headers.len() - i,
    {
        lows.push(to_lowercase(headers[i].as_str()));
        i = i + 1;
    }
    let lon = first_column(&lows, Ghost(hs), CatalogField::Longitude);
    let lat = first_column(&lows, Ghost(hs), CatalogField::Latitude);
    let mag = first_column(&lows, Ghost(hs), CatalogField::Magnitude);
    let depth = first_column(&lows, Ghost(hs), CatalogField::Depth);
    let time = first_column(&lows, Ghost(hs), CatalogField::Time);
    match (lon, lat, mag, depth, time) {
        (Some(lon), Some(lat), Some(mag), Some(depth), Some(time)) => {
            let c = CatalogColumns { lon, lat, mag, depth, time };
            assert forall|f: CatalogField| #[trigger] first_naming(hs, f, 0) == Some(column_of(c, f) as int) by {
                lemma_first_naming_found(hs, f, 0);
                match f {
                    CatalogField::Longitude => {},
                    CatalogField::Latitude => {},
                    CatalogField::Magnitude => {},
                    CatalogField::Depth => {},
                    CatalogField::Time => {},
                }
            }
            assert forall|f: CatalogField| #[trigger] column_of(c, f) < headers.len()
                && names_field(spec_lowercase(headers@[column_of(c, f) as int]@), f) by {
                lemma_first_naming_found(hs, f, 0);
                assert(first_naming(hs, f, 0) == Some(column_of(c, f) as int));
                assert(hs[column_of(c, f) as int] == headers@[column_of(c, f) as int]@);
            }
            Some(c)
        },
        _ => {
            assert(!(forall|f: CatalogField| #[trigger] first_naming(hs, f, 0) is Some)) by {
                if lon is None {
                    assert(first_naming(hs, CatalogField::Longitude, 0) is None);
                } else if lat is None {
                    assert(first_naming(hs, CatalogField::Latitude, 0) is None);
                } else if mag is None {
                    assert(first_naming(hs, CatalogField::Magnitude, 0) is None);
                } else if depth is None {
                    assert(first_naming(hs, CatalogField::Depth, 0) is None);
                } else {
                    assert(first_naming(hs, CatalogField::Time, 0) is None);
                }
            }
            None
        },
    }
}

} // verus!
