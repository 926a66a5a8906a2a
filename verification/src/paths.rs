//! File-type rules on paths: which files hold seismic traces, which hold
//! picks, and where the picks of a trace are stored.

use vstd::prelude::*;
use crate::text::{spec_lowercase, to_lowercase, str_eq, all_ascii, ascii_lower_char};

verus! {

/// The extension of a path, as `Path::extension` reads it (the part of the
/// final component after its last dot, when there is one that does not
/// start the name).
pub uninterp spec fn spec_path_extension(p: Seq<char>) -> Option<Seq<char>>;

/// The path with its extension replaced, as `Path::with_extension` builds it.
pub uninterp spec fn spec_with_extension(p: Seq<char>, ext: Seq<char>) -> Seq<char>;

/// Calls `Path::extension`; its result is named `spec_path_extension`.
#[verifier::external_body]
pub(crate) fn path_extension(p: &str) -> (r: Option<String>)
    ensures
        opt_chars(r) == spec_path_extension(p@),
{
    std::path::Path::new(p).extension().and_then(|e| e.to_str()).map(|e| e.to_string())
}

/// The file name of a path without its extension, as `Path::file_stem`
/// reads it.
pub uninterp spec fn spec_path_file_stem(p: Seq<char>) -> Option<Seq<char>>;

/// Calls `Path::file_stem`; its result is named `spec_path_file_stem`.
#[verifier::external_body]
pub(crate) fn path_file_stem(p: &str) -> (r: Option<String>)
    ensures
        opt_chars(r) == spec_path_file_stem(p@),
{
    std::path::Path::new(p).file_stem().and_then(|e| e.to_str()).map(|e| e.to_string())
}

/// Whether `ext` holds no path separator (`/`, or `\\` on Windows).
pub open spec fn no_separator(ext: Seq<char>) -> bool {
    forall|i: int| 0 <= i < ext.len() ==> ext[i] != '/' && ext[i] != '\\'
}

/// Calls `Path::with_extension`, which panics when the new extension holds
/// a path separator (`requires` leaves that out); its result is named
/// `spec_with_extension`.
#[verifier::external_body]
fn path_with_extension(p: &str, ext: &str) -> (r: String)
    requires
        no_separator(ext@),
    ensures
        r@ == spec_with_extension(p@, ext@),
{
    std::path::Path::new(p).with_extension(ext).to_string_lossy().to_string()
}

/// The characters of an optional string.
pub open spec fn opt_chars(o: Option<String>) -> Option<Seq<char>> {
    match o {
        Some(s) => Some(s@),
        None => None,
    }
}

/// The extensions of seismic files (`sac`, `mseed`) and of pick files
/// (`picks`, `txt`).
pub open spec fn sac_ext() -> Seq<char> { seq!['s', 'a', 'c'] }
pub open spec fn mseed_ext() -> Seq<char> { seq!['m', 's', 'e', 'e', 'd'] }
pub open spec fn picks_ext() -> Seq<char> { seq!['p', 'i', 'c', 'k', 's'] }
pub open spec fn txt_ext() -> Seq<char> { seq!['t', 'x', 't'] }

/// A lower-case extension of seismic waveform files.
pub open spec fn is_seismic_ext(e: Seq<char>) -> bool {
    e == sac_ext() || e == mseed_ext()
}

/// A lower-case extension of pick files.
pub open spec fn is_pick_ext(e: Seq<char>) -> bool {
    e == picks_ext() || e == txt_ext()
}

/// The path names a seismic file: its extension, lower-cased, is listed.
pub open spec fn spec_is_seismic_file(p: Seq<char>) -> bool {
    match spec_path_extension(p) {
        Some(e) => is_seismic_ext(spec_lowercase(e)),
        None => false,
    }
}

/// The path names a pick file: its extension, lower-cased, is listed.
pub open spec fn spec_is_pick_file(p: Seq<char>) -> bool {
    match spec_path_extension(p) {
        Some(e) => is_pick_ext(spec_lowercase(e)),
        None => false,
    }
}

/// Whether a lower-case extension belongs to seismic files (`sac`, `mseed`).
pub fn is_seismic_extension(ext_lower: &str) -> (r: bool)
    ensures
        r == is_seismic_ext(ext_lower@),
{
    proof {
        reveal_strlit("sac");
        reveal_strlit("mseed");
        assert("sac"@ =~= sac_ext());
        assert("mseed"@ =~= mseed_ext());
    }
    str_eq(ext_lower, "sac") || str_eq(ext_lower, "mseed")
}

/// Whether a lower-case extension belongs to pick files (`picks`, `txt`).
pub fn is_pick_extension(ext_lower: &str) -> (r: bool)
    ensures
        r == is_pick_ext(ext_lower@),
{
    proof {
        reveal_strlit("picks");
        reveal_strlit("txt");
        assert("picks"@ =~= picks_ext());
        assert("txt"@ =~= txt_ext());
    }
    str_eq(ext_lower, "picks") || str_eq(ext_lower, "txt")
}

/// Check if a path has a seismic file extension.
pub fn is_seismic_file(path: &str) -> (r: bool)
    ensures
        r == spec_is_seismic_file(path@),
        match spec_path_extension(path@) {
            Some(e) => all_ascii(e) ==> r == is_seismic_ext(e.map_values(|c: char| ascii_lower_char(c))),
            None => !r,
        },
{
    match path_extension(path) {
        Some(e) => {
            let lower = to_lowercase(e.as_str());
            is_seismic_extension(lower.as_str())
        },
        None => false,
    }
}

/// Check if a path has a pick file extension.
pub fn is_pick_file(path: &str) -> (r: bool)
    ensures
        r == spec_is_pick_file(path@),
        match spec_path_extension(path@) {
            Some(e) => all_ascii(e) ==> r == is_pick_ext(e.map_values(|c: char| ascii_lower_char(c))),
            None => !r,
        },
{
    match path_extension(path) {
        Some(e) => {
            let lower = to_lowercase(e.as_str());
            is_pick_extension(lower.as_str())
        },
        None => false,
    }
}

/// Derive the pick file path from a seismic file path.
/// Replaces the extension with `.picks`.
pub fn pick_file_path(seismic_path: &str) -> (r: String)
    ensures
        r@ == spec_with_extension(seismic_path@, picks_ext()),
{
    proof { reveal_strlit("picks"); assert("picks"@ =~= picks_ext()); }
    path_with_extension(seismic_path, "picks")
}

/// The files that may hold the picks of a seismic file, in the order they
/// are tried: the `.picks` file, then the `.txt` file.
pub fn pick_file_candidates(seismic_path: &str) -> (r: Vec<String>)
    ensures
        r@.len() == 2,
        r@[0]@ == spec_with_extension(seismic_path@, picks_ext()),
        r@[1]@ == spec_with_extension(seismic_path@, txt_ext()),
{
    proof { reveal_strlit("txt"); assert("txt"@ =~= txt_ext()); }
    let mut r = Vec::new();
    r.push(pick_file_path(seismic_path));
    r.push(path_with_extension(seismic_path, "txt"));
    r
}

/// Try to find an existing pick file for a seismic file: the first of its
/// candidate pick files that exists, given which of them exist.
pub fn find_pick_file(candidates: Vec<String>, exists: &Vec<bool>) -> (r: Option<String>)
    requires
        candidates@.len() == exists@.len(),
    ensures
        match r {
            Some(p) => exists|i: int| 0 <= i < exists@.len() && exists@[i] && candidates@[i]@ == p@
                && forall|j: int| 0 <= j < i ==> !#[trigger] exists@[j],
            None => forall|j: int| 0 <= j < exists@.len() ==> !#[trigger] exists@[j],
        },
{
    let mut i: usize = 0;
    while i < exists.len()
        invariant
            candidates@.len() == exists@.len(),
            i <= exists@.len(),
            forall|j: int| 0 <= j < i ==> !#[trigger] exists@[j],
        decreases exists.len() - i,
    {
        if exists[i] {
            let p = candidates[i].clone();
            return Some(p);
        }
        i = i + 1;
    }
    None
}

} // verus!
