//! The ASCII pick file: one pick per line, whitespace separated,
//!
//! ```text
//! PHASE_TAG TIME ONSET POLARITY UNCERTAINTY AMPLITUDE AMPLITUDE_DEMEANED
//! ```
//!
//! where every field after the time may be `-` or missing, and lines that
//! are blank or start with `#` are comments. Numbers stay as their text
//! here; reading them as floating point is left to the caller.

use vstd::prelude::*;
use crate::picking::{PhaseType, Onset, Polarity, spec_from_tag, spec_tag, spec_onset_from, spec_polarity_from, spec_onset_str, spec_polarity_str};
use crate::text::{tokens, split_whitespace, chars_of, str_eq, push_char, spaced, is_word, space_separates_words, lemma_space_separates_words, lemma_tokens_of_spaced};
use crate::picking::{law_tag_roundtrip, law_onset_roundtrip, law_polarity_roundtrip};
use vstd::string::StringExecFns;

verus! {

/// The fields of one pick line, numbers kept as written.
#[derive(Debug, Clone)]
pub struct PickLine {
    pub phase: PhaseType,
    pub time: String,
    pub onset: Option<Onset>,
    pub polarity: Option<Polarity>,
    pub uncertainty: Option<String>,
    pub amplitude: Option<String>,
    pub amplitude_demeaned: Option<String>,
}

/// The characters of an optional string.
pub open spec fn opt_view(o: Option<String>) -> Option<Seq<char>> {
    match o {
        Some(s) => Some(s@),
        None => None,
    }
}

/// The `k`-th field of a line, unless it is missing or the placeholder `-`.
pub open spec fn given_field(tk: Seq<Seq<char>>, k: int) -> Option<Seq<char>> {
    if tk.len() > k && tk[k] != seq!['-'] {
        Some(tk[k])
    } else {
        None
    }
}

/// Whether a line carries a pick: it has at least a tag and a time, and
/// its first field is a phase tag.
pub open spec fn is_pick_line(line: Seq<char>) -> bool {
    tokens(line).len() >= 2 && spec_from_tag(tokens(line)[0]) is Some
}

/// The pick fields a pick line holds.
pub open spec fn pick_line_matches(line: Seq<char>, pl: PickLine) -> bool {
    let tk = tokens(line);
    &&& Some(pl.phase) == spec_from_tag(tk[0])
    &&& pl.time@ == tk[1]
    &&& pl.onset == (match given_field(tk, 2) { Some(f) => spec_onset_from(f), None => None })
    &&& pl.polarity == (match given_field(tk, 3) { Some(f) => spec_polarity_from(f), None => None })
    &&& opt_view(pl.uncertainty) == given_field(tk, 4)
    &&& opt_view(pl.amplitude) == given_field(tk, 5)
    &&& opt_view(pl.amplitude_demeaned) == given_field(tk, 6)
}

/// The field `k` of `parts` unless it is missing or `-`.
fn field(parts: &Vec<String>, k: usize) -> (r: Option<String>)
    ensures
        opt_view(r) == given_field(parts@.map_values(|p: String| p@), k as int),
{
    proof { reveal_strlit("-"); assert("-"@ =~= seq!['-']); }
    if parts.len() > k && !str_eq(parts[k].as_str(), "-") {
        Some(parts[k].clone())
    } else {
        None
    }
}

/// Read one line of a pick file. Comment lines, blank lines and lines
/// whose first field is not a phase tag, or that have no time field, give
/// `None`.
pub fn parse_pick_line(line: &str) -> (r: Option<PickLine>)
    ensures
        r is Some <==> is_pick_line(line@),
        r matches Some(pl) ==> pick_line_matches(line@, pl),
{
    let parts = split_whitespace(line);
    let ghost tk = tokens(line@);
    let ghost pv = parts@.map_values(|p: String| p@);
    assert(pv =~= tk);
    if parts.len() == 0 {
        return None;
    }
    let first = chars_of(parts[0].as_str());
    if first.len() > 0 && first[0] == '#' {
        proof {
            assert(tk[0][0] == '#');
            assert(spec_from_tag(tk[0]) is None) by {
                assert(spec_tag(PhaseType::PStart)[0] == 'P');
                assert(spec_tag(PhaseType::SStart)[0] == 'S');
                assert(spec_tag(PhaseType::PEnd)[0] == 'P');
                assert(spec_tag(PhaseType::SEnd)[0] == 'S');
            }
        }
        return None;
    }
    if parts.len() < 2 {
        return None;
    }
    let phase = match PhaseType::from_tag(parts[0].as_str()) {
        Some(p) => p,
        None => {
            return None;
        },
    };
    let time = parts[1].clone();
    let onset = match field(&parts, 2) {
        Some(f) => Onset::from_str(f.as_str()),
        None => None,
    };
    let polarity = match field(&parts, 3) {
        Some(f) => Polarity::from_str(f.as_str()),
        None => None,
    };
    let uncertainty = field(&parts, 4);
    let amplitude = field(&parts, 5);
    let amplitude_demeaned = field(&parts, 6);
    Some(PickLine { phase, time, onset, polarity, uncertainty, amplitude, amplitude_demeaned })
}

/// Placeholder written for a field that is not set.
pub open spec fn spec_placeholder() -> Seq<char> {
    seq!['-']
}

/// The onset field of a pick file line: its letter, or `-` when unset.
pub fn onset_field(o: Option<Onset>) -> (r: &'static str)
    ensures
        r@ == (match o { Some(x) => spec_onset_str(x), None => spec_placeholder() }),
{
    match o {
        Some(x) => x.as_str(),
        None => {
            proof { reveal_strlit("-"); assert("-"@ =~= seq!['-']); }
            "-"
        },
    }
}

/// The polarity field of a pick file line: its letter, or `-` when unset.
pub fn polarity_field(p: Option<Polarity>) -> (r: &'static str)
    ensures
        r@ == (match p { Some(x) => spec_polarity_str(x), None => spec_placeholder() }),
{
    match p {
        Some(x) => x.as_str(),
        None => {
            proof { reveal_strlit("-"); assert("-"@ =~= seq!['-']); }
            "-"
        },
    }
}

/// A field as written to a pick file: its text, or `-` when it is unset.
pub open spec fn field_text(o: Option<Seq<char>>) -> Seq<char> {
    match o {
        Some(t) => t,
        None => spec_placeholder(),
    }
}

/// The onset as written to a pick file.
pub open spec fn onset_text(o: Option<Onset>) -> Seq<char> {
    match o {
        Some(x) => spec_onset_str(x),
        None => spec_placeholder(),
    }
}

/// The polarity as written to a pick file.
pub open spec fn polarity_text(p: Option<Polarity>) -> Seq<char> {
    match p {
        Some(x) => spec_polarity_str(x),
        None => spec_placeholder(),
    }
}

/// The words of the line written for a pick: tag, time, onset, polarity,
/// uncertainty, amplitude and de-meaned amplitude.
pub open spec fn pick_line_words(phase: PhaseType, time: Seq<char>, onset: Option<Onset>, polarity: Option<Polarity>,
    unc: Option<Seq<char>>, amp: Option<Seq<char>>, amp_dm: Option<Seq<char>>) -> Seq<Seq<char>> {
    seq![spec_tag(phase), time, onset_text(onset), polarity_text(polarity), field_text(unc), field_text(amp), field_text(amp_dm)]
}

fn append_field(line: &mut String, f: &Option<String>)
    ensures
        final(line)@ == old(line)@ + seq![' '] + field_text(opt_view(*f)),
{
    push_char(line, ' ');
    match f {
        Some(t) => line.append(t.as_str()),
        None => {
            proof { reveal_strlit("-"); assert("-"@ =~= spec_placeholder()); }
            line.append("-");
        },
    }
}

/// The line a pick file holds for a pick, its numbers given as the text
/// they are written as: the fields separated by single spaces, `-` for
/// what is not set.
pub fn pick_line_text(phase: PhaseType, time: &str, onset: Option<Onset>, polarity: Option<Polarity>,
    uncertainty: &Option<String>, amplitude: &Option<String>, amplitude_demeaned: &Option<String>) -> (r: String)
    ensures
        r@ == spaced(pick_line_words(phase, time@, onset, polarity, opt_view(*uncertainty), opt_view(*amplitude), opt_view(*amplitude_demeaned))),
{
    let ghost ws = pick_line_words(phase, time@, onset, polarity, opt_view(*uncertainty), opt_view(*amplitude), opt_view(*amplitude_demeaned));
    let mut line = String::from_str(phase.tag());
    push_char(&mut line, ' ');
    line.append(time);
    let ghost p1 = line@;
    assert(p1 =~= ws[0] + seq![' '] + ws[1]);
    push_char(&mut line, ' ');
    line.append(onset_field(onset));
    let ghost p2 = line@;
    assert(p2 =~= p1 + seq![' '] + ws[2]);
    push_char(&mut line, ' ');
    line.append(polarity_field(polarity));
    let ghost p3 = line@;
    assert(p3 =~= p2 + seq![' '] + ws[3]);
    append_field(&mut line, uncertainty);
    let ghost p4 = line@;
    append_field(&mut line, amplitude);
    let ghost p5 = line@;
    append_field(&mut line, amplitude_demeaned);
    proof {
        lemma_spaced_seven(ws);
        assert(line@ =~= p5 + seq![' '] + ws[6]);
        assert(p5 =~= p4 + seq![' '] + ws[5]);
        assert(p4 =~= p3 + seq![' '] + ws[4]);
    }
    line
}

proof fn lemma_spaced_seven(ws: Seq<Seq<char>>)
    requires
        ws.len() == 7,
    ensures
        spaced(ws) == ws[0] + seq![' '] + ws[1] + seq![' '] + ws[2] + seq![' '] + ws[3] + seq![' '] + ws[4]
            + seq![' '] + ws[5] + seq![' '] + ws[6],
{
    reveal(spaced);
    let s6 = ws.subrange(6, 7);
    assert(spaced(s6) == ws[6]);
    let s5 = ws.subrange(5, 7);
    assert(s5.drop_first() =~= s6);
    assert(spaced(s5) == ws[5] + (seq![' '] + spaced(s6)));
    let s4 = ws.subrange(4, 7);
    assert(s4.drop_first() =~= s5);
    assert(spaced(s4) == ws[4] + (seq![' '] + spaced(s5)));
    let s3 = ws.subrange(3, 7);
    assert(s3.drop_first() =~= s4);
    assert(spaced(s3) == ws[3] + (seq![' '] + spaced(s4)));
    let s2 = ws.subrange(2, 7);
    assert(s2.drop_first() =~= s3);
    assert(spaced(s2) == ws[2] + (seq![' '] + spaced(s3)));
    let s1 = ws.subrange(1, 7);
    assert(s1.drop_first() =~= s2);
    assert(spaced(s1) == ws[1] + (seq![' '] + spaced(s2)));
    assert(ws.drop_first() =~= s1);
    assert(spaced(ws) == ws[0] + (seq![' '] + spaced(s1)));
    assert(spaced(ws) =~= ws[0] + seq![' '] + ws[1] + seq![' '] + ws[2] + seq![' '] + ws[3] + seq![' '] + ws[4]
        + seq![' '] + ws[5] + seq![' '] + ws[6]);
}

/// A pick written to a line reads back as the same pick: the line is a
/// pick line, and exactly the written fields are read from it, provided
/// the number texts are words other than `-`.
pub proof fn law_pick_line_roundtrip(phase: PhaseType, time: Seq<char>, onset: Option<Onset>, polarity: Option<Polarity>,
    unc: Option<Seq<char>>, amp: Option<Seq<char>>, amp_dm: Option<Seq<char>>)
    requires
        is_word(time),
        unc matches Some(t) ==> is_word(t) && t != spec_placeholder(),
        amp matches Some(t) ==> is_word(t) && t != spec_placeholder(),
        amp_dm matches Some(t) ==> is_word(t) && t != spec_placeholder(),
    ensures
        is_pick_line(spaced(pick_line_words(phase, time, onset, polarity, unc, amp, amp_dm))),
        forall|pl: PickLine| #[trigger] pick_line_matches(spaced(pick_line_words(phase, time, onset, polarity, unc, amp, amp_dm)), pl) <==> {
            &&& pl.phase == phase
            &&& pl.time@ == time
            &&& pl.onset == onset
            &&& pl.polarity == polarity
            &&& opt_view(pl.uncertainty) == unc
            &&& opt_view(pl.amplitude) == amp
            &&& opt_view(pl.amplitude_demeaned) == amp_dm
        },
{
    let ws = pick_line_words(phase, time, onset, polarity, unc, amp, amp_dm);
    lemma_space_separates_words();
    law_tag_roundtrip(phase);
    assert(is_word(spec_tag(phase))) by {
        assert forall|i: int| 0 <= i < spec_tag(phase).len() implies !crate::text::spec_is_whitespace(#[trigger] spec_tag(phase)[i]) by {
            assert('!' <= spec_tag(phase)[i] <= '~');
        }
    }
    assert(is_word(onset_text(onset))) by {
        assert forall|i: int| 0 <= i < onset_text(onset).len() implies !crate::text::spec_is_whitespace(#[trigger] onset_text(onset)[i]) by {
            assert('!' <= onset_text(onset)[i] <= '~');
        }
    }
    assert(is_word(polarity_text(polarity))) by {
        assert forall|i: int| 0 <= i < polarity_text(polarity).len() implies !crate::text::spec_is_whitespace(#[trigger] polarity_text(polarity)[i]) by {
            assert('!' <= polarity_text(polarity)[i] <= '~');
        }
    }
    assert(is_word(spec_placeholder())) by {
        assert('!' <= spec_placeholder()[0] <= '~');
    }
    assert forall|k: int| 0 <= k < ws.len() implies is_word(#[trigger] ws[k]) by {}
    lemma_tokens_of_spaced(ws);
    let tk = tokens(spaced(ws));
    assert(tk == ws);
    match onset {
        Some(x) => {
            law_onset_roundtrip(x);
            assert(spec_onset_str(x)[0] != spec_placeholder()[0]);
        },
        None => {},
    }
    match polarity {
        Some(x) => {
            law_polarity_roundtrip(x);
            assert(spec_polarity_str(x)[0] != spec_placeholder()[0]);
        },
        None => {},
    }
    assert((match given_field(tk, 2) { Some(f) => spec_onset_from(f), None => None }) == onset);
    assert((match given_field(tk, 3) { Some(f) => spec_polarity_from(f), None => None }) == polarity);
    assert(given_field(tk, 4) == unc);
    assert(given_field(tk, 5) == amp);
    assert(given_field(tk, 6) == amp_dm);
    assert(spec_from_tag(tk[0]) == Some(phase));
}

} // verus!
