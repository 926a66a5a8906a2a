//! Phase picks: the phase, onset and polarity vocabularies with their text
//! forms, and the per-trace pick set that holds at most one pick per phase.
//!
//! Pick times and amplitudes are carried as a type parameter `T`: the pick
//! set never looks inside them.

use vstd::prelude::*;
use crate::text::str_eq;

verus! {

/// Seismic phase types supported for picking.
#[derive(Debug, Clone, Copy, PartialEq, Eq, Structural, Hash)]
pub enum PhaseType {
    /// P-wave first arrival (onset).
    PStart,
    /// S-wave first arrival (onset).
    SStart,
    /// P-wave end / coda end.
    PEnd,
    /// S-wave end / coda end.
    SEnd,
}

/// Label shown on the plot for a phase.
pub open spec fn spec_label(p: PhaseType) -> Seq<char> {
    match p {
        PhaseType::PStart => seq!['P'],
        PhaseType::SStart => seq!['S'],
        PhaseType::PEnd => seq!['P', '-', 'e', 'n', 'd'],
        PhaseType::SEnd => seq!['S', '-', 'e', 'n', 'd'],
    }
}

/// Tag of a phase in the ASCII pick file.
pub open spec fn spec_tag(p: PhaseType) -> Seq<char> {
    match p {
        PhaseType::PStart => seq!['P', '_', 'S', 'T', 'A', 'R', 'T'],
        PhaseType::SStart => seq!['S', '_', 'S', 'T', 'A', 'R', 'T'],
        PhaseType::PEnd => seq!['P', '_', 'E', 'N', 'D'],
        PhaseType::SEnd => seq!['S', '_', 'E', 'N', 'D'],
    }
}

/// The phase whose tag is `s`, if any.
pub open spec fn spec_from_tag(s: Seq<char>) -> Option<PhaseType> {
    if s == spec_tag(PhaseType::PStart) {
        Some(PhaseType::PStart)
    } else if s == spec_tag(PhaseType::SStart) {
        Some(PhaseType::SStart)
    } else if s == spec_tag(PhaseType::PEnd) {
        Some(PhaseType::PEnd)
    } else if s == spec_tag(PhaseType::SEnd) {
        Some(PhaseType::SEnd)
    } else {
        None
    }
}

/// Picking order of the phases.
pub open spec fn spec_all_phases() -> Seq<PhaseType> {
    seq![PhaseType::PStart, PhaseType::SStart, PhaseType::PEnd, PhaseType::SEnd]
}

/// Marker colour of a phase as red, green, blue.
pub open spec fn spec_color(p: PhaseType) -> (u8, u8, u8) {
    match p {
        PhaseType::PStart => (255, 80, 80),
        PhaseType::SStart => (80, 140, 255),
        PhaseType::PEnd => (255, 180, 50),
        PhaseType::SEnd => (50, 220, 220),
    }
}

impl PhaseType {
    /// Label for display on the plot.
    pub fn label(&self) -> (r: &'static str)
        ensures
            r@ == spec_label(*self),
    {
        match self {
            PhaseType::PStart => {
                proof { reveal_strlit("P"); }
                "P"
            },
            PhaseType::SStart => {
                proof { reveal_strlit("S"); }
                "S"
            },
            PhaseType::PEnd => {
                proof { reveal_strlit("P-end"); }
                "P-end"
            },
            PhaseType::SEnd => {
                proof { reveal_strlit("S-end"); }
                "S-end"
            },
        }
    }

    /// Colour of the pick marker, as red, green and blue components.
    pub fn color_rgb(&self) -> (r: (u8, u8, u8))
        ensures
            r == spec_color(*self),
    {
        match self {
            PhaseType::PStart => (255, 80, 80),
            PhaseType::SStart => (80, 140, 255),
            PhaseType::PEnd => (255, 180, 50),
            PhaseType::SEnd => (50, 220, 220),
        }
    }

    /// Serialisation tag used in the ASCII pick file.
    pub fn tag(&self) -> (r: &'static str)
        ensures
            r@ == spec_tag(*self),
    {
        match self {
            PhaseType::PStart => {
                proof { reveal_strlit("P_START"); }
                "P_START"
            },
            PhaseType::SStart => {
                proof { reveal_strlit("S_START"); }
                "S_START"
            },
            PhaseType::PEnd => {
                proof { reveal_strlit("P_END"); }
                "P_END"
            },
            PhaseType::SEnd => {
                proof { reveal_strlit("S_END"); }
                "S_END"
            },
        }
    }

    /// Parse from an ASCII pick file tag.
    pub fn from_tag(tag: &str) -> (r: Option<Self>)
        ensures
            r == spec_from_tag(tag@),
    {
        proof {
            reveal_strlit("P_START");
            reveal_strlit("S_START");
            reveal_strlit("P_END");
            reveal_strlit("S_END");
            assert("P_START"@ =~= spec_tag(PhaseType::PStart));
            assert("S_START"@ =~= spec_tag(PhaseType::SStart));
            assert("P_END"@ =~= spec_tag(PhaseType::PEnd));
            assert("S_END"@ =~= spec_tag(PhaseType::SEnd));
        }
        if str_eq(tag, "P_START") {
            Some(PhaseType::PStart)
        } else if str_eq(tag, "S_START") {
            Some(PhaseType::SStart)
        } else if str_eq(tag, "P_END") {
            Some(PhaseType::PEnd)
        } else if str_eq(tag, "S_END") {
            Some(PhaseType::SEnd)
        } else {
            None
        }
    }

    /// All phase types in picking order.
    pub fn all() -> (r: &'static [PhaseType])
        ensures
            r@ == spec_all_phases(),
    {
        let a: &'static [PhaseType; 4] = &[
            PhaseType::PStart,
            PhaseType::SStart,
            PhaseType::PEnd,
            PhaseType::SEnd,
        ];
        let r: &'static [PhaseType] = a;
        assert(r@ == spec_all_phases());
        r
    }
}

/// How sharply a phase arrives.
#[derive(Debug, Clone, Copy, PartialEq, Eq, Structural)]
pub enum Onset {
    Impulsive,
    Emergent,
}

/// Text form of an onset in the pick file.
pub open spec fn spec_onset_str(o: Onset) -> Seq<char> {
    match o {
        Onset::Impulsive => seq!['i'],
        Onset::Emergent => seq!['e'],
    }
}

/// The onset written as `s`, accepting either letter case.
pub open spec fn spec_onset_from(s: Seq<char>) -> Option<Onset> {
    if s == seq!['i'] || s == seq!['I'] {
        Some(Onset::Impulsive)
    } else if s == seq!['e'] || s == seq!['E'] {
        Some(Onset::Emergent)
    } else {
        None
    }
}

impl Onset {
    /// Text form used in the pick file.
    pub fn as_str(&self) -> (r: &'static str)
        ensures
            r@ == spec_onset_str(*self),
    {
        match self {
            Onset::Impulsive => {
                proof { reveal_strlit("i"); }
                "i"
            },
            Onset::Emergent => {
                proof { reveal_strlit("e"); }
                "e"
            },
        }
    }

    /// Parse an onset letter (`i`/`I` or `e`/`E`).
    pub fn from_str(s: &str) -> (r: Option<Self>)
        ensures
            r == spec_onset_from(s@),
    {
        proof {
            reveal_strlit("i");
            reveal_strlit("I");
            reveal_strlit("e");
            reveal_strlit("E");
            assert("i"@ =~= seq!['i']);
            assert("I"@ =~= seq!['I']);
            assert("e"@ =~= seq!['e']);
            assert("E"@ =~= seq!['E']);
        }
        if str_eq(s, "i") || str_eq(s, "I") {
            Some(Onset::Impulsive)
        } else if str_eq(s, "e") || str_eq(s, "E") {
            Some(Onset::Emergent)
        } else {
            None
        }
    }
}

/// First-motion polarity of a phase.
#[derive(Debug, Clone, Copy, PartialEq, Eq, Structural)]
pub enum Polarity {
    Up,
    Down,
}

/// Text form of a polarity in the pick file.
pub open spec fn spec_polarity_str(p: Polarity) -> Seq<char> {
    match p {
        Polarity::Up => seq!['U'],
        Polarity::Down => seq!['D'],
    }
}

/// The polarity written as `s` (`u`, `U`, `+` or `d`, `D`, `-`).
pub open spec fn spec_polarity_from(s: Seq<char>) -> Option<Polarity> {
    if s == seq!['u'] || s == seq!['U'] || s == seq!['+'] {
        Some(Polarity::Up)
    } else if s == seq!['d'] || s == seq!['D'] || s == seq!['-'] {
        Some(Polarity::Down)
    } else {
        None
    }
}

impl Polarity {
    /// Text form used in the pick file.
    pub fn as_str(&self) -> (r: &'static str)
        ensures
            r@ == spec_polarity_str(*self),
    {
        match self {
            Polarity::Up => {
                proof { reveal_strlit("U"); }
                "U"
            },
            Polarity::Down => {
                proof { reveal_strlit("D"); }
                "D"
            },
        }
    }

    /// Parse a polarity mark.
    pub fn from_str(s: &str) -> (r: Option<Self>)
        ensures
            r == spec_polarity_from(s@),
    {
        proof {
            reveal_strlit("u");
            reveal_strlit("U");
            reveal_strlit("+");
            reveal_strlit("d");
            reveal_strlit("D");
            reveal_strlit("-");
            assert("u"@ =~= seq!['u']);
            assert("U"@ =~= seq!['U']);
            assert("+"@ =~= seq!['+']);
            assert("d"@ =~= seq!['d']);
            assert("D"@ =~= seq!['D']);
            assert("-"@ =~= seq!['-']);
        }
        if str_eq(s, "u") || str_eq(s, "U") || str_eq(s, "+") {
            Some(Polarity::Up)
        } else if str_eq(s, "d") || str_eq(s, "D") || str_eq(s, "-") {
            Some(Polarity::Down)
        } else {
            None
        }
    }
}

/// A single phase pick at a specific time.
#[derive(Debug, Clone)]
pub struct Pick<T> {
    pub phase: PhaseType,
    /// Time in seconds (X-axis value on the seismogram plot).
    pub time: T,
    pub onset: Option<Onset>,
    pub polarity: Option<Polarity>,
    pub uncertainty: Option<T>,
    pub amplitude: Option<T>,
    pub amplitude_demeaned: Option<T>,
}

impl<T> Pick<T> {
    /// A pick of `phase` at `time` with no metadata.
    pub fn new(phase: PhaseType, time: T) -> (p: Self)
        ensures
            p == Self::spec_bare(phase, time),
    {
        Pick {
            phase,
            time,
            onset: None,
            polarity: None,
            uncertainty: None,
            amplitude: None,
            amplitude_demeaned: None,
        }
    }

    /// A pick of `phase` at `time` with no metadata.
    pub open spec fn spec_bare(phase: PhaseType, time: T) -> Self {
        Pick {
            phase,
            time,
            onset: None,
            polarity: None,
            uncertainty: None,
            amplitude: None,
            amplitude_demeaned: None,
        }
    }
}

/// No two picks of `s` share a phase.
pub open spec fn phases_distinct<T>(s: Seq<Pick<T>>) -> bool {
    forall|i: int, j: int| 0 <= i < s.len() && 0 <= j < s.len() && i != j ==> #[trigger] s[i].phase != #[trigger] s[j].phase
}

/// Whether some pick of `s` has phase `ph`.
pub open spec fn has_phase<T>(s: Seq<Pick<T>>, ph: PhaseType) -> bool {
    exists|i: int| 0 <= i < s.len() && #[trigger] s[i].phase == ph
}

/// The position of the pick of phase `ph` in `s`, if there is one.
pub open spec fn phase_index<T>(s: Seq<Pick<T>>, ph: PhaseType) -> Option<int> {
    if has_phase(s, ph) {
        Some(choose|i: int| 0 <= i < s.len() && #[trigger] s[i].phase == ph)
    } else {
        None
    }
}

/// In a sequence with distinct phases, a position holding phase `ph` is
/// the position `phase_index` names.
pub proof fn lemma_phase_index_unique<T>(s: Seq<Pick<T>>, ph: PhaseType, i: int)
    requires
        phases_distinct(s),
        0 <= i < s.len(),
        s[i].phase == ph,
    ensures
        phase_index(s, ph) == Some(i),
{
    assert(has_phase(s, ph));
    let k = choose|k: int| 0 <= k < s.len() && #[trigger] s[k].phase == ph;
    if k != i {
        assert(s[k].phase != s[i].phase);
    }
}

/// The time of the pick of phase `ph` in `s`, if there is one.
pub open spec fn time_of<T>(s: Seq<Pick<T>>, ph: PhaseType) -> Option<T> {
    match phase_index(s, ph) {
        Some(i) => Some(s[i].time),
        None => None,
    }
}

/// `s` with the pick of phase `ph` moved to time `t`, or with a new bare
/// pick of that phase appended when there is none.
pub open spec fn spec_add_or_update<T>(s: Seq<Pick<T>>, ph: PhaseType, t: T) -> Seq<Pick<T>> {
    match phase_index(s, ph) {
        Some(i) => s.update(i, Pick { time: t, ..s[i] }),
        None => s.push(Pick::spec_bare(ph, t)),
    }
}

/// `s` without its pick of phase `ph`.
pub open spec fn spec_delete<T>(s: Seq<Pick<T>>, ph: PhaseType) -> Seq<Pick<T>> {
    match phase_index(s, ph) {
        Some(i) => s.remove(i),
        None => s,
    }
}

/// `s` with `f` applied to its pick of phase `ph`, if there is one.
pub open spec fn spec_modify<T>(s: Seq<Pick<T>>, ph: PhaseType, f: spec_fn(Pick<T>) -> Pick<T>) -> Seq<Pick<T>> {
    match phase_index(s, ph) {
        Some(i) => s.update(i, f(s[i])),
        None => s,
    }
}

/// The positions of the picks of `s` taken in picking order of their phases.
pub open spec fn spec_canonical_order<T>(s: Seq<Pick<T>>) -> Seq<usize> {
    opt_index(phase_index(s, PhaseType::PStart)) + opt_index(phase_index(s, PhaseType::SStart))
        + opt_index(phase_index(s, PhaseType::PEnd)) + opt_index(phase_index(s, PhaseType::SEnd))
}

/// The position an optional index stands for, as a list of zero or one.
pub open spec fn opt_index(o: Option<int>) -> Seq<usize> {
    match o {
        Some(i) => seq![i as usize],
        None => seq![],
    }
}

/// Container for all picks on a single trace.
///
/// Enforces at most one pick per `PhaseType`.
#[derive(Debug, Clone)]
pub struct PickSet<T> {
    pub picks: Vec<Pick<T>>,
}

impl<T> PickSet<T> {
    /// The pick set holds at most one pick per phase.
    pub open spec fn wf(&self) -> bool {
        phases_distinct(self.picks@)
    }

    /// An empty pick set.
    pub fn new() -> (r: Self)
        ensures
            r.wf(),
            r.picks@ == Seq::<Pick<T>>::empty(),
    {
        PickSet { picks: Vec::new() }
    }

    /// Position of the pick for `phase`.
    pub fn find(&self, phase: PhaseType) -> (r: Option<usize>)
        requires
            self.wf(),
        ensures
            match r {
                Some(i) => phase_index(self.picks@, phase) == Some(i as int),
                None => phase_index(self.picks@, phase) is None,
            },
    {
        let mut i: usize = 0;
        while i < self.picks.len()
            invariant
                self.wf(),
                i <= self.picks@.len(),
                forall|j: int| 0 <= j < i ==> #[trigger] self.picks@[j].phase != phase,
            decreases self.picks.len() - i,
        {
            if self.picks[i].phase == phase {
                proof { lemma_phase_index_unique(self.picks@, phase, i as int); }
                return Some(i);
            }
            i = i + 1;
        }
        None
    }

    /// Add or update a pick for the given phase. Returns true if a new pick was added,
    /// false if an existing one was updated.
    pub fn add_or_update(&mut self, phase: PhaseType, time: T) -> (added: bool)
        requires
            old(self).wf(),
        ensures
            final(self).wf(),
            added == !has_phase(old(self).picks@, phase),
            final(self).picks@ == spec_add_or_update(old(self).picks@, phase, time),
    {
        match self.find(phase) {
            Some(i) => {
                let mut p = self.picks.remove(i);
                p.time = time;
                self.picks.insert(i, p);
                assert(forall|j: int| 0 <= j < self.picks@.len() ==> #[trigger] self.picks@[j].phase == old(self).picks@[j].phase);
                false
            },
            None => {
                proof {
                    assert forall|j: int| 0 <= j < old(self).picks@.len() implies #[trigger] old(self).picks@[j].phase != phase by {
                        if old(self).picks@[j].phase == phase {
                            assert(has_phase(old(self).picks@, phase));
                        }
                    }
                }
                self.picks.push(Pick::new(phase, time));
                true
            },
        }
    }

    /// Delete a pick for the given phase. Returns true if a pick was removed.
    pub fn delete(&mut self, phase: PhaseType) -> (removed: bool)
        requires
            old(self).wf(),
        ensures
            final(self).wf(),
            removed == has_phase(old(self).picks@, phase),
            final(self).picks@ == spec_delete(old(self).picks@, phase),
    {
        match self.find(phase) {
            Some(i) => {
                self.picks.remove(i);
                proof {
                    let s = old(self).picks@;
                    let t = self.picks@;
                    assert forall|a: int, b: int| 0 <= a < t.len() && 0 <= b < t.len() && a != b implies #[trigger] t[a].phase != #[trigger] t[b].phase by {
                        let a2 = if a < i { a } else { a + 1 };
                        let b2 = if b < i { b } else { b + 1 };
                        assert(t[a] == s[a2]);
                        assert(t[b] == s[b2]);
                    }
                    if has_phase(t, phase) {
                        let k = choose|k: int| 0 <= k < t.len() && #[trigger] t[k].phase == phase;
                        let k2 = if k < i { k } else { k + 1 };
                        assert(t[k] == s[k2]);
                        assert(s[k2].phase == s[i as int].phase);
                    }
                }
                true
            },
            None => {
                false
            },
        }
    }

    /// Record the onset of the pick for `phase`. Returns whether there was
    /// such a pick.
    pub fn set_onset(&mut self, phase: PhaseType, onset: Onset) -> (found: bool)
        requires
            old(self).wf(),
        ensures
            final(self).wf(),
            found == has_phase(old(self).picks@, phase),
            final(self).picks@ == spec_modify(old(self).picks@, phase, |p: Pick<T>| Pick { onset: Some(onset), ..p }),
    {
        match self.find(phase) {
            Some(i) => {
                let mut p = self.picks.remove(i);
                p.onset = Some(onset);
                self.picks.insert(i, p);
                assert(forall|j: int| 0 <= j < self.picks@.len() ==> #[trigger] self.picks@[j].phase == old(self).picks@[j].phase);
                true
            },
            None => false,
        }
    }

    /// Record the polarity of the pick for `phase`. Returns whether there
    /// was such a pick.
    pub fn set_polarity(&mut self, phase: PhaseType, polarity: Polarity) -> (found: bool)
        requires
            old(self).wf(),
        ensures
            final(self).wf(),
            found == has_phase(old(self).picks@, phase),
            final(self).picks@ == spec_modify(old(self).picks@, phase, |p: Pick<T>| Pick { polarity: Some(polarity), ..p }),
    {
        match self.find(phase) {
            Some(i) => {
                let mut p = self.picks.remove(i);
                p.polarity = Some(polarity);
                self.picks.insert(i, p);
                assert(forall|j: int| 0 <= j < self.picks@.len() ==> #[trigger] self.picks@[j].phase == old(self).picks@[j].phase);
                true
            },
            None => false,
        }
    }

    /// Record the uncertainty of the pick for `phase` (`None` clears it).
    /// Returns whether there was such a pick.
    pub fn set_uncertainty(&mut self, phase: PhaseType, uncertainty: Option<T>) -> (found: bool)
        requires
            old(self).wf(),
        ensures
            final(self).wf(),
            found == has_phase(old(self).picks@, phase),
            final(self).picks@ == spec_modify(old(self).picks@, phase, |p: Pick<T>| Pick { uncertainty: uncertainty, ..p }),
    {
        match self.find(phase) {
            Some(i) => {
                let mut p = self.picks.remove(i);
                p.uncertainty = uncertainty;
                self.picks.insert(i, p);
                assert(forall|j: int| 0 <= j < self.picks@.len() ==> #[trigger] self.picks@[j].phase == old(self).picks@[j].phase);
                true
            },
            None => false,
        }
    }

    /// Record the raw and de-meaned amplitude of the pick for `phase`.
    /// Returns whether there was such a pick.
    pub fn set_amplitudes(&mut self, phase: PhaseType, amplitude: T, amplitude_demeaned: T) -> (found: bool)
        requires
            old(self).wf(),
        ensures
            final(self).wf(),
            found == has_phase(old(self).picks@, phase),
            final(self).picks@ == spec_modify(old(self).picks@, phase,
                |p: Pick<T>| Pick { amplitude: Some(amplitude), amplitude_demeaned: Some(amplitude_demeaned), ..p }),
    {
        match self.find(phase) {
            Some(i) => {
                let mut p = self.picks.remove(i);
                p.amplitude = Some(amplitude);
                p.amplitude_demeaned = Some(amplitude_demeaned);
                self.picks.insert(i, p);
                assert(forall|j: int| 0 <= j < self.picks@.len() ==> #[trigger] self.picks@[j].phase == old(self).picks@[j].phase);
                true
            },
            None => false,
        }
    }

    /// Store a pick read from a pick file: any earlier pick of its phase is
    /// dropped and the new one is appended.
    pub fn load_pick(&mut self, pick: Pick<T>)
        requires
            old(self).wf(),
        ensures
            final(self).wf(),
            final(self).picks@ == spec_delete(old(self).picks@, pick.phase).push(pick),
    {
        let ph = pick.phase;
        self.delete(ph);
        proof {
            let s = self.picks@;
            assert forall|j: int| 0 <= j < s.len() implies #[trigger] s[j].phase != ph by {
                if s[j].phase == ph {
                    assert(has_phase(s, ph));
                }
            }
        }
        self.picks.push(pick);
    }

    /// Positions of the picks in picking order of their phases: the order
    /// in which a pick file lists them.
    pub fn canonical_order(&self) -> (r: Vec<usize>)
        requires
            self.wf(),
        ensures
            r@ == spec_canonical_order(self.picks@),
    {
        let mut r: Vec<usize> = Vec::new();
        let phases = PhaseType::all();
        let mut k: usize = 0;
        let ghost s = self.picks@;
        while k < phases.len()
            invariant
                self.wf(),
                s == self.picks@,
                phases@ == spec_all_phases(),
                k <= 4,
                r@ == (if k == 0 { seq![] } else if k == 1 { opt_index(phase_index(s, PhaseType::PStart)) }
                    else if k == 2 { opt_index(phase_index(s, PhaseType::PStart)) + opt_index(phase_index(s, PhaseType::SStart)) }
                    else if k == 3 { opt_index(phase_index(s, PhaseType::PStart)) + opt_index(phase_index(s, PhaseType::SStart)) + opt_index(phase_index(s, PhaseType::PEnd)) }
                    else { spec_canonical_order(s) }),
            decreases 4 - k,
        {
            let ph = phases[k];
            let ghost before = r@;
            match self.find(ph) {
                Some(i) => {
                    r.push(i);
                    assert(r@ == before + opt_index(phase_index(s, ph)));
                },
                None => {
                    assert(r@ == before + opt_index(phase_index(s, ph)));
                },
            }
            k = k + 1;
        }
        r
    }

    /// Remove all picks.
    pub fn wipe(&mut self)
        ensures
            final(self).wf(),
            final(self).picks@ == Seq::<Pick<T>>::empty(),
    {
        self.picks.clear();
    }

    /// Check if any picks exist.
    pub fn is_empty(&self) -> (r: bool)
        ensures
            r == (self.picks@.len() == 0),
    {
        self.picks.len() == 0
    }

    /// Number of picks.
    pub fn len(&self) -> (r: usize)
        ensures
            r == self.picks@.len(),
    {
        self.picks.len()
    }
}

/// Every phase tag reads back as its phase.
pub proof fn law_tag_roundtrip(p: PhaseType)
    ensures
        spec_from_tag(spec_tag(p)) == Some(p),
{
}

/// A text that reads as a phase is exactly that phase's tag.
pub proof fn law_from_tag_exact(s: Seq<char>)
    ensures
        spec_from_tag(s) matches Some(p) ==> spec_tag(p) == s,
{
}

/// Every onset letter reads back as its onset.
pub proof fn law_onset_roundtrip(o: Onset)
    ensures
        spec_onset_from(spec_onset_str(o)) == Some(o),
{
    assert(seq!['e'][0] != seq!['i'][0]);
    assert(seq!['e'][0] != seq!['I'][0]);
}

/// Every polarity letter reads back as its polarity.
pub proof fn law_polarity_roundtrip(p: Polarity)
    ensures
        spec_polarity_from(spec_polarity_str(p)) == Some(p),
{
    assert(seq!['D'][0] != seq!['u'][0]);
    assert(seq!['D'][0] != seq!['U'][0]);
    assert(seq!['D'][0] != seq!['+'][0]);
}

/// After a pick of phase `ph` is placed at time `t`, the pick set still
/// holds at most one pick per phase, reads `t` for `ph`, and reads what it
/// read before for every other phase.
pub proof fn law_add_or_update_then_get<T>(s: Seq<Pick<T>>, ph: PhaseType, t: T, other: PhaseType)
    requires
        phases_distinct(s),
    ensures
        phases_distinct(spec_add_or_update(s, ph, t)),
        time_of(spec_add_or_update(s, ph, t), ph) == Some(t),
        other != ph ==> time_of(spec_add_or_update(s, ph, t), other) == time_of(s, other),
{
    let n = spec_add_or_update(s, ph, t);
    match phase_index(s, ph) {
        Some(i) => {
            assert(0 <= i < s.len() && s[i].phase == ph);
            assert(forall|j: int| 0 <= j < n.len() ==> #[trigger] n[j].phase == s[j].phase);
            lemma_phase_index_unique(n, ph, i);
            if other != ph {
                if has_phase(s, other) {
                    let k = choose|k: int| 0 <= k < s.len() && #[trigger] s[k].phase == other;
                    lemma_phase_index_unique(s, other, k);
                    lemma_phase_index_unique(n, other, k);
                } else {
                    assert(!has_phase(n, other));
                }
            }
        },
        None => {
            assert forall|j: int| 0 <= j < s.len() implies #[trigger] s[j].phase != ph by {
                if s[j].phase == ph {
                    assert(has_phase(s, ph));
                }
            }
            lemma_phase_index_unique(n, ph, s.len() as int);
            if other != ph {
                if has_phase(s, other) {
                    let k = choose|k: int| 0 <= k < s.len() && #[trigger] s[k].phase == other;
                    lemma_phase_index_unique(s, other, k);
                    lemma_phase_index_unique(n, other, k);
                } else {
                    if has_phase(n, other) {
                        let k = choose|k: int| 0 <= k < n.len() && #[trigger] n[k].phase == other;
                        assert(k < s.len());
                        assert(s[k].phase == other);
                    }
                }
            }
        },
    }
}

/// Placing the same pick twice leaves the pick set as placing it once.
pub proof fn law_add_or_update_idempotent<T>(s: Seq<Pick<T>>, ph: PhaseType, t: T)
    requires
        phases_distinct(s),
    ensures
        spec_add_or_update(spec_add_or_update(s, ph, t), ph, t) == spec_add_or_update(s, ph, t),
{
    let n = spec_add_or_update(s, ph, t);
    law_add_or_update_then_get(s, ph, t, ph);
    match phase_index(s, ph) {
        Some(i) => {
            assert(0 <= i < s.len() && s[i].phase == ph);
            assert(n[i].phase == ph);
            lemma_phase_index_unique(n, ph, i);
            assert(n.update(i, Pick { time: t, ..n[i] }) =~= n);
        },
        None => {
            assert(n[s.len() as int].phase == ph);
            lemma_phase_index_unique(n, ph, s.len() as int);
            assert(n.update(s.len() as int, Pick { time: t, ..n[s.len() as int] }) =~= n);
        },
    }
}

/// Placing a pick adds one to the count exactly when its phase was not
/// picked yet.
pub proof fn law_add_or_update_count<T>(s: Seq<Pick<T>>, ph: PhaseType, t: T)
    ensures
        spec_add_or_update(s, ph, t).len() == s.len() + (if has_phase(s, ph) { 0int } else { 1int }),
{
    if has_phase(s, ph) {
        let i = choose|i: int| 0 <= i < s.len() && #[trigger] s[i].phase == ph;
        assert(0 <= i < s.len());
    }
}

/// After the pick of phase `ph` is deleted, the pick set still holds at
/// most one pick per phase, has no pick of `ph`, and reads what it read
/// before for every other phase.
pub proof fn law_delete_then_get<T>(s: Seq<Pick<T>>, ph: PhaseType, other: PhaseType)
    requires
        phases_distinct(s),
    ensures
        phases_distinct(spec_delete(s, ph)),
        time_of(spec_delete(s, ph), ph) is None,
        other != ph ==> time_of(spec_delete(s, ph), other) == time_of(s, other),
{
    let n = spec_delete(s, ph);
    match phase_index(s, ph) {
        Some(i) => {
            assert(0 <= i < s.len() && s[i].phase == ph);
            assert forall|a: int, b: int| 0 <= a < n.len() && 0 <= b < n.len() && a != b implies #[trigger] n[a].phase != #[trigger] n[b].phase by {
                let a2 = if a < i { a } else { a + 1 };
                let b2 = if b < i { b } else { b + 1 };
                assert(n[a] == s[a2]);
                assert(n[b] == s[b2]);
            }
            if has_phase(n, ph) {
                let k = choose|k: int| 0 <= k < n.len() && #[trigger] n[k].phase == ph;
                let k2 = if k < i { k } else { k + 1 };
                assert(n[k] == s[k2]);
                assert(s[k2].phase == s[i].phase);
            }
            if other != ph {
                if has_phase(s, other) {
                    let k = choose|k: int| 0 <= k < s.len() && #[trigger] s[k].phase == other;
                    lemma_phase_index_unique(s, other, k);
                    let k2 = if k < i { k } else { k - 1 };
                    assert(n[k2] == s[k]);
                    lemma_phase_index_unique(n, other, k2);
                } else if has_phase(n, other) {
                    let k = choose|k: int| 0 <= k < n.len() && #[trigger] n[k].phase == other;
                    let k2 = if k < i { k } else { k + 1 };
                    assert(n[k] == s[k2]);
                    assert(has_phase(s, other));
                }
            }
        },
        None => {},
    }
}

/// A pick set that holds at most one pick per phase holds at most four
/// picks, one for each phase type.
pub proof fn law_at_most_four_picks<T>(s: Seq<Pick<T>>)
    requires
        phases_distinct(s),
    ensures
        s.len() <= 4,
{
    if s.len() >= 5 {
        let (a, b, c, d, e) = (s[0].phase, s[1].phase, s[2].phase, s[3].phase, s[4].phase);
        assert(a != b && a != c && a != d && a != e);
        assert(b != c && b != d && b != e);
        assert(c != d && c != e);
        assert(d != e);
        assert(false);
    }
}

impl<T: Copy> PickSet<T> {
    /// Get the time value for a specific phase, if picked.
    pub fn get(&self, phase: PhaseType) -> (r: Option<T>)
        requires
            self.wf(),
        ensures
            r == time_of(self.picks@, phase),
    {
        match self.find(phase) {
            Some(i) => Some(self.picks[i].time),
            None => None,
        }
    }
}

} // verus!
