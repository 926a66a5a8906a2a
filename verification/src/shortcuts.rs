//! Keyboard shortcuts of the trace viewer: which key does what, and when a
//! shortcut may act.

use vstd::prelude::*;
use crate::picking::{PhaseType, Onset, Polarity, spec_onset_from, spec_polarity_from};

verus! {

/// The keys the viewer listens to.
#[derive(Debug, Clone, Copy, PartialEq, Eq, Structural)]
pub enum ShortcutKey {
    P, S, O, A, I, E, U, D, W, C, Z, F, B, H, Q, M,
    OpenBracket, CloseBracket, Equals, Comma, Period,
    ArrowUp, ArrowDown, ArrowLeft, ArrowRight, Backspace, Delete, Escape,
}

/// How far one key press moves a pick's uncertainty: the bracket keys by
/// 0.01 s, the arrow keys by 0.005 s.
#[derive(Debug, Clone, Copy, PartialEq, Eq, Structural)]
pub enum UncertaintyStep {
    Coarse,
    Fine,
}

/// What a shortcut does.
#[derive(Debug, Clone, Copy, PartialEq, Eq, Structural)]
pub enum Shortcut {
    /// Pick the phase at the cursor.
    Pick(PhaseType),
    /// Delete the pick of the phase.
    Delete(PhaseType),
    /// Delete the pick nearest the cursor.
    DeleteNearest,
    /// Move the pick nearest the cursor slightly later (`true`) or earlier.
    Nudge(bool),
    /// Set the onset of the pick nearest the cursor.
    SetOnset(Onset),
    /// Set the polarity of the pick nearest the cursor.
    SetPolarity(Polarity),
    DecreaseUncertainty(UncertaintyStep),
    IncreaseUncertainty(UncertaintyStep),
    /// Record the trace amplitude at the cursor on the nearest pick.
    CaptureAmplitude,
    WipePicks,
    /// Set one end of the time window to cut to.
    CutPoint,
    UndoCut,
    /// Set one end of the time window to zoom to.
    ZoomPoint,
    UndoZoom,
    /// Give up a cut or zoom whose second end is awaited.
    Cancel,
    TogglePredictiveFilter,
    ToggleBandpassDialog,
    RemoveFilters,
    ToggleHodogram,
    ToggleSpectrogram,
    HideSpectrogram,
    SaveSacHeaders,
    PreviousTrace,
    NextTrace,
}

/// The shortcut bound to `key`, with or without Shift. `p` and `s` pick the
/// first arrivals and, with Shift, the ends of the phases; `o` and `a` also
/// pick the ends and, with Shift, delete them.
pub open spec fn spec_shortcut_for(key: ShortcutKey, shift: bool) -> Option<Shortcut> {
    match key {
        ShortcutKey::P => Some(if shift { Shortcut::Pick(PhaseType::PEnd) } else { Shortcut::Pick(PhaseType::PStart) }),
        ShortcutKey::S => Some(if shift { Shortcut::Pick(PhaseType::SEnd) } else { Shortcut::Pick(PhaseType::SStart) }),
        ShortcutKey::O => Some(if shift { Shortcut::Delete(PhaseType::PEnd) } else { Shortcut::Pick(PhaseType::PEnd) }),
        ShortcutKey::A => Some(if shift { Shortcut::Delete(PhaseType::SEnd) } else { Shortcut::Pick(PhaseType::SEnd) }),
        ShortcutKey::Backspace | ShortcutKey::Delete => Some(Shortcut::DeleteNearest),
        ShortcutKey::ArrowLeft => Some(Shortcut::Nudge(false)),
        ShortcutKey::ArrowRight => Some(Shortcut::Nudge(true)),
        ShortcutKey::I => if shift { None } else { Some(Shortcut::SetOnset(Onset::Impulsive)) },
        ShortcutKey::E => if shift { None } else { Some(Shortcut::SetOnset(Onset::Emergent)) },
        ShortcutKey::U => if shift { None } else { Some(Shortcut::SetPolarity(Polarity::Up)) },
        ShortcutKey::D => if shift { None } else { Some(Shortcut::SetPolarity(Polarity::Down)) },
        ShortcutKey::OpenBracket => Some(Shortcut::DecreaseUncertainty(UncertaintyStep::Coarse)),
        ShortcutKey::CloseBracket => Some(Shortcut::IncreaseUncertainty(UncertaintyStep::Coarse)),
        ShortcutKey::ArrowDown => Some(Shortcut::DecreaseUncertainty(UncertaintyStep::Fine)),
        ShortcutKey::ArrowUp => Some(Shortcut::IncreaseUncertainty(UncertaintyStep::Fine)),
        ShortcutKey::Equals => Some(Shortcut::CaptureAmplitude),
        ShortcutKey::W => if shift { None } else { Some(Shortcut::WipePicks) },
        ShortcutKey::C => Some(if shift { Shortcut::UndoCut } else { Shortcut::CutPoint }),
        ShortcutKey::Z => Some(if shift { Shortcut::UndoZoom } else { Shortcut::ZoomPoint }),
        ShortcutKey::Escape => Some(Shortcut::Cancel),
        ShortcutKey::F => Some(if shift { Shortcut::RemoveFilters } else { Shortcut::TogglePredictiveFilter }),
        ShortcutKey::B => Some(if shift { Shortcut::RemoveFilters } else { Shortcut::ToggleBandpassDialog }),
        ShortcutKey::H => if shift { None } else { Some(Shortcut::ToggleHodogram) },
        ShortcutKey::Q => Some(if shift { Shortcut::HideSpectrogram } else { Shortcut::ToggleSpectrogram }),
        ShortcutKey::M => if shift { None } else { Some(Shortcut::SaveSacHeaders) },
        ShortcutKey::Comma => if shift { Some(Shortcut::PreviousTrace) } else { None },
        ShortcutKey::Period => if shift { Some(Shortcut::NextTrace) } else { None },
    }
}

/// The shortcut a key press triggers.
pub fn shortcut_for(key: ShortcutKey, shift: bool) -> (r: Option<Shortcut>)
    ensures
        r == spec_shortcut_for(key, shift),
{
    match key {
        ShortcutKey::P => Some(if shift { Shortcut::Pick(PhaseType::PEnd) } else { Shortcut::Pick(PhaseType::PStart) }),
        ShortcutKey::S => Some(if shift { Shortcut::Pick(PhaseType::SEnd) } else { Shortcut::Pick(PhaseType::SStart) }),
        ShortcutKey::O => Some(if shift { Shortcut::Delete(PhaseType::PEnd) } else { Shortcut::Pick(PhaseType::PEnd) }),
        ShortcutKey::A => Some(if shift { Shortcut::Delete(PhaseType::SEnd) } else { Shortcut::Pick(PhaseType::SEnd) }),
        ShortcutKey::Backspace | ShortcutKey::Delete => Some(Shortcut::DeleteNearest),
        ShortcutKey::ArrowLeft => Some(Shortcut::Nudge(false)),
        ShortcutKey::ArrowRight => Some(Shortcut::Nudge(true)),
        ShortcutKey::I => if shift { None } else { Some(Shortcut::SetOnset(Onset::Impulsive)) },
        ShortcutKey::E => if shift { None } else { Some(Shortcut::SetOnset(Onset::Emergent)) },
        ShortcutKey::U => if shift { None } else { Some(Shortcut::SetPolarity(Polarity::Up)) },
        ShortcutKey::D => if shift { None } else { Some(Shortcut::SetPolarity(Polarity::Down)) },
        ShortcutKey::OpenBracket => Some(Shortcut::DecreaseUncertainty(UncertaintyStep::Coarse)),
        ShortcutKey::CloseBracket => Some(Shortcut::IncreaseUncertainty(UncertaintyStep::Coarse)),
        ShortcutKey::ArrowDown => Some(Shortcut::DecreaseUncertainty(UncertaintyStep::Fine)),
        ShortcutKey::ArrowUp => Some(Shortcut::IncreaseUncertainty(UncertaintyStep::Fine)),
        ShortcutKey::Equals => Some(Shortcut::CaptureAmplitude),
        ShortcutKey::W => if shift { None } else { Some(Shortcut::WipePicks) },
        ShortcutKey::C => Some(if shift { Shortcut::UndoCut } else { Shortcut::CutPoint }),
        ShortcutKey::Z => Some(if shift { Shortcut::UndoZoom } else { Shortcut::ZoomPoint }),
        ShortcutKey::Escape => Some(Shortcut::Cancel),
        ShortcutKey::F => Some(if shift { Shortcut::RemoveFilters } else { Shortcut::TogglePredictiveFilter }),
        ShortcutKey::B => Some(if shift { Shortcut::RemoveFilters } else { Shortcut::ToggleBandpassDialog }),
        ShortcutKey::H => if shift { None } else { Some(Shortcut::ToggleHodogram) },
        ShortcutKey::Q => Some(if shift { Shortcut::HideSpectrogram } else { Shortcut::ToggleSpectrogram }),
        ShortcutKey::M => if shift { None } else { Some(Shortcut::SaveSacHeaders) },
        ShortcutKey::Comma => if shift { Some(Shortcut::PreviousTrace) } else { None },
        ShortcutKey::Period => if shift { Some(Shortcut::NextTrace) } else { None },
    }
}

/// When a shortcut may act: picking needs the cursor over a trace and an
/// active trace; shortcuts on the nearest pick also need a pick within
/// reach of the cursor; deleting a phase's pick and wiping need an active
/// trace; cut and zoom points need the cursor; the rest always act.
pub open spec fn spec_shortcut_enabled(s: Shortcut, hover: bool, active: bool, nearest_pick: bool) -> bool {
    match s {
        Shortcut::Pick(_) => hover && active,
        Shortcut::SetOnset(_) | Shortcut::SetPolarity(_) | Shortcut::DecreaseUncertainty(_)
            | Shortcut::IncreaseUncertainty(_) | Shortcut::CaptureAmplitude | Shortcut::DeleteNearest
            | Shortcut::Nudge(_) => hover && active && nearest_pick,
        Shortcut::Delete(_) | Shortcut::WipePicks => active,
        Shortcut::CutPoint | Shortcut::ZoomPoint => hover,
        _ => true,
    }
}

/// Whether shortcut `s` may act in the current viewer state.
pub fn shortcut_enabled(s: Shortcut, hover: bool, active: bool, nearest_pick: bool) -> (r: bool)
    ensures
        r == spec_shortcut_enabled(s, hover, active, nearest_pick),
{
    match s {
        Shortcut::Pick(_) => hover && active,
        Shortcut::SetOnset(_) | Shortcut::SetPolarity(_) | Shortcut::DecreaseUncertainty(_)
            | Shortcut::IncreaseUncertainty(_) | Shortcut::CaptureAmplitude | Shortcut::DeleteNearest
            | Shortcut::Nudge(_) => hover && active && nearest_pick,
        Shortcut::Delete(_) | Shortcut::WipePicks => active,
        Shortcut::CutPoint | Shortcut::ZoomPoint => hover,
        _ => true,
    }
}

/// Every phase has a key that picks it: `p` and `s` the first arrivals,
/// Shift with `p` and `s` the ends; and the unshifted keys that pick a phase
/// are exactly `p`, `s`, `o` (P end) and `a` (S end).
pub proof fn law_every_phase_has_keys(ph: PhaseType)
    ensures
        spec_shortcut_for(ShortcutKey::P, false) == Some(Shortcut::Pick(PhaseType::PStart)),
        spec_shortcut_for(ShortcutKey::S, false) == Some(Shortcut::Pick(PhaseType::SStart)),
        spec_shortcut_for(ShortcutKey::P, true) == Some(Shortcut::Pick(PhaseType::PEnd)),
        spec_shortcut_for(ShortcutKey::S, true) == Some(Shortcut::Pick(PhaseType::SEnd)),
        exists|k: ShortcutKey, sh: bool| #[trigger] spec_shortcut_for(k, sh) == Some(Shortcut::Pick(ph)),
        forall|k: ShortcutKey| #[trigger] spec_shortcut_for(k, false) == Some(Shortcut::Pick(ph))
            ==> k == (match ph {
                PhaseType::PStart => ShortcutKey::P,
                PhaseType::SStart => ShortcutKey::S,
                PhaseType::PEnd => ShortcutKey::O,
                PhaseType::SEnd => ShortcutKey::A,
            }),
{
    match ph {
        PhaseType::PStart => { assert(spec_shortcut_for(ShortcutKey::P, false) == Some(Shortcut::Pick(ph))); },
        PhaseType::SStart => { assert(spec_shortcut_for(ShortcutKey::S, false) == Some(Shortcut::Pick(ph))); },
        PhaseType::PEnd => { assert(spec_shortcut_for(ShortcutKey::P, true) == Some(Shortcut::Pick(ph))); },
        PhaseType::SEnd => { assert(spec_shortcut_for(ShortcutKey::S, true) == Some(Shortcut::Pick(ph))); },
    }
}

/// The letter printed on a letter key.
pub open spec fn key_letter(k: ShortcutKey) -> Option<char> {
    match k {
        ShortcutKey::P => Some('p'),
        ShortcutKey::S => Some('s'),
        ShortcutKey::O => Some('o'),
        ShortcutKey::A => Some('a'),
        ShortcutKey::I => Some('i'),
        ShortcutKey::E => Some('e'),
        ShortcutKey::U => Some('u'),
        ShortcutKey::D => Some('d'),
        ShortcutKey::W => Some('w'),
        ShortcutKey::C => Some('c'),
        ShortcutKey::Z => Some('z'),
        ShortcutKey::F => Some('f'),
        ShortcutKey::B => Some('b'),
        ShortcutKey::H => Some('h'),
        ShortcutKey::Q => Some('q'),
        ShortcutKey::M => Some('m'),
        _ => None,
    }
}

/// A key that sets a polarity or an onset is the letter that the pick file
/// uses for it: `u` sets Up and `d` Down, `i` sets impulsive and `e`
/// emergent, and each polarity and each onset has such a key.
pub proof fn law_attribute_keys_are_their_letters(k: ShortcutKey, p: Polarity, o: Onset)
    ensures
        spec_shortcut_for(k, false) == Some(Shortcut::SetPolarity(p)) ==>
            key_letter(k) is Some && spec_polarity_from(seq![key_letter(k)->0]) == Some(p),
        spec_shortcut_for(k, false) == Some(Shortcut::SetOnset(o)) ==>
            key_letter(k) is Some && spec_onset_from(seq![key_letter(k)->0]) == Some(o),
        exists|kp: ShortcutKey| #[trigger] spec_shortcut_for(kp, false) == Some(Shortcut::SetPolarity(p)),
        exists|ko: ShortcutKey| #[trigger] spec_shortcut_for(ko, false) == Some(Shortcut::SetOnset(o)),
{
    if k == ShortcutKey::U {
        assert(seq![key_letter(k)->0] =~= seq!['u']);
    } else if k == ShortcutKey::D {
        let d = seq![key_letter(k)->0];
        assert(d =~= seq!['d']);
        assert(d != seq!['u'] && d != seq!['U'] && d != seq!['+']) by {
            assert(d[0] != seq!['u'][0] && d[0] != seq!['U'][0] && d[0] != seq!['+'][0]);
        }
    } else if k == ShortcutKey::I {
        assert(seq![key_letter(k)->0] =~= seq!['i']);
    } else if k == ShortcutKey::E {
        let e = seq![key_letter(k)->0];
        assert(e =~= seq!['e']);
        assert(e != seq!['i'] && e != seq!['I']) by {
            assert(e[0] != seq!['i'][0] && e[0] != seq!['I'][0]);
        }
    }
    match p {
        Polarity::Up => { assert(spec_shortcut_for(ShortcutKey::U, false) == Some(Shortcut::SetPolarity(p))); },
        Polarity::Down => { assert(spec_shortcut_for(ShortcutKey::D, false) == Some(Shortcut::SetPolarity(p))); },
    }
    match o {
        Onset::Impulsive => { assert(spec_shortcut_for(ShortcutKey::I, false) == Some(Shortcut::SetOnset(o))); },
        Onset::Emergent => { assert(spec_shortcut_for(ShortcutKey::E, false) == Some(Shortcut::SetOnset(o))); },
    }
}

/// Backspace and Delete delete the nearest pick, with or without Shift.
pub proof fn law_delete_keys_delete_nearest(shift: bool)
    ensures
        spec_shortcut_for(ShortcutKey::Backspace, shift) == Some(Shortcut::DeleteNearest),
        spec_shortcut_for(ShortcutKey::Delete, shift) == Some(Shortcut::DeleteNearest),
{
}

} // verus!
