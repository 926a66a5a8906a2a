//! How the trace viewer reacts to a shortcut: picks and their attributes,
//! the two-press cut and zoom windows, the filter and tool toggles, and
//! spectrogram requests.
//!
//! Times are a type parameter `T`. The reactions never compare or compute
//! with them: which pick is nearest the cursor, and which end of a window
//! is the earlier, are for the caller to find out.

use vstd::prelude::*;
use crate::picking::{PhaseType, Onset, Polarity, spec_label};
use crate::text::push_char;
use crate::navigation::{NavigationMode, nav_result, law_single_step_moves_one};
use crate::shortcuts::{Shortcut, ShortcutKey, UncertaintyStep, spec_shortcut_enabled, spec_shortcut_for};

verus! {

/// Where a two-press window selection stands: no point set yet, or the
/// first point set and the second awaited.
#[derive(Debug)]
pub enum MarkState<T> {
    Idle,
    WaitingForEnd(T),
}

/// Progress of the two-press cut.
pub type CutState<T> = MarkState<T>;

/// Progress of the two-press zoom.
pub type ZoomState<T> = MarkState<T>;

/// Which of the two window selections a step belongs to.
#[derive(Debug, Clone, Copy, PartialEq, Eq, Structural)]
pub enum MarkKind {
    Cut,
    Zoom,
}

/// The viewer state that shortcuts change.
#[derive(Debug)]
pub struct ViewerState<T> {
    pub cut: MarkState<T>,
    pub zoom: MarkState<T>,
    pub predictive_filter_on: bool,
    pub filter_active: bool,
    pub show_bandpass: bool,
    pub show_hodogram: bool,
    /// The trace whose spectrogram is shown or being computed.
    pub spectrogram_target: Option<usize>,
}

/// What the viewer knows when a key is pressed.
#[derive(Debug)]
pub struct Situation<T> {
    /// The time under the cursor, when the cursor is over the plot.
    pub hover: Option<T>,
    /// The active trace.
    pub active: Option<usize>,
    /// The phase of the pick nearest the cursor, when one is within reach.
    pub nearest: Option<PhaseType>,
    /// Whether the active trace has a P-start pick.
    pub has_p_start: bool,
    /// Whether the active trace has any pick.
    pub has_picks: bool,
}

/// What the caller has to carry out after a reaction.
#[derive(Debug)]
pub enum Effect<T> {
    Nothing,
    /// Pick the phase at the time.
    Pick(PhaseType, T),
    /// Delete the pick of the phase.
    Delete(PhaseType),
    SetOnset(PhaseType, Onset),
    SetPolarity(PhaseType, Polarity),
    /// Move the pick of the phase slightly later (`true`) or earlier.
    Nudge(PhaseType, bool),
    DecreaseUncertainty(PhaseType, UncertaintyStep),
    IncreaseUncertainty(PhaseType, UncertaintyStep),
    /// Record on the pick of the phase the amplitude at the time.
    CaptureAmplitude(PhaseType, T),
    /// Remove every pick of the active trace.
    Wipe,
    /// The first end of a window was set.
    MarkStarted(MarkKind, T),
    /// Show the window between the two ends, given in the order pressed.
    ShowWindow(MarkKind, T, T),
    /// Show the whole trace again.
    ResetView(MarkKind),
    ApplyPredictiveFilter,
    RevertPredictiveFilter,
    /// The predictive filter was asked for without a P-start pick.
    PredictiveFilterNeedsPick,
    /// Restore the original trace and rescale the amplitude axis.
    RemoveFilters,
    HideSpectrogram,
    /// Compute the spectrogram of the trace.
    RequestSpectrogram(usize),
    SaveSacHeaders,
    /// Move to the next (`true`) or previous traces.
    Navigate(bool),
}

impl<T> ViewerState<T> {
    /// The state the viewer starts in.
    pub open spec fn spec_initial() -> Self {
        ViewerState {
            cut: MarkState::Idle,
            zoom: MarkState::Idle,
            predictive_filter_on: false,
            filter_active: false,
            show_bandpass: false,
            show_hodogram: false,
            spectrogram_target: None,
        }
    }
}

/// A press of the cut or zoom key with the cursor at `at`.
pub open spec fn spec_press_mark<T>(m: MarkState<T>, kind: MarkKind, at: T) -> (MarkState<T>, Effect<T>) {
    match m {
        MarkState::Idle => (MarkState::WaitingForEnd(at), Effect::MarkStarted(kind, at)),
        MarkState::WaitingForEnd(start) => (MarkState::Idle, Effect::ShowWindow(kind, start, at)),
    }
}

/// The reaction to shortcut `s`: the next state and what is to be done.
pub open spec fn spec_react<T>(st: ViewerState<T>, s: Shortcut, sit: Situation<T>) -> (ViewerState<T>, Effect<T>) {
    let on_pick = sit.hover is Some && sit.active is Some;
    let on_near = on_pick && sit.nearest is Some;
    match s {
        Shortcut::Pick(ph) => if on_pick { (st, Effect::Pick(ph, sit.hover->0)) } else { (st, Effect::Nothing) },
        Shortcut::SetOnset(o) => if on_near { (st, Effect::SetOnset(sit.nearest->0, o)) } else { (st, Effect::Nothing) },
        Shortcut::SetPolarity(p) => if on_near { (st, Effect::SetPolarity(sit.nearest->0, p)) } else { (st, Effect::Nothing) },
        Shortcut::DecreaseUncertainty(k) => if on_near { (st, Effect::DecreaseUncertainty(sit.nearest->0, k)) } else { (st, Effect::Nothing) },
        Shortcut::IncreaseUncertainty(k) => if on_near { (st, Effect::IncreaseUncertainty(sit.nearest->0, k)) } else { (st, Effect::Nothing) },
        Shortcut::DeleteNearest => if on_near { (st, Effect::Delete(sit.nearest->0)) } else { (st, Effect::Nothing) },
        Shortcut::Nudge(later) => if on_near { (st, Effect::Nudge(sit.nearest->0, later)) } else { (st, Effect::Nothing) },
        Shortcut::Cancel => (ViewerState { cut: MarkState::Idle, zoom: MarkState::Idle, ..st }, Effect::Nothing),
        Shortcut::CaptureAmplitude => if on_near {
            (st, Effect::CaptureAmplitude(sit.nearest->0, sit.hover->0))
        } else {
            (st, Effect::Nothing)
        },
        Shortcut::Delete(ph) => if sit.active is Some { (st, Effect::Delete(ph)) } else { (st, Effect::Nothing) },
        Shortcut::WipePicks => if sit.active is Some && sit.has_picks { (st, Effect::Wipe) } else { (st, Effect::Nothing) },
        Shortcut::CutPoint => if sit.hover is Some {
            let (m, e) = spec_press_mark(st.cut, MarkKind::Cut, sit.hover->0);
            (ViewerState { cut: m, ..st }, e)
        } else {
            (st, Effect::Nothing)
        },
        Shortcut::ZoomPoint => if sit.hover is Some {
            let (m, e) = spec_press_mark(st.zoom, MarkKind::Zoom, sit.hover->0);
            let target = if m is Idle { None } else { st.spectrogram_target };
            (ViewerState { zoom: m, spectrogram_target: target, ..st }, e)
        } else {
            (st, Effect::Nothing)
        },
        Shortcut::UndoCut => (ViewerState { cut: MarkState::Idle, spectrogram_target: None, ..st }, Effect::ResetView(MarkKind::Cut)),
        Shortcut::UndoZoom => (ViewerState { zoom: MarkState::Idle, spectrogram_target: None, ..st }, Effect::ResetView(MarkKind::Zoom)),
        Shortcut::TogglePredictiveFilter => if !sit.has_p_start {
            (st, Effect::PredictiveFilterNeedsPick)
        } else if st.predictive_filter_on {
            (ViewerState { predictive_filter_on: false, ..st }, Effect::RevertPredictiveFilter)
        } else {
            (ViewerState { predictive_filter_on: true, filter_active: true, ..st }, Effect::ApplyPredictiveFilter)
        },
        Shortcut::ToggleBandpassDialog => (ViewerState { show_bandpass: !st.show_bandpass, ..st }, Effect::Nothing),
        Shortcut::RemoveFilters => (
            ViewerState { filter_active: false, predictive_filter_on: false, spectrogram_target: None, ..st },
            Effect::RemoveFilters,
        ),
        Shortcut::ToggleHodogram => (ViewerState { show_hodogram: !st.show_hodogram, ..st }, Effect::Nothing),
        Shortcut::ToggleSpectrogram => match sit.active {
            None => (st, Effect::Nothing),
            Some(i) => if st.spectrogram_target == Some(i) {
                (ViewerState { spectrogram_target: None, ..st }, Effect::HideSpectrogram)
            } else {
                (ViewerState { spectrogram_target: Some(i), ..st }, Effect::RequestSpectrogram(i))
            },
        },
        Shortcut::HideSpectrogram => (ViewerState { spectrogram_target: None, ..st }, Effect::HideSpectrogram),
        Shortcut::SaveSacHeaders => (st, Effect::SaveSacHeaders),
        Shortcut::PreviousTrace => (st, Effect::Navigate(false)),
        Shortcut::NextTrace => (st, Effect::Navigate(true)),
    }
}

impl<T: Copy> ViewerState<T> {
    /// The state the viewer starts in: no window point set, no filter, no
    /// dialog, no spectrogram.
    pub fn new() -> (r: Self)
        ensures
            r == Self::spec_initial(),
    {
        ViewerState {
            cut: MarkState::Idle,
            zoom: MarkState::Idle,
            predictive_filter_on: false,
            filter_active: false,
            show_bandpass: false,
            show_hodogram: false,
            spectrogram_target: None,
        }
    }

    /// Reacts to shortcut `s` in situation `sit`: updates the state and
    /// says what the caller has to carry out.
    pub fn react(&mut self, s: Shortcut, sit: &Situation<T>) -> (e: Effect<T>)
        ensures
            (*final(self), e) == spec_react(*old(self), s, *sit),
            spec_saves_picks(e) <==> is_pick_shortcut(s) && !(e is Nothing),
    {
        let ghost before = *self;
        let e = self.react_step(s, sit);
        proof { law_pick_changes_are_saved(before, s, *sit); }
        e
    }

    fn react_step(&mut self, s: Shortcut, sit: &Situation<T>) -> (e: Effect<T>)
        ensures
            (*final(self), e) == spec_react(*old(self), s, *sit),
    {
        let on_pick = sit.hover.is_some() && sit.active.is_some();
        let on_near = on_pick && sit.nearest.is_some();
        match s {
            Shortcut::Pick(ph) => match (sit.hover, sit.active) {
                (Some(h), Some(_)) => Effect::Pick(ph, h),
                _ => Effect::Nothing,
            },
            Shortcut::SetOnset(o) => match sit.nearest {
                Some(ph) if on_near => Effect::SetOnset(ph, o),
                _ => Effect::Nothing,
            },
            Shortcut::SetPolarity(p) => match sit.nearest {
                Some(ph) if on_near => Effect::SetPolarity(ph, p),
                _ => Effect::Nothing,
            },
            Shortcut::DecreaseUncertainty(k) => match sit.nearest {
                Some(ph) if on_near => Effect::DecreaseUncertainty(ph, k),
                _ => Effect::Nothing,
            },
            Shortcut::IncreaseUncertainty(k) => match sit.nearest {
                Some(ph) if on_near => Effect::IncreaseUncertainty(ph, k),
                _ => Effect::Nothing,
            },
            Shortcut::DeleteNearest => match sit.nearest {
                Some(ph) if on_near => Effect::Delete(ph),
                _ => Effect::Nothing,
            },
            Shortcut::Nudge(later) => match sit.nearest {
                Some(ph) if on_near => Effect::Nudge(ph, later),
                _ => Effect::Nothing,
            },
            Shortcut::Cancel => {
                self.cut = MarkState::Idle;
                self.zoom = MarkState::Idle;
                Effect::Nothing
            },
            Shortcut::CaptureAmplitude => match (sit.nearest, sit.hover) {
                (Some(ph), Some(h)) if on_near => Effect::CaptureAmplitude(ph, h),
                _ => Effect::Nothing,
            },
            Shortcut::Delete(ph) => if sit.active.is_some() { Effect::Delete(ph) } else { Effect::Nothing },
            Shortcut::WipePicks => if sit.active.is_some() && sit.has_picks { Effect::Wipe } else { Effect::Nothing },
            Shortcut::CutPoint => match sit.hover {
                Some(h) => match self.cut {
                    MarkState::Idle => {
                        self.cut = MarkState::WaitingForEnd(h);
                        Effect::MarkStarted(MarkKind::Cut, h)
                    },
                    MarkState::WaitingForEnd(start) => {
                        self.cut = MarkState::Idle;
                        Effect::ShowWindow(MarkKind::Cut, start, h)
                    },
                },
                None => Effect::Nothing,
            },
            Shortcut::ZoomPoint => match sit.hover {
                Some(h) => match self.zoom {
                    MarkState::Idle => {
                        self.zoom = MarkState::WaitingForEnd(h);
                        Effect::MarkStarted(MarkKind::Zoom, h)
                    },
                    MarkState::WaitingForEnd(start) => {
                        self.zoom = MarkState::Idle;
                        self.spectrogram_target = None;
                        Effect::ShowWindow(MarkKind::Zoom, start, h)
                    },
                },
                None => Effect::Nothing,
            },
            Shortcut::UndoCut => {
                self.cut = MarkState::Idle;
                self.spectrogram_target = None;
                Effect::ResetView(MarkKind::Cut)
            },
            Shortcut::UndoZoom => {
                self.zoom = MarkState::Idle;
                self.spectrogram_target = None;
                Effect::ResetView(MarkKind::Zoom)
            },
            Shortcut::TogglePredictiveFilter => if !sit.has_p_start {
                Effect::PredictiveFilterNeedsPick
            } else if self.predictive_filter_on {
                self.predictive_filter_on = false;
                Effect::RevertPredictiveFilter
            } else {
                self.predictive_filter_on = true;
                self.filter_active = true;
                Effect::ApplyPredictiveFilter
            },
            Shortcut::ToggleBandpassDialog => {
                self.show_bandpass = !self.show_bandpass;
                Effect::Nothing
            },
            Shortcut::RemoveFilters => {
                self.filter_active = false;
                self.predictive_filter_on = false;
                self.spectrogram_target = None;
                Effect::RemoveFilters
            },
            Shortcut::ToggleHodogram => {
                self.show_hodogram = !self.show_hodogram;
                Effect::Nothing
            },
            Shortcut::ToggleSpectrogram => match sit.active {
                None => Effect::Nothing,
                Some(i) => {
                    let shown = match self.spectrogram_target {
                        Some(t) => t == i,
                        None => false,
                    };
                    if shown {
                        self.spectrogram_target = None;
                        Effect::HideSpectrogram
                    } else {
                        self.spectrogram_target = Some(i);
                        Effect::RequestSpectrogram(i)
                    }
                },
            },
            Shortcut::HideSpectrogram => {
                self.spectrogram_target = None;
                Effect::HideSpectrogram
            },
            Shortcut::SaveSacHeaders => Effect::SaveSacHeaders,
            Shortcut::PreviousTrace => Effect::Navigate(false),
            Shortcut::NextTrace => Effect::Navigate(true),
        }
    }
}

/// A shortcut that may not act in the situation (see `spec_shortcut_enabled`)
/// changes nothing and asks for nothing.
pub proof fn law_disabled_shortcut_does_nothing<T>(st: ViewerState<T>, s: Shortcut, sit: Situation<T>)
    requires
        !spec_shortcut_enabled(s, sit.hover is Some, sit.active is Some, sit.nearest is Some),
    ensures
        spec_react(st, s, sit) == (st, Effect::<T>::Nothing),
{
}

/// The key of a window selection.
pub open spec fn mark_key(kind: MarkKind) -> Shortcut {
    match kind {
        MarkKind::Cut => Shortcut::CutPoint,
        MarkKind::Zoom => Shortcut::ZoomPoint,
    }
}

/// The progress of a window selection.
pub open spec fn mark_of<T>(st: ViewerState<T>, kind: MarkKind) -> MarkState<T> {
    match kind {
        MarkKind::Cut => st.cut,
        MarkKind::Zoom => st.zoom,
    }
}

/// Two presses of the cut (or zoom) key with the cursor over the plot, from
/// a selection with no point set, first set the start and then show the
/// window between the two cursor times, and leave no point set.
pub proof fn law_two_presses_show_window<T>(st: ViewerState<T>, kind: MarkKind, first: Situation<T>, second: Situation<T>)
    requires
        mark_of(st, kind) is Idle,
        first.hover is Some,
        second.hover is Some,
    ensures
        ({
            let (st1, e1) = spec_react(st, mark_key(kind), first);
            let (st2, e2) = spec_react(st1, mark_key(kind), second);
            &&& e1 == Effect::MarkStarted(kind, first.hover->0)
            &&& mark_of(st1, kind) == MarkState::WaitingForEnd(first.hover->0)
            &&& e2 == Effect::ShowWindow(kind, first.hover->0, second.hover->0)
            &&& mark_of(st2, kind) is Idle
        }),
{
}

/// Shift with `p` or `s`, the cursor over the active trace, picks the end
/// of the P or S phase at the cursor time and changes no viewer state.
pub proof fn law_shift_pick_keys_pick_ends<T>(st: ViewerState<T>, sit: Situation<T>)
    requires
        sit.hover is Some,
        sit.active is Some,
    ensures
        spec_react(st, spec_shortcut_for(ShortcutKey::P, true)->0, sit) == (st, Effect::Pick(PhaseType::PEnd, sit.hover->0)),
        spec_react(st, spec_shortcut_for(ShortcutKey::S, true)->0, sit) == (st, Effect::Pick(PhaseType::SEnd, sit.hover->0)),
{
}

/// Escape gives up any cut or zoom whose second end is awaited, and
/// changes nothing else.
pub proof fn law_cancel_forgets_points<T>(st: ViewerState<T>, sit: Situation<T>)
    ensures
        ({
            let (st1, e) = spec_react(st, Shortcut::Cancel, sit);
            &&& st1.cut is Idle && st1.zoom is Idle
            &&& st1.predictive_filter_on == st.predictive_filter_on && st1.filter_active == st.filter_active
            &&& st1.show_bandpass == st.show_bandpass && st1.show_hodogram == st.show_hodogram
            &&& st1.spectrogram_target == st.spectrogram_target
            &&& e is Nothing
        }),
{
}

/// Undoing a cut or zoom forgets any point set, hides the spectrogram and
/// shows the whole trace again, whatever the state.
pub proof fn law_undo_resets_view<T>(st: ViewerState<T>, kind: MarkKind, sit: Situation<T>)
    ensures
        ({
            let key = match kind { MarkKind::Cut => Shortcut::UndoCut, MarkKind::Zoom => Shortcut::UndoZoom };
            let (st1, e) = spec_react(st, key, sit);
            &&& mark_of(st1, kind) is Idle
            &&& st1.spectrogram_target is None
            &&& e == Effect::<T>::ResetView(kind)
        }),
{
}

/// Removing the filters leaves no filter on and no spectrogram, whatever
/// the state.
pub proof fn law_remove_filters_clears<T>(st: ViewerState<T>, sit: Situation<T>)
    ensures
        ({
            let (st1, e) = spec_react(st, Shortcut::RemoveFilters, sit);
            &&& !st1.filter_active
            &&& !st1.predictive_filter_on
            &&& st1.spectrogram_target is None
            &&& e == Effect::<T>::RemoveFilters
        }),
{
}

/// Toggling the band-pass dialog or the hodogram twice gives back the state
/// one started from; so does toggling the spectrogram of the active trace
/// twice when it was shown.
pub proof fn law_toggles_undo_themselves<T>(st: ViewerState<T>, sit: Situation<T>)
    ensures
        spec_react(spec_react(st, Shortcut::ToggleBandpassDialog, sit).0, Shortcut::ToggleBandpassDialog, sit).0 == st,
        spec_react(spec_react(st, Shortcut::ToggleHodogram, sit).0, Shortcut::ToggleHodogram, sit).0 == st,
        sit.active is Some && st.spectrogram_target == sit.active ==>
            spec_react(spec_react(st, Shortcut::ToggleSpectrogram, sit).0, Shortcut::ToggleSpectrogram, sit).0 == st,
{
}

/// The predictive filter is switched on only with a P-start pick, and a
/// switch on followed by a switch off leaves it off.
pub proof fn law_predictive_filter_needs_p<T>(st: ViewerState<T>, sit: Situation<T>)
    ensures
        !sit.has_p_start ==> spec_react(st, Shortcut::TogglePredictiveFilter, sit)
            == (st, Effect::<T>::PredictiveFilterNeedsPick),
        sit.has_p_start && !st.predictive_filter_on ==> ({
            let (st1, e1) = spec_react(st, Shortcut::TogglePredictiveFilter, sit);
            let (st2, e2) = spec_react(st1, Shortcut::TogglePredictiveFilter, sit);
            &&& st1.predictive_filter_on && st1.filter_active
            &&& e1 == Effect::<T>::ApplyPredictiveFilter
            &&& !st2.predictive_filter_on
            &&& e2 == Effect::<T>::RevertPredictiveFilter
        }),
{
}

/// Shortcuts on picks leave the viewer state as it was.
pub proof fn law_pick_shortcuts_keep_state<T>(st: ViewerState<T>, s: Shortcut, sit: Situation<T>)
    requires
        s is Pick || s is Delete || s is SetOnset || s is SetPolarity || s is DecreaseUncertainty
            || s is IncreaseUncertainty || s is CaptureAmplitude || s is WipePicks || s is DeleteNearest
            || s is Nudge,
    ensures
        spec_react(st, s, sit).0 == st,
{
}

/// Shift with `<` asks to go back and Shift with `>` to go forward, and
/// change no viewer state: with only trace `i` shown, one at a time, the
/// step asked for by Shift+`<` shows the trace before `i`, and the one
/// asked for by Shift+`>` the trace after it.
pub proof fn law_trace_keys_lead_opposite_ways<T>(st: ViewerState<T>, sit: Situation<T>,
    vis: Seq<bool>, stations: Seq<Seq<char>>, i: int)
    requires
        vis.len() == stations.len(),
        0 <= i < vis.len(),
        forall|j: int| 0 <= j < vis.len() ==> #[trigger] vis[j] == (j == i),
    ensures
        spec_shortcut_for(ShortcutKey::Comma, true) == Some(Shortcut::PreviousTrace),
        spec_shortcut_for(ShortcutKey::Period, true) == Some(Shortcut::NextTrace),
        spec_react(st, Shortcut::PreviousTrace, sit).0 == st,
        spec_react(st, Shortcut::NextTrace, sit).0 == st,
        spec_react(st, Shortcut::PreviousTrace, sit).1 matches Effect::Navigate(f)
            && (i > 0 ==> nav_result(vis, stations, NavigationMode::Single, f)[i - 1]
                && !nav_result(vis, stations, NavigationMode::Single, f)[i]),
        spec_react(st, Shortcut::NextTrace, sit).1 matches Effect::Navigate(f)
            && (i + 1 < vis.len() ==> nav_result(vis, stations, NavigationMode::Single, f)[i + 1]
                && !nav_result(vis, stations, NavigationMode::Single, f)[i]),
        spec_react(st, Shortcut::PreviousTrace, sit).1 != spec_react(st, Shortcut::NextTrace, sit).1,
{
    law_single_step_moves_one(vis, stations, i);
}

/// Above this many samples a spectrogram is computed only once confirmed.
pub const LARGE_SPECTROGRAM_SAMPLES: usize = 100_000;

/// The sample a spectrogram window ends on: `end_idx`, or the last sample
/// of the trace where `end_idx` lies past it.
pub open spec fn spec_window_end(end_idx: int, len: int) -> int {
    if end_idx >= len {
        if len > 0 { len - 1 } else { 0 }
    } else {
        end_idx
    }
}

/// The number of samples from `start_idx` to the window's end, both
/// included; none where the start lies after the end.
pub open spec fn spec_window_samples(start_idx: int, end_idx: int, len: int) -> int {
    let e = spec_window_end(end_idx, len);
    if start_idx <= e { e - start_idx + 1 } else { 0 }
}

/// The number of samples in the spectrogram window from sample `start_idx`
/// to sample `end_idx` of a trace of `len` samples.
pub fn window_samples(start_idx: usize, end_idx: usize, len: usize) -> (r: usize)
    ensures
        r == spec_window_samples(start_idx as int, end_idx as int, len as int),
{
    let e = if end_idx >= len { len.saturating_sub(1) } else { end_idx };
    if start_idx <= e { e - start_idx + 1 } else { 0 }
}

/// Whether a spectrogram of `samples` samples waits for confirmation.
pub fn spectrogram_needs_confirmation(samples: usize) -> (r: bool)
    ensures
        r == (samples > LARGE_SPECTROGRAM_SAMPLES),
{
    samples > LARGE_SPECTROGRAM_SAMPLES
}

/// The first and last sample of the spectrogram window, or `None` where
/// the window holds fewer than two samples.
pub fn spectrogram_range(start_idx: usize, end_idx: usize, len: usize) -> (r: Option<(usize, usize)>)
    ensures
        r == (if start_idx < spec_window_end(end_idx as int, len as int) {
            Some((start_idx, spec_window_end(end_idx as int, len as int) as usize))
        } else {
            None
        }),
{
    let e = if end_idx >= len { len.saturating_sub(1) } else { end_idx };
    if start_idx < e { Some((start_idx, e)) } else { None }
}

/// A spectrogram range lies inside the trace and spans exactly the samples
/// that the window count gives.
pub proof fn law_spectrogram_range_in_trace(start_idx: usize, end_idx: usize, len: usize)
    ensures
        ({
            let e = spec_window_end(end_idx as int, len as int);
            start_idx < e ==> {
                &&& e < len
                &&& spec_window_samples(start_idx as int, end_idx as int, len as int) == e - start_idx + 1
                &&& spec_window_samples(start_idx as int, end_idx as int, len as int) >= 2
            }
        }),
{
}

/// A shortcut that acts on the picks of the active trace.
pub open spec fn is_pick_shortcut(s: Shortcut) -> bool {
    s is Pick || s is Delete || s is DeleteNearest || s is Nudge || s is SetOnset || s is SetPolarity
        || s is DecreaseUncertainty || s is IncreaseUncertainty || s is CaptureAmplitude || s is WipePicks
}

/// Whether the pick file of the active trace is to be rewritten once the
/// effect is carried out (a deletion: once a pick was deleted): exactly the
/// effects that change picks.
pub open spec fn spec_saves_picks<T>(e: Effect<T>) -> bool {
    match e {
        Effect::Pick(..) | Effect::Delete(_) | Effect::Nudge(..) | Effect::SetOnset(..)
            | Effect::SetPolarity(..) | Effect::DecreaseUncertainty(..) | Effect::IncreaseUncertainty(..)
            | Effect::CaptureAmplitude(..) | Effect::Wipe => true,
        _ => false,
    }
}

impl<T> Effect<T> {
    /// Whether the pick file of the active trace is to be rewritten once
    /// this effect is carried out.
    pub fn saves_picks(&self) -> (r: bool)
        ensures
            r == spec_saves_picks(*self),
    {
        match self {
            Effect::Pick(..) | Effect::Delete(_) | Effect::Nudge(..) | Effect::SetOnset(..)
                | Effect::SetPolarity(..) | Effect::DecreaseUncertainty(..) | Effect::IncreaseUncertainty(..)
                | Effect::CaptureAmplitude(..) | Effect::Wipe => true,
            _ => false,
        }
    }
}

/// The name of a phase in status messages.
pub open spec fn phase_name(p: PhaseType) -> Seq<char> {
    match p {
        PhaseType::PStart => "P-start"@,
        PhaseType::SStart => "S-start"@,
        PhaseType::PEnd => "P-end"@,
        PhaseType::SEnd => "S-end"@,
    }
}

/// The status message shown after shortcut `s` had effect `e`, leaving the
/// viewer in state `after`, where the message holds no number (a deletion:
/// once a pick was deleted). Messages that give times, amplitudes,
/// uncertainties or trace numbers are left to the caller, who formats them.
pub open spec fn spec_status_text<T>(s: Shortcut, e: Effect<T>, after: ViewerState<T>) -> Option<Seq<char>> {
    match e {
        Effect::SetOnset(ph, Onset::Impulsive) => Some("Set "@ + spec_label(ph) + " to Impulsive"@),
        Effect::SetOnset(ph, Onset::Emergent) => Some("Set "@ + spec_label(ph) + " to Emergent"@),
        Effect::SetPolarity(ph, Polarity::Up) => Some("Set "@ + spec_label(ph) + " to Up"@),
        Effect::SetPolarity(ph, Polarity::Down) => Some("Set "@ + spec_label(ph) + " to Down"@),
        Effect::Delete(ph) => Some("Deleted "@ + phase_name(ph) + " pick"@),
        Effect::Wipe => Some("Wiped all picks"@),
        Effect::ResetView(MarkKind::Cut) => Some("Cut reset — full trace view"@),
        Effect::ResetView(MarkKind::Zoom) => Some("Zoom reset — full view"@),
        Effect::ApplyPredictiveFilter => Some("Predictive filter ON"@),
        Effect::RevertPredictiveFilter => Some("Predictive filter OFF"@),
        Effect::PredictiveFilterNeedsPick => Some("⚠ Predictive filter requires P-start pick"@),
        Effect::RemoveFilters => Some("All filters removed — original trace restored"@),
        Effect::HideSpectrogram => Some("Spectrogram hidden"@),
        Effect::SaveSacHeaders => Some("Picks saved to SAC headers (see console)"@),
        Effect::Navigate(false) => Some("Navigated to previous trace(s)"@),
        Effect::Navigate(true) => Some("Navigated to next trace(s)"@),
        Effect::Nothing => if s == Shortcut::ToggleBandpassDialog {
            Some(if after.show_bandpass { "Bandpass filter dialog opened"@ } else { "Bandpass filter dialog closed"@ })
        } else {
            None
        },
        _ => None,
    }
}

fn text_of(t: &str) -> (r: String)
    ensures
        r@ == t@,
{
    String::from_str(t)
}

fn phase_name_text(p: PhaseType) -> (r: &'static str)
    ensures
        r@ == phase_name(p),
{
    match p {
        PhaseType::PStart => "P-start",
        PhaseType::SStart => "S-start",
        PhaseType::PEnd => "P-end",
        PhaseType::SEnd => "S-end",
    }
}

/// `a`, then `b`, then `c` as one string.
fn joined(a: &str, b: &str, c: &str) -> (r: String)
    ensures
        r@ == a@ + b@ + c@,
{
    let mut r = String::from_str(a);
    r.append(b);
    r.append(c);
    r
}

/// The status message shown after shortcut `s` had effect `e`, leaving the
/// viewer in state `after`, where it holds no number.
pub fn status_text<T>(s: Shortcut, e: &Effect<T>, after: &ViewerState<T>) -> (r: Option<String>)
    ensures
        match r {
            Some(t) => spec_status_text(s, *e, *after) == Some(t@),
            None => spec_status_text(s, *e, *after) is None,
        },
{
    match e {
        Effect::SetOnset(ph, Onset::Impulsive) => Some(joined("Set ", ph.label(), " to Impulsive")),
        Effect::SetOnset(ph, Onset::Emergent) => Some(joined("Set ", ph.label(), " to Emergent")),
        Effect::SetPolarity(ph, Polarity::Up) => Some(joined("Set ", ph.label(), " to Up")),
        Effect::SetPolarity(ph, Polarity::Down) => Some(joined("Set ", ph.label(), " to Down")),
        Effect::Delete(ph) => Some(joined("Deleted ", phase_name_text(*ph), " pick")),
        Effect::Wipe => Some(text_of("Wiped all picks")),
        Effect::ResetView(MarkKind::Cut) => Some(text_of("Cut reset — full trace view")),
        Effect::ResetView(MarkKind::Zoom) => Some(text_of("Zoom reset — full view")),
        Effect::ApplyPredictiveFilter => Some(text_of("Predictive filter ON")),
        Effect::RevertPredictiveFilter => Some(text_of("Predictive filter OFF")),
        Effect::PredictiveFilterNeedsPick => Some(text_of("⚠ Predictive filter requires P-start pick")),
        Effect::RemoveFilters => Some(text_of("All filters removed — original trace restored")),
        Effect::HideSpectrogram => Some(text_of("Spectrogram hidden")),
        Effect::SaveSacHeaders => Some(text_of("Picks saved to SAC headers (see console)")),
        Effect::Navigate(false) => Some(text_of("Navigated to previous trace(s)")),
        Effect::Navigate(true) => Some(text_of("Navigated to next trace(s)")),
        Effect::Nothing => match s {
            Shortcut::ToggleBandpassDialog => Some(text_of(
                if after.show_bandpass { "Bandpass filter dialog opened" } else { "Bandpass filter dialog closed" })),
            _ => None,
        },
        _ => None,
    }
}

/// A pick shortcut that acts asks for the pick file to be rewritten, and
/// no other shortcut does: with the cursor over the active trace, `p`
/// picks the P start at the cursor time and asks for the file to be saved.
pub proof fn law_pick_changes_are_saved<T>(st: ViewerState<T>, s: Shortcut, sit: Situation<T>)
    ensures
        spec_saves_picks(spec_react(st, s, sit).1) <==> is_pick_shortcut(s) && !(spec_react(st, s, sit).1 is Nothing),
        sit.hover is Some && sit.active is Some ==> {
            let (st1, e) = spec_react(st, spec_shortcut_for(ShortcutKey::P, false)->0, sit);
            &&& e == Effect::Pick(PhaseType::PStart, sit.hover->0)
            &&& spec_saves_picks(e)
            &&& st1 == st
        },
{
}

} // verus!
