use seisbox::map_drag::{DragFrame, DragResult, MapDrag, MapInteractionMode, MapKey, MapKeyResult, MapMarks};
use seisbox::picking::{Onset, PhaseType, Polarity};
use seisbox::plot_layout::{figure_size, plot_buckets, spectrogram_layout, title_traces, trace_color};
use seisbox::shortcuts::{Shortcut, UncertaintyStep};
use seisbox::viewer::{
    spectrogram_needs_confirmation, spectrogram_range, status_text, window_samples, Effect, MarkKind, MarkState,
    Situation, ViewerState,
};

fn over_plot(t: f64) -> Situation<f64> {
    Situation { hover: Some(t), active: Some(0), nearest: None, has_p_start: false, has_picks: false }
}

#[test]
fn two_cut_presses_show_the_window_between_them() {
    let mut v: ViewerState<f64> = ViewerState::new();
    let e1 = v.react(Shortcut::CutPoint, &over_plot(12.5));
    assert!(matches!(e1, Effect::MarkStarted(MarkKind::Cut, t) if t == 12.5));
    assert!(matches!(v.cut, MarkState::WaitingForEnd(t) if t == 12.5));
    let e2 = v.react(Shortcut::CutPoint, &over_plot(3.0));
    assert!(matches!(e2, Effect::ShowWindow(MarkKind::Cut, a, b) if a == 12.5 && b == 3.0));
    assert!(matches!(v.cut, MarkState::Idle));
}

#[test]
fn zoom_window_hides_spectrogram_but_cut_keeps_it() {
    let mut v: ViewerState<f64> = ViewerState::new();
    v.spectrogram_target = Some(0);
    v.react(Shortcut::CutPoint, &over_plot(1.0));
    v.react(Shortcut::CutPoint, &over_plot(2.0));
    assert_eq!(v.spectrogram_target, Some(0));
    v.react(Shortcut::ZoomPoint, &over_plot(1.0));
    assert_eq!(v.spectrogram_target, Some(0));
    let e = v.react(Shortcut::ZoomPoint, &over_plot(2.0));
    assert!(matches!(e, Effect::ShowWindow(MarkKind::Zoom, a, b) if a == 1.0 && b == 2.0));
    assert_eq!(v.spectrogram_target, None);
}

#[test]
fn window_keys_need_the_cursor() {
    let mut v: ViewerState<f64> = ViewerState::new();
    let away = Situation { hover: None, active: Some(0), nearest: None, has_p_start: true, has_picks: true };
    assert!(matches!(v.react(Shortcut::CutPoint, &away), Effect::Nothing));
    assert!(matches!(v.react(Shortcut::Pick(PhaseType::PStart), &away), Effect::Nothing));
    assert!(matches!(v.cut, MarkState::Idle));
}

#[test]
fn undo_zoom_forgets_first_point() {
    let mut v: ViewerState<f64> = ViewerState::new();
    v.react(Shortcut::ZoomPoint, &over_plot(4.0));
    let e = v.react(Shortcut::UndoZoom, &over_plot(4.0));
    assert!(matches!(e, Effect::ResetView(MarkKind::Zoom)));
    assert!(matches!(v.zoom, MarkState::Idle));
}

#[test]
fn pick_keys_act_at_the_cursor() {
    let mut v: ViewerState<f64> = ViewerState::new();
    let e = v.react(Shortcut::Pick(PhaseType::SStart), &over_plot(7.25));
    assert!(matches!(e, Effect::Pick(PhaseType::SStart, t) if t == 7.25));
    let no_trace = Situation { hover: Some(7.25), active: None, nearest: None, has_p_start: false, has_picks: false };
    assert!(matches!(v.react(Shortcut::Pick(PhaseType::SStart), &no_trace), Effect::Nothing));
    assert!(matches!(v.react(Shortcut::Delete(PhaseType::PEnd), &no_trace), Effect::Nothing));
    let e = v.react(Shortcut::Delete(PhaseType::PEnd), &over_plot(0.0));
    assert!(matches!(e, Effect::Delete(PhaseType::PEnd)));
}

#[test]
fn attribute_keys_act_on_the_nearest_pick() {
    let mut v: ViewerState<f64> = ViewerState::new();
    let near = Situation { hover: Some(5.0), active: Some(1), nearest: Some(PhaseType::PStart), has_p_start: true, has_picks: true };
    assert!(matches!(v.react(Shortcut::SetOnset(Onset::Emergent), &near), Effect::SetOnset(PhaseType::PStart, Onset::Emergent)));
    assert!(matches!(v.react(Shortcut::SetPolarity(Polarity::Down), &near), Effect::SetPolarity(PhaseType::PStart, Polarity::Down)));
    assert!(matches!(v.react(Shortcut::IncreaseUncertainty(UncertaintyStep::Fine), &near), Effect::IncreaseUncertainty(PhaseType::PStart, UncertaintyStep::Fine)));
    assert!(matches!(v.react(Shortcut::DeleteNearest, &near), Effect::Delete(PhaseType::PStart)));
    assert!(matches!(v.react(Shortcut::Nudge(true), &near), Effect::Nudge(PhaseType::PStart, true)));
    assert!(matches!(v.react(Shortcut::DeleteNearest, &over_plot(5.0)), Effect::Nothing));
    assert!(matches!(v.react(Shortcut::CaptureAmplitude, &near), Effect::CaptureAmplitude(PhaseType::PStart, t) if t == 5.0));
    assert!(matches!(v.react(Shortcut::SetOnset(Onset::Impulsive), &over_plot(5.0)), Effect::Nothing));
}

#[test]
fn wipe_needs_picks() {
    let mut v: ViewerState<f64> = ViewerState::new();
    assert!(matches!(v.react(Shortcut::WipePicks, &over_plot(0.0)), Effect::Nothing));
    let with = Situation { hover: None, active: Some(0), nearest: None, has_p_start: false, has_picks: true };
    assert!(matches!(v.react(Shortcut::WipePicks, &with), Effect::Wipe));
}

#[test]
fn predictive_filter_needs_p_start_and_toggles() {
    let mut v: ViewerState<f64> = ViewerState::new();
    assert!(matches!(v.react(Shortcut::TogglePredictiveFilter, &over_plot(0.0)), Effect::PredictiveFilterNeedsPick));
    assert!(!v.predictive_filter_on);
    let with_p = Situation { hover: None, active: Some(0), nearest: None, has_p_start: true, has_picks: true };
    assert!(matches!(v.react(Shortcut::TogglePredictiveFilter, &with_p), Effect::ApplyPredictiveFilter));
    assert!(v.predictive_filter_on && v.filter_active);
    assert!(matches!(v.react(Shortcut::TogglePredictiveFilter, &with_p), Effect::RevertPredictiveFilter));
    assert!(!v.predictive_filter_on);
    assert!(matches!(v.react(Shortcut::RemoveFilters, &with_p), Effect::RemoveFilters));
    assert!(!v.filter_active && !v.predictive_filter_on);
}

#[test]
fn spectrogram_key_toggles_for_active_trace() {
    let mut v: ViewerState<f64> = ViewerState::new();
    let sit = Situation { hover: None, active: Some(2), nearest: None, has_p_start: false, has_picks: false };
    assert!(matches!(v.react(Shortcut::ToggleSpectrogram, &sit), Effect::RequestSpectrogram(2)));
    assert_eq!(v.spectrogram_target, Some(2));
    assert!(matches!(v.react(Shortcut::ToggleSpectrogram, &sit), Effect::HideSpectrogram));
    assert_eq!(v.spectrogram_target, None);
    let none = Situation::<f64> { hover: None, active: None, nearest: None, has_p_start: false, has_picks: false };
    assert!(matches!(v.react(Shortcut::ToggleSpectrogram, &none), Effect::Nothing));
}

#[test]
fn dialog_toggles_flip_and_flip_back() {
    let mut v: ViewerState<f64> = ViewerState::new();
    v.react(Shortcut::ToggleBandpassDialog, &over_plot(0.0));
    v.react(Shortcut::ToggleHodogram, &over_plot(0.0));
    assert!(v.show_bandpass && v.show_hodogram);
    v.react(Shortcut::ToggleBandpassDialog, &over_plot(0.0));
    v.react(Shortcut::ToggleHodogram, &over_plot(0.0));
    assert!(!v.show_bandpass && !v.show_hodogram);
    assert!(matches!(v.react(Shortcut::NextTrace, &over_plot(0.0)), Effect::Navigate(true)));
}

#[test]
fn spectrogram_window_counts_samples() {
    assert_eq!(window_samples(10, 19, 100), 10);
    assert_eq!(window_samples(10, 500, 100), 90);
    assert_eq!(window_samples(20, 10, 100), 0);
    assert_eq!(window_samples(0, 0, 0), 1);
    assert!(!spectrogram_needs_confirmation(100_000));
    assert!(spectrogram_needs_confirmation(100_001));
    assert_eq!(spectrogram_range(10, 500, 100), Some((10, 99)));
    assert_eq!(spectrogram_range(99, 500, 100), None);
    assert_eq!(spectrogram_range(3, 3, 100), None);
}

#[test]
fn bbox_drag_draws_from_start_to_end() {
    let mut d: MapDrag<(f64, f64)> = MapDrag::new();
    d.begin(MapInteractionMode::DrawBBox);
    let r = d.step(&DragFrame { started: true, dragged: true, stopped: false, pointer: Some((1.0, 2.0)) });
    assert!(matches!(r, DragResult::Nothing));
    d.step(&DragFrame { started: false, dragged: true, stopped: false, pointer: Some((3.0, 4.0)) });
    let r = d.step(&DragFrame { started: false, dragged: false, stopped: true, pointer: None });
    assert!(matches!(r, DragResult::BoundingBox(a, b) if a == (1.0, 2.0) && b == (3.0, 4.0)));
    assert_eq!(d.mode, MapInteractionMode::Pan);
    assert!(d.start.is_none() && d.end.is_none());
}

#[test]
fn pan_mode_ignores_drags_and_lone_clicks_draw_nothing() {
    let mut d: MapDrag<(f64, f64)> = MapDrag::new();
    let r = d.step(&DragFrame { started: true, dragged: true, stopped: true, pointer: Some((1.0, 1.0)) });
    assert!(matches!(r, DragResult::Nothing));
    assert!(d.start.is_none());
    d.begin(MapInteractionMode::DrawCrossSection);
    d.step(&DragFrame { started: true, dragged: false, stopped: false, pointer: Some((1.0, 1.0)) });
    let r = d.step(&DragFrame { started: false, dragged: false, stopped: true, pointer: None });
    assert!(matches!(r, DragResult::Nothing));
    assert_eq!(d.mode, MapInteractionMode::DrawCrossSection);
    d.step(&DragFrame { started: true, dragged: true, stopped: false, pointer: Some((0.0, 0.0)) });
    let r = d.step(&DragFrame { started: false, dragged: true, stopped: true, pointer: Some((5.0, 6.0)) });
    assert!(matches!(r, DragResult::CrossSection(a, b) if a == (0.0, 0.0) && b == (5.0, 6.0)));
}

#[test]
fn short_traces_are_plotted_whole() {
    assert!(plot_buckets(20_000).is_none());
    assert!(plot_buckets(0).is_none());
}

#[test]
fn long_traces_are_cut_into_equal_buckets() {
    let b = plot_buckets(25_003).unwrap();
    assert_eq!(b.len(), 10_000);
    assert_eq!(b[0], (0, 2));
    assert_eq!(b[1], (2, 4));
    assert_eq!(b[9_998], (19_996, 19_998));
    assert_eq!(b[9_999], (19_998, 25_003));
}

#[test]
fn spectrogram_frames_follow_trace_length() {
    assert_eq!(spectrogram_layout(255), None);
    assert_eq!(spectrogram_layout(256), Some((128, 1)));
    assert_eq!(spectrogram_layout(1000), Some((128, 6)));
    // 2048 frames at the usual hop; one more frame's worth widens the hop
    // just enough to keep within 2048 frames.
    assert_eq!(spectrogram_layout(256 + 128 * 2047), Some((128, 2048)));
    assert_eq!(spectrogram_layout(262_400), Some((129, 2033)));
    assert_eq!(spectrogram_layout(256 + 300_000), Some((147, 2041)));
    assert_eq!(spectrogram_layout(256 + 2048 * 1000), Some((1001, 2046)));
}

#[test]
fn title_names_first_six_visible_traces() {
    let vis = vec![true, false, true, true, true, false, true, true, true, true];
    let t = title_traces(&vis);
    assert_eq!(t.count, 8);
    assert_eq!(t.named, vec![0, 2, 3, 4, 6, 7]);
    assert!(t.more);
    let t = title_traces(&vec![false, true, true]);
    assert_eq!((t.count, t.named.clone(), t.more), (2, vec![1, 2], false));
    let t = title_traces(&vec![true; 6]);
    assert!(!t.more);
    assert_eq!(t.named.len(), 6);
}

#[test]
fn trace_colours_cycle_through_palette() {
    assert_eq!(trace_color(0), (50, 220, 120));
    assert_eq!(trace_color(2), (255, 130, 80));
    assert_eq!(trace_color(5), (100, 255, 220));
    assert_eq!(trace_color(6), trace_color(0));
    assert_eq!(trace_color(13), (80, 160, 255));
}

#[test]
fn map_keys_set_shapes_by_two_points() {
    let mut m: MapMarks<(f64, f64)> = MapMarks::new();
    assert!(matches!(m.press(MapKey::X, false, (10.0, 20.0)), MapKeyResult::Nothing));
    assert!(matches!(m.bbox, MarkState::WaitingForEnd(p) if p == (10.0, 20.0)));
    assert!(matches!(m.press(MapKey::Z, false, (1.0, 1.0)), MapKeyResult::Nothing));
    let r = m.press(MapKey::X, true, (12.0, 25.0));
    assert!(matches!(r, MapKeyResult::BoundingBox(a, b) if a == (10.0, 20.0) && b == (12.0, 25.0)));
    assert!(matches!(m.bbox, MarkState::Idle));
    assert!(matches!(m.zoom, MarkState::WaitingForEnd(_)));
    assert!(matches!(m.press(MapKey::Z, true, (0.0, 0.0)), MapKeyResult::ResetZoom));
    assert!(matches!(m.zoom, MarkState::Idle));
}

#[test]
fn shift_c_clears_cross_section() {
    let mut m: MapMarks<(f64, f64)> = MapMarks::new();
    m.press(MapKey::C, false, (0.0, 0.0));
    assert!(matches!(m.press(MapKey::C, true, (1.0, 1.0)), MapKeyResult::ClearCrossSection));
    assert!(matches!(m.cross, MarkState::Idle));
    m.press(MapKey::C, false, (2.0, 3.0));
    let r = m.press(MapKey::C, false, (4.0, 5.0));
    assert!(matches!(r, MapKeyResult::CrossSection(a, b) if a == (2.0, 3.0) && b == (4.0, 5.0)));
}

#[test]
fn figure_height_follows_plot_count() {
    assert_eq!(figure_size(0, false), (1920, 400));
    assert_eq!(figure_size(1, false), (1920, 400));
    assert_eq!(figure_size(2, false), (1920, 480));
    assert_eq!(figure_size(2, true), (1920, 680));
    assert_eq!(figure_size(19, false), (1920, 3880));
    assert_eq!(figure_size(19, true), (1920, 4000));
    assert_eq!(figure_size(1000, false), (1920, 4000));
}

#[test]
fn escape_gives_up_pending_window_points() {
    let mut v: ViewerState<f64> = ViewerState::new();
    v.react(Shortcut::CutPoint, &over_plot(1.0));
    v.react(Shortcut::ZoomPoint, &over_plot(2.0));
    assert!(matches!(v.react(Shortcut::Cancel, &over_plot(3.0)), Effect::Nothing));
    assert!(matches!(v.cut, MarkState::Idle));
    assert!(matches!(v.zoom, MarkState::Idle));
}

#[test]
fn pick_changes_ask_for_a_save_and_a_message() {
    let mut v: ViewerState<f64> = ViewerState::new();
    let e = v.react(Shortcut::Pick(PhaseType::PStart), &over_plot(2.5));
    assert!(e.saves_picks());
    assert_eq!(status_text(Shortcut::Pick(PhaseType::PStart), &e, &v), None);
    let e = v.react(Shortcut::Delete(PhaseType::SEnd), &over_plot(2.5));
    assert!(e.saves_picks());
    assert_eq!(status_text(Shortcut::Delete(PhaseType::SEnd), &e, &v), Some("Deleted S-end pick".to_string()));
    let near = Situation { hover: Some(1.0), active: Some(0), nearest: Some(PhaseType::PEnd), has_p_start: true, has_picks: true };
    let e = v.react(Shortcut::SetOnset(Onset::Impulsive), &near);
    assert_eq!(status_text(Shortcut::SetOnset(Onset::Impulsive), &e, &v), Some("Set P-end to Impulsive".to_string()));
    let e = v.react(Shortcut::ZoomPoint, &over_plot(1.0));
    assert!(!e.saves_picks());
    let e = v.react(Shortcut::ToggleBandpassDialog, &over_plot(1.0));
    assert!(!e.saves_picks());
    assert_eq!(status_text(Shortcut::ToggleBandpassDialog, &e, &v), Some("Bandpass filter dialog opened".to_string()));
    let e = v.react(Shortcut::UndoCut, &over_plot(1.0));
    assert_eq!(status_text(Shortcut::UndoCut, &e, &v), Some("Cut reset — full trace view".to_string()));
}
