use seisbox::hvsr::{count_windows, find_component, hvsr_components, records_component, Component, HorizontalCombineMethod, SesameResult, WindowError};
use seisbox::navigation::{initial_visibility, navigate_traces, NavigationMode};
use seisbox::picking::{Onset, PhaseType};
use seisbox::shortcuts::{shortcut_enabled, shortcut_for, Shortcut, ShortcutKey, UncertaintyStep};

fn st(v: &[&str]) -> Vec<String> {
    v.iter().map(|s| s.to_string()).collect()
}

#[test]
fn single_navigation_steps_one_trace() {
    let stations = st(&["A", "A", "B", "C"]);
    let mut vis = vec![true, false, false, false];
    navigate_traces(&mut vis, &stations, NavigationMode::Single, true);
    assert_eq!(vis, vec![false, true, false, false]);
    navigate_traces(&mut vis, &stations, NavigationMode::Single, false);
    assert_eq!(vis, vec![true, false, false, false]);
    navigate_traces(&mut vis, &stations, NavigationMode::Single, false);
    assert_eq!(vis, vec![true, false, false, false]);
    let mut vis = vec![false, false, false, true];
    navigate_traces(&mut vis, &stations, NavigationMode::Single, true);
    assert_eq!(vis, vec![false, false, false, true]);
}

#[test]
fn station_navigation_shows_whole_groups() {
    let stations = st(&["A", "A", "B", "B", "C"]);
    let mut vis = vec![true, true, false, false, false];
    navigate_traces(&mut vis, &stations, NavigationMode::Station, true);
    assert_eq!(vis, vec![false, false, true, true, false]);
    navigate_traces(&mut vis, &stations, NavigationMode::Station, true);
    assert_eq!(vis, vec![false, false, false, false, true]);
    navigate_traces(&mut vis, &stations, NavigationMode::Station, true);
    assert_eq!(vis, vec![false, false, false, false, true]);
    navigate_traces(&mut vis, &stations, NavigationMode::Station, false);
    assert_eq!(vis, vec![false, false, true, true, false]);
}

#[test]
fn navigation_without_visible_traces() {
    let stations = st(&["A", "B", "C"]);
    let mut vis = vec![false, false, false];
    navigate_traces(&mut vis, &stations, NavigationMode::Single, false);
    assert_eq!(vis, vec![false, false, true]);
    let mut vis = vec![false, false, false];
    navigate_traces(&mut vis, &stations, NavigationMode::Station, true);
    assert_eq!(vis, vec![true, false, false]);
    let mut empty: Vec<bool> = vec![];
    navigate_traces(&mut empty, &vec![], NavigationMode::Single, true);
    assert!(empty.is_empty());
}

#[test]
fn shortcut_keys() {
    assert_eq!(shortcut_for(ShortcutKey::P, false), Some(Shortcut::Pick(PhaseType::PStart)));
    assert_eq!(shortcut_for(ShortcutKey::A, true), Some(Shortcut::Delete(PhaseType::SEnd)));
    assert_eq!(shortcut_for(ShortcutKey::E, false), Some(Shortcut::SetOnset(Onset::Emergent)));
    assert_eq!(shortcut_for(ShortcutKey::E, true), None);
    assert_eq!(shortcut_for(ShortcutKey::B, true), Some(Shortcut::RemoveFilters));
    assert_eq!(shortcut_for(ShortcutKey::F, true), Some(Shortcut::RemoveFilters));
    assert_eq!(shortcut_for(ShortcutKey::Period, true), Some(Shortcut::NextTrace));
    assert_eq!(shortcut_for(ShortcutKey::Period, false), None);
    assert!(!shortcut_enabled(Shortcut::Pick(PhaseType::PStart), false, true, false));
    assert!(shortcut_enabled(Shortcut::Delete(PhaseType::PStart), false, true, false));
    assert!(!shortcut_enabled(Shortcut::IncreaseUncertainty(UncertaintyStep::Coarse), true, true, false));
    assert!(!shortcut_enabled(Shortcut::DeleteNearest, true, true, false));
    assert!(shortcut_enabled(Shortcut::UndoZoom, false, false, false));
}

#[test]
fn sesame_verdicts() {
    let r = SesameResult::from_criteria([true, true, true], [true, true, true, true, true, false]);
    assert!(r.is_reliable);
    assert!(r.is_clear_peak);
    assert!(!r.clear_peak_c6);
    let r = SesameResult::from_criteria([true, false, true], [true, true, true, true, false, false]);
    assert!(!r.is_reliable);
    assert!(!r.is_clear_peak);
    assert_eq!(HorizontalCombineMethod::default(), HorizontalCombineMethod::Geometric);
}

#[test]
fn single_steps_undo_each_other() {
    let stations = st(&["A", "B", "C", "D"]);
    let start = vec![false, true, false, false];
    let mut vis = start.clone();
    navigate_traces(&mut vis, &stations, NavigationMode::Single, true);
    navigate_traces(&mut vis, &stations, NavigationMode::Single, false);
    assert_eq!(vis, start);
    navigate_traces(&mut vis, &stations, NavigationMode::Single, false);
    navigate_traces(&mut vis, &stations, NavigationMode::Single, true);
    assert_eq!(vis, start);
    for mode in [NavigationMode::Single, NavigationMode::Station] {
        for forward in [true, false] {
            let mut v = vec![true, true, false, true];
            navigate_traces(&mut v, &stations, mode, forward);
            assert!(v.iter().any(|b| *b));
        }
    }
}

#[test]
fn first_three_traces_are_shown() {
    assert_eq!(initial_visibility(5), vec![true, true, true, false, false]);
    assert_eq!(initial_visibility(2), vec![true, true]);
    assert!(initial_visibility(0).is_empty());
}

fn names(v: &[(&str, &str)]) -> Vec<(String, String)> {
    v.iter().map(|(c, f)| (c.to_string(), f.to_string())).collect()
}

#[test]
fn components_are_recognised_by_channel_or_file_name() {
    assert!(records_component("BHZ", "x.sac", Component::Vertical));
    assert!(records_component("", "STA.HHZ.D.sac", Component::Vertical));
    assert!(records_component("HH1", "a", Component::North));
    assert!(records_component("HH2", "a", Component::East));
    assert!(records_component("", "trace_E", Component::East));
    assert!(!records_component("HHZ", "a.sac", Component::North));
    assert!(!records_component("", "", Component::Vertical));
}

#[test]
fn hvsr_takes_first_trace_of_each_component() {
    let t = names(&[("HHN", "a.sac"), ("HHZ", "b.sac"), ("HHE", "c.sac"), ("BHZ", "d.sac")]);
    assert_eq!(hvsr_components(&t), Some((1, 0, 2)));
    assert_eq!(find_component(&t, Component::Vertical), Some(1));
    let t = names(&[("HHZ", "a.sac"), ("HHN", "b.sac")]);
    assert_eq!(hvsr_components(&t), None);
}

#[test]
fn windows_fit_in_recording() {
    assert_eq!(count_windows(0, 10, 5), Err(WindowError::EmptyData));
    assert_eq!(count_windows(100, 101, 5), Err(WindowError::InvalidWindow));
    assert_eq!(count_windows(100, 40, 0), Err(WindowError::InvalidWindow));
    assert_eq!(count_windows(100, 40, 20), Ok(4));
    assert_eq!(count_windows(100, 100, 50), Ok(1));
    assert_eq!(count_windows(4000, 2000, 1000), Ok(3));
}

#[test]
fn help_dialog_keys_follow_the_table() {
    assert_eq!(shortcut_for(ShortcutKey::P, true), Some(Shortcut::Pick(PhaseType::PEnd)));
    assert_eq!(shortcut_for(ShortcutKey::S, true), Some(Shortcut::Pick(PhaseType::SEnd)));
    assert_eq!(shortcut_for(ShortcutKey::S, false), Some(Shortcut::Pick(PhaseType::SStart)));
    assert_eq!(shortcut_for(ShortcutKey::Backspace, false), Some(Shortcut::DeleteNearest));
    assert_eq!(shortcut_for(ShortcutKey::Delete, true), Some(Shortcut::DeleteNearest));
    assert_eq!(shortcut_for(ShortcutKey::ArrowLeft, false), Some(Shortcut::Nudge(false)));
    assert_eq!(shortcut_for(ShortcutKey::ArrowRight, false), Some(Shortcut::Nudge(true)));
    assert_eq!(shortcut_for(ShortcutKey::ArrowUp, false), Some(Shortcut::IncreaseUncertainty(UncertaintyStep::Fine)));
    assert_eq!(shortcut_for(ShortcutKey::ArrowDown, false), Some(Shortcut::DecreaseUncertainty(UncertaintyStep::Fine)));
    assert_eq!(shortcut_for(ShortcutKey::OpenBracket, false), Some(Shortcut::DecreaseUncertainty(UncertaintyStep::Coarse)));
    assert_eq!(shortcut_for(ShortcutKey::Escape, false), Some(Shortcut::Cancel));
}
