use seisbox::picking::{Onset, PhaseType, Pick, PickSet, Polarity};
use seisbox::pick_file::{onset_field, parse_pick_line, pick_line_text, polarity_field};

#[test]
fn phase_labels_and_tags() {
    assert_eq!(PhaseType::PStart.label(), "P");
    assert_eq!(PhaseType::SStart.label(), "S");
    assert_eq!(PhaseType::PEnd.label(), "P-end");
    assert_eq!(PhaseType::SEnd.label(), "S-end");
    assert_eq!(PhaseType::PStart.tag(), "P_START");
    assert_eq!(PhaseType::SEnd.tag(), "S_END");
    assert_eq!(PhaseType::PEnd.color_rgb(), (255, 180, 50));
}

#[test]
fn tag_roundtrip_for_every_phase() {
    for p in PhaseType::all() {
        assert_eq!(PhaseType::from_tag(p.tag()), Some(*p));
    }
    assert_eq!(PhaseType::from_tag("p_start"), None);
    assert_eq!(PhaseType::from_tag("P_START "), None);
    assert_eq!(PhaseType::from_tag(""), None);
}

#[test]
fn all_phases_in_picking_order() {
    assert_eq!(
        PhaseType::all(),
        &[PhaseType::PStart, PhaseType::SStart, PhaseType::PEnd, PhaseType::SEnd]
    );
}

#[test]
fn onset_and_polarity_letters() {
    assert_eq!(Onset::from_str("i"), Some(Onset::Impulsive));
    assert_eq!(Onset::from_str("I"), Some(Onset::Impulsive));
    assert_eq!(Onset::from_str("E"), Some(Onset::Emergent));
    assert_eq!(Onset::from_str("x"), None);
    assert_eq!(Onset::Emergent.as_str(), "e");
    assert_eq!(Polarity::from_str("+"), Some(Polarity::Up));
    assert_eq!(Polarity::from_str("-"), Some(Polarity::Down));
    assert_eq!(Polarity::from_str("d"), Some(Polarity::Down));
    assert_eq!(Polarity::from_str("up"), None);
    assert_eq!(Polarity::Up.as_str(), "U");
    for o in [Onset::Impulsive, Onset::Emergent] {
        assert_eq!(Onset::from_str(o.as_str()), Some(o));
    }
    for p in [Polarity::Up, Polarity::Down] {
        assert_eq!(Polarity::from_str(p.as_str()), Some(p));
    }
}

#[test]
fn add_or_update_keeps_one_pick_per_phase() {
    let mut ps: PickSet<f64> = PickSet::new();
    assert!(ps.is_empty());
    assert!(ps.add_or_update(PhaseType::PStart, 1.5));
    assert!(ps.add_or_update(PhaseType::SStart, 2.5));
    assert!(!ps.add_or_update(PhaseType::PStart, 1.75));
    assert_eq!(ps.len(), 2);
    assert_eq!(ps.get(PhaseType::PStart), Some(1.75));
    assert_eq!(ps.get(PhaseType::SStart), Some(2.5));
    assert_eq!(ps.get(PhaseType::PEnd), None);
    // placing the same pick again changes nothing
    assert!(!ps.add_or_update(PhaseType::PStart, 1.75));
    assert_eq!(ps.len(), 2);
}

#[test]
fn delete_and_wipe() {
    let mut ps: PickSet<f64> = PickSet::new();
    ps.add_or_update(PhaseType::PStart, 1.0);
    ps.add_or_update(PhaseType::SEnd, 4.0);
    assert!(ps.delete(PhaseType::PStart));
    assert!(!ps.delete(PhaseType::PStart));
    assert_eq!(ps.get(PhaseType::PStart), None);
    assert_eq!(ps.get(PhaseType::SEnd), Some(4.0));
    ps.wipe();
    assert!(ps.is_empty());
}

#[test]
fn metadata_setters_touch_only_their_phase() {
    let mut ps: PickSet<f64> = PickSet::new();
    ps.add_or_update(PhaseType::PStart, 1.0);
    ps.add_or_update(PhaseType::SStart, 2.0);
    assert!(ps.set_onset(PhaseType::SStart, Onset::Emergent));
    assert!(ps.set_polarity(PhaseType::SStart, Polarity::Down));
    assert!(ps.set_uncertainty(PhaseType::SStart, Some(0.02)));
    assert!(ps.set_amplitudes(PhaseType::SStart, 3.0, 2.5));
    assert!(!ps.set_onset(PhaseType::PEnd, Onset::Impulsive));
    let s = &ps.picks[1];
    assert_eq!(s.phase, PhaseType::SStart);
    assert_eq!(s.onset, Some(Onset::Emergent));
    assert_eq!(s.polarity, Some(Polarity::Down));
    assert_eq!(s.uncertainty, Some(0.02));
    assert_eq!(s.amplitude, Some(3.0));
    assert_eq!(s.amplitude_demeaned, Some(2.5));
    let p = &ps.picks[0];
    assert_eq!(p.onset, None);
    assert_eq!(p.uncertainty, None);
    assert!(ps.set_uncertainty(PhaseType::SStart, None));
    assert_eq!(ps.picks[1].uncertainty, None);
}

#[test]
fn load_pick_replaces_and_appends() {
    let mut ps: PickSet<f64> = PickSet::new();
    ps.add_or_update(PhaseType::PStart, 1.0);
    ps.add_or_update(PhaseType::SStart, 2.0);
    let mut p = Pick::new(PhaseType::PStart, 9.0);
    p.onset = Some(Onset::Impulsive);
    ps.load_pick(p);
    assert_eq!(ps.len(), 2);
    assert_eq!(ps.picks[0].phase, PhaseType::SStart);
    assert_eq!(ps.picks[1].phase, PhaseType::PStart);
    assert_eq!(ps.get(PhaseType::PStart), Some(9.0));
}

#[test]
fn canonical_order_follows_phase_order() {
    let mut ps: PickSet<f64> = PickSet::new();
    ps.add_or_update(PhaseType::SEnd, 4.0);
    ps.add_or_update(PhaseType::PStart, 1.0);
    ps.add_or_update(PhaseType::PEnd, 3.0);
    assert_eq!(ps.canonical_order(), vec![1, 2, 0]);
}

#[test]
fn parse_full_pick_line() {
    let pl = parse_pick_line("  P_START 0.075 i U 0.0100 12.5000 -3.2500 ").unwrap();
    assert_eq!(pl.phase, PhaseType::PStart);
    assert_eq!(pl.time, "0.075");
    assert_eq!(pl.onset, Some(Onset::Impulsive));
    assert_eq!(pl.polarity, Some(Polarity::Up));
    assert_eq!(pl.uncertainty.as_deref(), Some("0.0100"));
    assert_eq!(pl.amplitude.as_deref(), Some("12.5000"));
    assert_eq!(pl.amplitude_demeaned.as_deref(), Some("-3.2500"));
}

#[test]
fn parse_short_and_placeholder_lines() {
    let pl = parse_pick_line("S_END\t0.200").unwrap();
    assert_eq!(pl.phase, PhaseType::SEnd);
    assert_eq!(pl.time, "0.200");
    assert_eq!(pl.onset, None);
    assert_eq!(pl.uncertainty, None);
    let pl = parse_pick_line("P_END 0.15 - - - 7 -").unwrap();
    assert_eq!(pl.onset, None);
    assert_eq!(pl.polarity, None);
    assert_eq!(pl.uncertainty, None);
    assert_eq!(pl.amplitude.as_deref(), Some("7"));
    assert_eq!(pl.amplitude_demeaned, None);
    let pl = parse_pick_line("S_START 0.1 x ?").unwrap();
    assert_eq!(pl.onset, None);
    assert_eq!(pl.polarity, None);
}

#[test]
fn comment_blank_and_unknown_lines_are_skipped() {
    assert!(parse_pick_line("# QuakePick phase picks").is_none());
    assert!(parse_pick_line("   ").is_none());
    assert!(parse_pick_line("").is_none());
    assert!(parse_pick_line("P_START").is_none());
    assert!(parse_pick_line("X_START 1.0").is_none());
    assert!(parse_pick_line("#P_START 1.0").is_none());
}

#[test]
fn field_placeholders() {
    assert_eq!(onset_field(None), "-");
    assert_eq!(onset_field(Some(Onset::Impulsive)), "i");
    assert_eq!(polarity_field(Some(Polarity::Down)), "D");
    assert_eq!(polarity_field(None), "-");
}

#[test]
fn at_most_four_picks() {
    let mut ps: PickSet<f64> = PickSet::new();
    for round in 0..3 {
        for p in PhaseType::all() {
            ps.add_or_update(*p, round as f64);
        }
    }
    assert_eq!(ps.len(), 4);
    assert_eq!(ps.get(PhaseType::SEnd), Some(2.0));
}

#[test]
fn written_pick_lines_read_back() {
    let line = pick_line_text(PhaseType::SStart, "12.500000", Some(Onset::Emergent), None, &Some("0.0500".to_string()), &None, &Some("-3.2000".to_string()));
    assert_eq!(line, "S_START 12.500000 e - 0.0500 - -3.2000");
    let pl = parse_pick_line(&line).unwrap();
    assert_eq!(pl.phase, PhaseType::SStart);
    assert_eq!(pl.time, "12.500000");
    assert_eq!(pl.onset, Some(Onset::Emergent));
    assert_eq!(pl.polarity, None);
    assert_eq!(pl.uncertainty.as_deref(), Some("0.0500"));
    assert_eq!(pl.amplitude, None);
    assert_eq!(pl.amplitude_demeaned.as_deref(), Some("-3.2000"));
    let line = pick_line_text(PhaseType::PEnd, "1", None, Some(Polarity::Down), &None, &None, &None);
    assert_eq!(line, "P_END 1 - D - - -");
    let pl = parse_pick_line(&line).unwrap();
    assert_eq!(pl.polarity, Some(Polarity::Down));
}
