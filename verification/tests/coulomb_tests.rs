use seisbox::coulomb::{batch_columns, classify_inp_line, classify_inp_lines, uses_rake, InpSection};
use seisbox::outlines::{gmt_line, gmt_segments, GmtLine, GmtMark};

fn strings(v: &[&str]) -> Vec<String> {
    v.iter().map(|s| s.to_string()).collect()
}

const SAMPLE: &[&str] = &[
    "header line 1",
    "#reg1=  0  #reg2=  0  #fixed=  1  sym=  1",
    " PR1=       .250     PR2=       .250   DEPTH=        7.5",
    "  E1=     0.800000E+06   E2=     0.800000E+06",
    "FRIC=          .400",
    "  100.0  50.0  0.0  sigma1-sigma3",
    "  #   X-start    Y-start     X-fin      Y-fin   Kode  rt.lat    reverse   dip angle     top      bot",
    "xxx xxxxxxxxxx xxxxxxxxxx xxxxxxxxxx xxx",
    "  1  -20.0000   0.00000   20.0000   0.00000 100   -1.0000    0.00000   90.0000    0.00000   15.0000    Fault 1",
    "  2  short row",
    "",
    "     Grid Parameters",
    "  1  ----------------------------  Start-x =    -50.0000000",
    "  5  ------------------------   x-increment =      5.0000000",
    "  7  no value here =",
    "     Size Parameters",
    "  1  --------------------------  Plot size =     2.0000000",
    "     Cross section default",
    "  3  --------------------------   Finish-x =     30.0",
    "     Map info",
    "  1  ---------------------------- min. lon =    140.0",
    "  6  ---------------------------- zero lat =    35.5",
];

#[test]
fn inp_header_values() {
    let r = classify_inp_lines(&strings(SAMPLE));
    assert_eq!(r.len(), SAMPLE.len());
    assert_eq!(r[2].poisson.as_deref(), Some(".250"));
    assert_eq!(r[2].depth.as_deref(), Some("7.5"));
    assert_eq!(r[3].young.as_deref(), Some("0.800000E+06"));
    assert_eq!(r[4].friction.as_deref(), Some(".400"));
    assert_eq!(r[5].stress, Some(strings(&["100.0", "50.0", "0.0", "SIGMA1-SIGMA3"])));
    assert!(r[0].poisson.is_none() && r[0].setting.is_none());
    assert!(r[1].setting.is_none());
}

#[test]
fn inp_fault_table() {
    let r = classify_inp_lines(&strings(SAMPLE));
    assert!(!r[6].in_faults);
    assert!(r[7].in_faults);
    let row = r[8].fault_row.clone().unwrap();
    assert_eq!(row.len(), 13);
    assert_eq!(row[1], "-20.0000");
    assert_eq!(row[5], "100");
    assert!(r[9].fault_row.is_none());
    assert!(r[10].fault_row.is_none());
}

#[test]
fn inp_sections_and_settings() {
    let r = classify_inp_lines(&strings(SAMPLE));
    assert_eq!(r[11].section, InpSection::Grid);
    assert_eq!(r[12].setting, Some((0, "-50.0000000".to_string())));
    assert_eq!(r[13].setting, Some((4, "5.0000000".to_string())));
    assert_eq!(r[14].setting, None);
    assert_eq!(r[15].section, InpSection::SizeParams);
    assert_eq!(r[16].setting, None);
    assert_eq!(r[17].section, InpSection::CrossSection);
    assert_eq!(r[18].setting, Some((2, "30.0".to_string())));
    assert_eq!(r[19].section, InpSection::MapInfo);
    assert_eq!(r[20].setting, Some((0, "140.0".to_string())));
    assert_eq!(r[21].setting, Some((5, "35.5".to_string())));
}

#[test]
fn single_inp_lines() {
    let l = classify_inp_line("xxx", InpSection::Header, true);
    assert!(!l.in_faults);
    let l = classify_inp_line("a = b", InpSection::Grid, false);
    assert_eq!(l.setting, None);
    let l = classify_inp_line(" start-y = ", InpSection::Grid, false);
    assert_eq!(l.setting, Some((1, String::new())));
    let l = classify_inp_line("PR1= ", InpSection::Header, false);
    assert_eq!(l.poisson, None);
}

#[test]
fn rake_convention() {
    assert!(uses_rake(&strings(&["  #  X-start  rake  netslip", "1 2 3"])));
    assert!(!uses_rake(&strings(&["rt.lat reverse", "RA", "KE"])));
    assert!(!uses_rake(&strings(&[])));
}

#[test]
fn receiver_table_columns() {
    let c = batch_columns(&strings(&["Lon", "Lat", "Z_km", "Strike", "Dip", "Rake"]));
    assert_eq!((c.lon, c.lat, c.z, c.strike, c.dip, c.rake), (Some(0), Some(1), Some(2), Some(3), Some(4), Some(5)));
    assert_eq!((c.x, c.y), (None, None));
    let c = batch_columns(&strings(&["x", "y", "z", "strike", "dip", "rake", "x2"]));
    assert_eq!((c.x, c.y, c.z), (Some(6), Some(1), Some(2)));
    assert_eq!(c.lon, None);
    let c = batch_columns(&strings(&["longitude", "xlat", "name"]));
    assert_eq!((c.lon, c.lat, c.x), (Some(0), Some(1), None));
}

#[test]
fn gmt_outline_segments() {
    assert!(matches!(gmt_line("  > segment 1"), GmtLine::Break));
    assert!(matches!(gmt_line("# comment"), GmtLine::Break));
    assert!(matches!(gmt_line("   "), GmtLine::Skip));
    assert!(matches!(gmt_line("139.5"), GmtLine::Skip));
    match gmt_line("  139.5   35.25  extra ") {
        GmtLine::Point(a, b) => assert_eq!((a.as_str(), b.as_str()), ("139.5", "35.25")),
        other => panic!("unexpected {:?}", other),
    }
    let (b, p, s) = (GmtMark::Break, GmtMark::Point, GmtMark::Skip);
    let marks = vec![b, p, p, s, b, b, p, b, s, p];
    assert_eq!(gmt_segments(&marks), vec![vec![1, 2], vec![6], vec![9]]);
    assert!(gmt_segments(&vec![b, s, b]).is_empty());
}
