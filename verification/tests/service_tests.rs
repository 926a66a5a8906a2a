use seisbox::calendar::{date_text, iso_timestamp, time_window, CalendarDate, ClockTime, Moment};
use seisbox::catalog::{isc_query_url, IscSearchParams};
use seisbox::events::{event_fields, magnitude_readings, select_magnitude};
use seisbox::fdsn::{
    all_selected, dataselect_url, default_providers, download_outcome, response_url,
    selected_providers, set_all_selected, station_rows, station_search_url, DownloadOutcome,
};
use seisbox::raster::{crop_region, crop_screenshot, Canvas};
use seisbox::seismic::group_by_channel;

fn moment(y: i32, mo: u32, d: u32, h: u32, mi: u32, s: u32) -> Moment {
    Moment {
        date: CalendarDate { year: y, month: mo, day: d },
        time: ClockTime { hour: h, minute: mi, second: s },
    }
}

fn strings(v: &[&str]) -> Vec<String> {
    v.iter().map(|s| s.to_string()).collect()
}

#[test]
fn event_rows_are_recognised() {
    let line = " 600000123 , ke , ISC , 2020-01-02 , 03:04:05.67 , 35.1 , 139.2 , 10.0 , , ISC , mb , 4.5 , JMA , MJ , 4.8 ";
    let f = event_fields(line).unwrap();
    assert_eq!(f.len(), 15);
    assert_eq!(f[0], "600000123");
    assert_eq!(f[3], "2020-01-02");
    assert_eq!(f[8], "");
    assert_eq!(f[14], "4.8");
    assert!(event_fields("EVENTID,TYPE,AUTHOR,DATE,TIME,LAT,LON,DEPTH,DEPFIX,AUTHOR,TYPE,MAG").is_none());
    assert!(event_fields("   ").is_none());
    assert!(event_fields("12a,1,2,3,4,5,6,7,8,9,10,11").is_none());
    assert!(event_fields("12,1,2,3,4,5,6,7,8,9,10").is_none());
    assert_eq!(event_fields(",1,2,3,4,5,6,7,8,9,10,11").unwrap().len(), 12);
}

#[test]
fn magnitude_triplets() {
    let f = strings(&["1", "", "", "", "", "", "", "", "", "ISC", "mb", "4.5", "JMA", "MJ", "4.8", "X"]);
    let r = magnitude_readings(&f);
    assert_eq!(r.len(), 2);
    assert_eq!((r[0].author.as_str(), r[0].mag_type.as_str(), r[0].value.as_str()), ("ISC", "mb", "4.5"));
    assert_eq!((r[1].author.as_str(), r[1].mag_type.as_str(), r[1].value.as_str()), ("JMA", "MJ", "4.8"));
    assert_eq!(magnitude_readings(&strings(&["1", "2"])).len(), 0);
    let f = strings(&["0"; 11]);
    assert_eq!(magnitude_readings(&f).len(), 0);
}

#[test]
fn preferred_magnitude_type() {
    let types = strings(&["mb", "Mw", "MS"]);
    assert_eq!(select_magnitude(&types, &strings(&["MW", "MB"])), Some(1));
    assert_eq!(select_magnitude(&types, &strings(&["ML", "ms"])), Some(2));
    assert_eq!(select_magnitude(&types, &strings(&["ML"])), Some(0));
    assert_eq!(select_magnitude(&types, &strings(&[])), Some(0));
    assert_eq!(select_magnitude(&strings(&[]), &strings(&["MW"])), None);
    assert_eq!(select_magnitude(&strings(&["mww", "mw"]), &strings(&["mw"])), Some(0));
}

#[test]
fn records_grouped_by_channel() {
    let keys = strings(&["IU.B.00.BHZ", "IU.A.00.BHZ", "IU.B.00.BHZ", "IU.A.00.BHN", "IU.A.00.BHZ"]);
    let g = group_by_channel(&keys);
    assert_eq!(g, vec![vec![3], vec![1, 4], vec![0, 2]]);
    assert!(group_by_channel(&vec![]).is_empty());
    assert_eq!(group_by_channel(&strings(&["X", "X"])), vec![vec![0, 1]]);
}

#[test]
fn screenshot_crop() {
    assert_eq!(crop_region(10, 8, 2, 3, 100, 2), Some((2, 3, 8, 2)));
    assert_eq!(crop_region(10, 8, 10, 0, 5, 5), None);
    assert_eq!(crop_region(10, 8, 0, 0, 0, 5), None);
    let data: Vec<u8> = (0u8..48).collect();
    let img = Canvas::from_raw(4, 3, data).unwrap();
    let c = crop_screenshot(img, 1, 1, 10, 1);
    assert_eq!(c.dimensions(), (3, 1));
    assert_eq!(c.get_pixel(0, 0), (20, 21, 22, 23));
    assert_eq!(c.get_pixel(2, 0), (28, 29, 30, 31));
    let img = Canvas::from_pixel(4, 3, (1, 1, 1, 1));
    let c = crop_screenshot(img, 5, 0, 2, 2);
    assert_eq!(c.dimensions(), (4, 3));
}

#[test]
fn station_listing_rows() {
    let text = "#Network|Station|Latitude|Longitude|Elevation|SiteName|StartTime|EndTime\n\
                IU|ANMO|34.9459|-106.4572|1850.0|Albuquerque, New Mexico, USA|1989-08-29T00:00:00|\n\
                \n\
                IU|SHORT|1|2\n\
                GE|WLF|49.66|6.15|295.0|Walferdange";
    let rows = station_rows(text);
    assert_eq!(rows.len(), 2);
    assert_eq!(rows[0].len(), 8);
    assert_eq!(rows[0][0], "IU");
    assert_eq!(rows[0][5], "Albuquerque, New Mexico, USA");
    assert_eq!(rows[0][7], "");
    assert_eq!(rows[1], strings(&["GE", "WLF", "49.66", "6.15", "295.0", "Walferdange"]));
    assert!(station_rows("IU|ANMO|1|2|3|4").is_empty());
    assert!(station_rows("").is_empty());
}

#[test]
fn download_status_decisions() {
    assert_eq!(download_outcome(200), DownloadOutcome::Save);
    assert_eq!(download_outcome(204), DownloadOutcome::Skip);
    assert_eq!(download_outcome(404), DownloadOutcome::Skip);
    assert_eq!(download_outcome(500), DownloadOutcome::Failed);
    assert_eq!(download_outcome(301), DownloadOutcome::Failed);
}

#[test]
fn timestamps() {
    assert_eq!(iso_timestamp(moment(2021, 3, 4, 5, 6, 7)), "2021-03-04T05:06:07");
    assert_eq!(iso_timestamp(moment(987, 12, 31, 23, 59, 59)), "0987-12-31T23:59:59");
    assert_eq!(date_text(CalendarDate { year: 2020, month: 2, day: 29 }), "2020-02-29");
    assert_eq!(date_text(CalendarDate { year: -44, month: 3, day: 15 }), "-0044-03-15");
    assert_eq!(date_text(CalendarDate { year: 12345, month: 1, day: 1 }), "+12345-01-01");
}

#[test]
fn fdsn_queries() {
    let t0 = moment(2020, 1, 1, 0, 0, 0);
    let t1 = moment(2020, 1, 2, 12, 30, 0);
    assert_eq!(
        dataselect_url("https://service.iris.edu", "IU", "ANMO", "BH?", t0, t1),
        "https://service.iris.edu/fdsnws/dataselect/1/query?net=IU&sta=ANMO&cha=BH?&loc=*&starttime=2020-01-01T00:00:00&endtime=2020-01-02T12:30:00"
    );
    assert_eq!(
        response_url("http://x", "GE", "WLF", "HH*", t0, t1),
        "http://x/fdsnws/station/1/query?net=GE&sta=WLF&cha=HH*&loc=*&starttime=2020-01-01T00:00:00&endtime=2020-01-02T12:30:00&level=response&format=xml"
    );
    assert_eq!(
        station_search_url("http://x", "35.5", "-120", "0", "1.5", t0, t1, "BH?"),
        "http://x/fdsnws/station/1/query?latitude=35.5&longitude=-120&minradius=0&maxradius=1.5&starttime=2020-01-01T00:00:00&endtime=2020-01-02T12:30:00&channel=BH?&level=station&format=text"
    );
}

#[test]
fn isc_query() {
    let p = IscSearchParams {
        bot_lat: "30".to_string(),
        top_lat: "40.5".to_string(),
        left_lon: "130".to_string(),
        right_lon: "145".to_string(),
        start_date: CalendarDate { year: 2020, month: 1, day: 1 },
        start_time: ClockTime { hour: 0, minute: 0, second: 0 },
        end_date: CalendarDate { year: 2020, month: 12, day: 31 },
        end_time: ClockTime { hour: 23, minute: 59, second: 59 },
        min_depth: "0".to_string(),
        max_depth: "700".to_string(),
        min_mag: "4".to_string(),
        max_mag: "10".to_string(),
        mag_priority: vec![],
    };
    assert_eq!(
        isc_query_url(&p),
        "http://www.isc.ac.uk/cgi-bin/web-db-run?out_format=CATCSV&request=COMPREHENSIVE&searchshape=RECT&bot_lat=30&top_lat=40.5&left_lon=130&right_lon=145&start_year=2020&start_month=01&start_day=01&start_time=00:00:00&end_year=2020&end_month=12&end_day=31&end_time=23:59:59&min_dep=0&max_dep=700&min_mag=4&max_mag=10"
    );
}

#[test]
fn request_time_window() {
    let (a, b) = time_window(moment(2024, 1, 1, 0, 0, 0), -60, 600).unwrap();
    assert_eq!(a, moment(2023, 12, 31, 23, 59, 0));
    assert_eq!(b, moment(2024, 1, 1, 0, 10, 0));
    let (a, b) = time_window(moment(2020, 2, 28, 23, 0, 0), 3600, 90000).unwrap();
    assert_eq!(a, moment(2020, 2, 29, 0, 0, 0));
    assert_eq!(b, moment(2020, 3, 1, 0, 0, 0));
    assert!(time_window(moment(2020, 1, 1, 0, 0, 0), 0, i64::MAX).is_none());
    assert!(time_window(moment(262142, 12, 31, 23, 59, 59), 1, 0).is_none());
}

#[test]
fn provider_choice() {
    let mut ps = default_providers();
    assert_eq!(ps.len(), 25);
    assert_eq!(ps[0].name, "AUSPASS");
    assert_eq!(ps[10].url, "http://service.iris.edu");
    assert_eq!(selected_providers(&ps), vec![10]);
    assert!(!all_selected(&ps));
    set_all_selected(&mut ps, true);
    assert!(all_selected(&ps));
    assert_eq!(selected_providers(&ps).len(), 25);
    assert_eq!(ps[24].name, "USP");
    set_all_selected(&mut ps, false);
    assert!(selected_providers(&ps).is_empty());
}
