use seisbox::calendar::{
    is_on_or_before, next_chunk, parse_calendar_date, parse_clock_time, parse_origin, plan_chunks, CalendarDate, ClockTime,
    Moment, PeriodError,
};
use seisbox::catalog::{
    append_catalog_text, classify_isc_reply, download_file_name, extract_isc_csv, safe_channel,
    IscReply,
};
use seisbox::seismic::{channel_key, seismic_format, trace_file_name, SeismicFormat};
use seisbox::events::parse_mag_priority;

fn date(year: i32, month: u32, day: u32) -> CalendarDate {
    CalendarDate { year, month, day }
}

#[test]
fn csv_table_is_cut_out_of_html() {
    let body = "<html><body>\n<pre>\n  EVENTID,TYPE,AUTHOR  \n 123,ke,ISC \n\n 456,ke,ISC\nSTOP\n789,x,y\n</pre>";
    assert_eq!(extract_isc_csv(body), "EVENTID,TYPE,AUTHOR\n123,ke,ISC\n456,ke,ISC\n");
    let body = "EVENTID,A\r\n1,2\r\n</pre>\r\n3,4\r\n";
    assert_eq!(extract_isc_csv(body), "EVENTID,A\n1,2\n");
    assert_eq!(extract_isc_csv("<html>nothing</html>"), "");
    assert_eq!(extract_isc_csv("EVENTID\n1,2\n"), "");
}

#[test]
fn replies_are_classified() {
    match classify_isc_reply("x\nEVENTID,A\n1\n") {
        IscReply::Table(t) => assert_eq!(t, "EVENTID,A\n1\n"),
        other => panic!("unexpected {:?}", other),
    }
    assert!(matches!(classify_isc_reply("<p>No events were found.</p>"), IscReply::NoEvents));
    let busy = classify_isc_reply("Sorry, but your request cannot be processed at the present time.");
    assert!(matches!(busy, IscReply::Busy));
    assert_eq!(
        busy.error_message().unwrap(),
        "ISC API Server is busy or rate-limited (Try again in a few minutes)."
    );
    let bad = classify_isc_reply("The search could not be run due to problems with X");
    assert_eq!(
        bad.error_message().unwrap(),
        "ISC API Error: The search could not be run due to problems with the search criteria."
    );
    let html = classify_isc_reply("<html>\n<b>oops</b>\n</html>");
    assert_eq!(
        html.error_message().unwrap(),
        "ISC API returned HTML instead of CSV data. Snippet: <html> <b>oops</b> </html>"
    );
    assert_eq!(classify_isc_reply("No events were found").error_message(), None);
}

#[test]
fn html_snippet_is_cut_at_two_hundred_characters() {
    let body: String = "é".repeat(250);
    match classify_isc_reply(&body) {
        IscReply::NotCsv(s) => assert_eq!(s.chars().count(), 200),
        other => panic!("unexpected {:?}", other),
    }
}

#[test]
fn catalog_pieces_are_joined() {
    let mut all = String::new();
    append_catalog_text(&mut all, "H\nA\n", true);
    assert_eq!(all, "H\nA\n");
    append_catalog_text(&mut all, "H\r\nB\r\nC", false);
    assert_eq!(all, "H\nA\nB\nC\n");
    append_catalog_text(&mut all, "", false);
    append_catalog_text(&mut all, "H only", false);
    assert_eq!(all, "H\nA\nB\nC\n");
}

#[test]
fn download_names() {
    assert_eq!(safe_channel("BH?,HH*"), "BHANY_HHALL");
    assert_eq!(safe_channel(""), "");
    assert_eq!(download_file_name("IU", "ANMO", "BH*", "mseed"), "IU.ANMO.BHALL.mseed");
    assert_eq!(download_file_name("GE", "*", "?HZ", "xml"), "GE.*.ANYHZ.xml");
}

#[test]
fn yearly_chunks() {
    let (e, n) = next_chunk(date(2020, 1, 1), date(2022, 6, 30));
    assert_eq!(e, date(2020, 12, 31));
    assert_eq!(n, date(2021, 1, 1));
    let (e, n) = next_chunk(date(2022, 1, 1), date(2022, 6, 30));
    assert_eq!(e, date(2022, 6, 30));
    assert_eq!(n, date(2022, 7, 1));
    let (e, n) = next_chunk(date(2021, 3, 1), date(2021, 3, 1));
    assert_eq!(e, date(2021, 3, 1));
    assert_eq!(n, date(2021, 3, 2));
}

#[test]
fn chunk_from_leap_day() {
    // 29 February has no anniversary: the piece runs to the day before the end.
    let (e, n) = next_chunk(date(2020, 2, 29), date(2023, 1, 1));
    assert_eq!(e, date(2022, 12, 31));
    assert_eq!(n, date(2023, 1, 1));
    let (e, n) = next_chunk(date(2019, 3, 1), date(2024, 1, 1));
    assert_eq!(e, date(2020, 2, 29));
    assert_eq!(n, date(2020, 3, 1));
}

#[test]
fn date_order() {
    assert!(is_on_or_before(date(2020, 5, 5), date(2020, 5, 5)));
    assert!(is_on_or_before(date(2019, 12, 31), date(2020, 1, 1)));
    assert!(!is_on_or_before(date(2020, 6, 1), date(2020, 5, 31)));
}

#[test]
fn formats_by_extension() {
    assert_eq!(seismic_format("data/a.SAC"), Ok(SeismicFormat::Sac));
    assert_eq!(seismic_format("a.mseed"), Ok(SeismicFormat::MiniSeed));
    assert_eq!(seismic_format("a.M"), Ok(SeismicFormat::MiniSeed));
    assert_eq!(seismic_format("a.miniSEED"), Ok(SeismicFormat::MiniSeed));
    assert_eq!(seismic_format("a.txt"), Err("Unsupported file extension: .txt".to_string()));
    assert_eq!(seismic_format("noext"), Err("Unsupported file extension: .".to_string()));
}

#[test]
fn channel_keys_and_trace_names() {
    assert_eq!(channel_key(" IU ", "ANMO", "00 ", "BHZ"), "IU.ANMO.00.BHZ");
    assert_eq!(channel_key("", "", "", ""), "...");
    assert_eq!(trace_file_name("/d/f.mseed", "f.mseed", "IU.ANMO.00.BHZ", 2), "f_IU.ANMO.00.BHZ.mseed");
    assert_eq!(trace_file_name("/d/f.mseed", "f.mseed", "IU.ANMO.00.BHZ", 1), "f.mseed");
    assert_eq!(trace_file_name("/d/f", "f", "K", 3), "f_K");
}

#[test]
fn trace_names_differ_between_channels() {
    let keys = ["IU.ANMO.00.BHZ", "IU.ANMO.00.BHN", "IU.ANMO.10.BHZ"];
    let names: Vec<String> = keys.iter().map(|k| trace_file_name("/d/x.mseed", "x.mseed", k, 3)).collect();
    for i in 0..names.len() {
        for j in 0..i {
            assert_ne!(names[i], names[j]);
        }
    }
}

#[test]
fn priority_list_is_trimmed_and_skips_empty_entries() {
    assert_eq!(parse_mag_priority("MW, MS,ML ,MB"), vec!["MW", "MS", "ML", "MB"]);
    assert_eq!(parse_mag_priority(" mb ,, ,Mw,"), vec!["mb", "Mw"]);
    assert!(parse_mag_priority("").is_empty());
    assert!(parse_mag_priority(" , ").is_empty());
}

#[test]
fn typed_dates_and_times_are_read() {
    assert_eq!(parse_calendar_date("2024-02-29"), Ok(date(2024, 2, 29)));
    assert_eq!(parse_calendar_date("2023-02-29"), Err("Invalid date/time format".to_string()));
    assert_eq!(parse_calendar_date("yesterday"), Err("Invalid date/time format".to_string()));
    assert_eq!(parse_clock_time("23:59:59"), Ok(ClockTime { hour: 23, minute: 59, second: 59 }));
    assert_eq!(parse_clock_time("24:00:00"), Err("Invalid date/time format".to_string()));
    assert_eq!(
        parse_origin("2024-01-05T06:07:08"),
        Ok(Moment { date: date(2024, 1, 5), time: ClockTime { hour: 6, minute: 7, second: 8 } })
    );
    assert!(parse_origin("2024-01-05 06:07:08").is_err());
}

#[test]
fn plan_splits_a_long_search_into_yearly_pieces() {
    let pieces = plan_chunks(date(2020, 1, 1), date(2021, 6, 30)).unwrap();
    assert_eq!(
        pieces,
        vec![(date(2020, 1, 1), date(2020, 12, 31)), (date(2021, 1, 1), date(2021, 6, 30))]
    );
}

#[test]
fn plan_of_a_short_search_is_one_piece() {
    let pieces = plan_chunks(date(2023, 3, 5), date(2023, 3, 5)).unwrap();
    assert_eq!(pieces, vec![(date(2023, 3, 5), date(2023, 3, 5))]);
}

#[test]
fn plan_of_an_empty_period_has_no_pieces() {
    assert_eq!(plan_chunks(date(2022, 1, 2), date(2022, 1, 1)), Ok(Vec::new()));
}

#[test]
fn plan_refuses_the_last_supported_date() {
    assert_eq!(plan_chunks(date(2020, 1, 1), date(262142, 12, 31)), Err(PeriodError::EndsOnLastDate));
}

#[test]
fn plan_stops_on_a_leap_day_that_cannot_advance() {
    assert_eq!(
        plan_chunks(date(2020, 2, 29), date(2024, 2, 29)),
        Err(PeriodError::Stalled(date(2024, 2, 29)))
    );
}
