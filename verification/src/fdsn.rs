//! FDSN web services: the queries sent to a provider, the text station
//! listing it returns, and what the HTTP status of a download reply means.

use vstd::prelude::*;
use vstd::string::StringExecFns;
use crate::text::{pieces, split_on, trim, str_trim, chars_of, string_from_chars, str_eq};
use crate::catalog::{std_lines, lines_of};
use crate::calendar::{Moment, moment_valid, iso_text, iso_timestamp};

verus! {

/// The rows kept from the lines `ls` of a listing: each line that is not
/// blank and has at least six `|`-separated fields, as its fields.
pub open spec fn station_rows_of(ls: Seq<Seq<char>>) -> Seq<Seq<Seq<char>>>
    decreases ls.len(),
{
    if ls.len() == 0 {
        seq![]
    } else {
        let prev = station_rows_of(ls.drop_last());
        let l = ls.last();
        if trim(l).len() > 0 && pieces(l, '|').len() >= 6 {
            prev.push(pieces(l, '|'))
        } else {
            prev
        }
    }
}

/// The station rows of a listing: its lines after the header line.
pub open spec fn spec_station_rows(text: Seq<char>) -> Seq<Seq<Seq<char>>> {
    let ls = std_lines(text);
    if ls.len() == 0 { seq![] } else { station_rows_of(ls.drop_first()) }
}

/// The fields of each station row of a `format=text` station listing:
/// network, station, latitude, longitude, elevation, site name, and any
/// further fields, as written.
pub fn station_rows(text: &str) -> (r: Vec<Vec<String>>)
    ensures
        r@.len() == spec_station_rows(text@).len(),
        forall|k: int| 0 <= k < r@.len() ==> {
            &&& (#[trigger] r@[k])@.len() == spec_station_rows(text@)[k].len()
            &&& forall|j: int| 0 <= j < r@[k]@.len() ==> #[trigger] r@[k]@[j]@ == spec_station_rows(text@)[k][j]
        },
{
    let ls = lines_of(text);
    let mut rows: Vec<Vec<String>> = Vec::new();
    if ls.len() == 0 {
        return rows;
    }
    let ghost all = std_lines(text@);
    let ghost tail = all.drop_first();
    let mut i: usize = 1;
    assert(tail.take(0) =~= Seq::<Seq<char>>::empty());
    while i < ls.len()
        invariant
            1 <= i <= ls@.len(),
            ls@.len() == all.len(),
            all == std_lines(text@),
            tail == all.drop_first(),
            forall|k: int| 0 <= k < ls@.len() ==> #[trigger] ls@[k]@ == all[k],
            rows@.len() == station_rows_of(tail.take(i - 1)).len(),
            forall|k: int| 0 <= k < rows@.len() ==> {
                &&& (#[trigger] rows@[k])@.len() == station_rows_of(tail.take(i - 1))[k].len()
                &&& forall|j: int| 0 <= j < rows@[k]@.len() ==> #[trigger] rows@[k]@[j]@ == station_rows_of(tail.take(i - 1))[k][j]
            },
        decreases ls.len() - i,
    {
        let ghost before = station_rows_of(tail.take(i - 1));
        let line = ls[i].as_str();
        proof {
            assert(tail.take(i as int).drop_last() =~= tail.take(i - 1));
            assert(tail.take(i as int).last() == line@);
        }
        let t = str_trim(line);
        let lc = chars_of(line);
        if chars_of(t).len() > 0 {
            let parts = split_on(&lc, '|');
            if parts.len() >= 6 {
                let mut fields: Vec<String> = Vec::new();
                let mut j: usize = 0;
                while j < parts.len()
                    invariant
                        j <= parts@.len(),
                        parts@.len() == pieces(line@, '|').len(),
                        forall|q: int| 0 <= q < parts@.len() ==> #[trigger] parts@[q]@ == pieces(line@, '|')[q],
                        fields@.len() == j,
                        forall|q: int| 0 <= q < j ==> #[trigger] fields@[q]@ == pieces(line@, '|')[q],
                    decreases parts.len() - j,
                {
                    fields.push(string_from_chars(&parts[j]));
                    j = j + 1;
                }
                rows.push(fields);
                proof {
                    assert(station_rows_of(tail.take(i as int)) == before.push(pieces(line@, '|')));
                    assert forall|k: int| 0 <= k < rows@.len() implies {
                        &&& (#[trigger] rows@[k])@.len() == station_rows_of(tail.take(i as int))[k].len()
                        &&& forall|q: int| 0 <= q < rows@[k]@.len() ==> #[trigger] rows@[k]@[q]@ == station_rows_of(tail.take(i as int))[k][q]
                    } by {
                        if k < rows@.len() - 1 {
                            assert(station_rows_of(tail.take(i as int))[k] == before[k]);
                        }
                    }
                }
            }
        }
        i = i + 1;
    }
    assert(tail.take(i - 1) =~= tail);
    rows
}

/// Whether an HTTP status is a success (2xx).
pub open spec fn is_success(status: u16) -> bool {
    200 <= status <= 299
}

/// What a waveform or StationXML download does with the HTTP status of
/// the reply.
#[derive(Debug, Clone, Copy, PartialEq, Eq, Structural)]
pub enum DownloadOutcome {
    /// No content or not found: the request is skipped quietly.
    Skip,
    /// Another status that is no success: reported as an error.
    Failed,
    /// A success: the reply body is written to disk.
    Save,
}

/// Decide what a download does with the status of its reply.
pub fn download_outcome(status: u16) -> (r: DownloadOutcome)
    ensures
        r == (if status == 204 || status == 404 {
            DownloadOutcome::Skip
        } else if !is_success(status) {
            DownloadOutcome::Failed
        } else {
            DownloadOutcome::Save
        }),
{
    if status == 204 || status == 404 {
        DownloadOutcome::Skip
    } else if !(200 <= status && status <= 299) {
        DownloadOutcome::Failed
    } else {
        DownloadOutcome::Save
    }
}

/// The station search query: stations within a ring around a point that
/// recorded a channel pattern between two times. The numbers are given as
/// the text they are written in.
pub open spec fn spec_station_search_url(base: Seq<char>, lat: Seq<char>, lon: Seq<char>, min_radius: Seq<char>,
    max_radius: Seq<char>, start: Moment, end: Moment, channel: Seq<char>) -> Seq<char> {
    base + "/fdsnws/station/1/query?latitude="@ + lat + "&longitude="@ + lon + "&minradius="@ + min_radius
        + "&maxradius="@ + max_radius + "&starttime="@ + iso_text(start) + "&endtime="@ + iso_text(end)
        + "&channel="@ + channel + "&level=station&format=text"@
}

/// Build the station search query for a provider.
pub fn station_search_url(base: &str, lat: &str, lon: &str, min_radius: &str, max_radius: &str,
    start: Moment, end: Moment, channel: &str) -> (r: String)
    requires
        moment_valid(start),
        moment_valid(end),
    ensures
        r@ == spec_station_search_url(base@, lat@, lon@, min_radius@, max_radius@, start, end, channel@),
{
    let mut r = String::from_str(base);
    r.append("/fdsnws/station/1/query?latitude=");
    r.append(lat);
    r.append("&longitude=");
    r.append(lon);
    r.append("&minradius=");
    r.append(min_radius);
    r.append("&maxradius=");
    r.append(max_radius);
    r.append("&starttime=");
    let t0 = iso_timestamp(start);
    r.append(t0.as_str());
    r.append("&endtime=");
    let t1 = iso_timestamp(end);
    r.append(t1.as_str());
    r.append("&channel=");
    r.append(channel);
    r.append("&level=station&format=text");
    r
}

/// The waveform (dataselect) query for one station and channel pattern,
/// every location, between two times.
pub open spec fn spec_dataselect_url(base: Seq<char>, net: Seq<char>, sta: Seq<char>, cha: Seq<char>,
    start: Moment, end: Moment) -> Seq<char> {
    base + "/fdsnws/dataselect/1/query?net="@ + net + "&sta="@ + sta + "&cha="@ + cha
        + "&loc=*&starttime="@ + iso_text(start) + "&endtime="@ + iso_text(end)
}

/// Build the waveform download query.
pub fn dataselect_url(base: &str, net: &str, sta: &str, cha: &str, start: Moment, end: Moment) -> (r: String)
    requires
        moment_valid(start),
        moment_valid(end),
    ensures
        r@ == spec_dataselect_url(base@, net@, sta@, cha@, start, end),
{
    let mut r = String::from_str(base);
    r.append("/fdsnws/dataselect/1/query?net=");
    r.append(net);
    r.append("&sta=");
    r.append(sta);
    r.append("&cha=");
    r.append(cha);
    r.append("&loc=*&starttime=");
    let t0 = iso_timestamp(start);
    r.append(t0.as_str());
    r.append("&endtime=");
    let t1 = iso_timestamp(end);
    r.append(t1.as_str());
    r
}

/// The StationXML (instrument response) query for one station and channel
/// pattern, every location, between two times.
pub open spec fn spec_response_url(base: Seq<char>, net: Seq<char>, sta: Seq<char>, cha: Seq<char>,
    start: Moment, end: Moment) -> Seq<char> {
    base + "/fdsnws/station/1/query?net="@ + net + "&sta="@ + sta + "&cha="@ + cha
        + "&loc=*&starttime="@ + iso_text(start) + "&endtime="@ + iso_text(end)
        + "&level=response&format=xml"@
}

/// Build the StationXML download query.
pub fn response_url(base: &str, net: &str, sta: &str, cha: &str, start: Moment, end: Moment) -> (r: String)
    requires
        moment_valid(start),
        moment_valid(end),
    ensures
        r@ == spec_response_url(base@, net@, sta@, cha@, start, end),
{
    let mut r = String::from_str(base);
    r.append("/fdsnws/station/1/query?net=");
    r.append(net);
    r.append("&sta=");
    r.append(sta);
    r.append("&cha=");
    r.append(cha);
    r.append("&loc=*&starttime=");
    let t0 = iso_timestamp(start);
    r.append(t0.as_str());
    r.append("&endtime=");
    let t1 = iso_timestamp(end);
    r.append(t1.as_str());
    r.append("&level=response&format=xml");
    r
}

/// A data provider offered for searches, and whether it is chosen.
pub struct ProviderSelection {
    pub name: String,
    pub url: String,
    pub desc: String,
    pub selected: bool,
}

/// The provider at position `i` of the list offered: name, service
/// address, description.
pub open spec fn provider_entry(i: int) -> (Seq<char>, Seq<char>, Seq<char>) {
    if i == 0 {
        ("AUSPASS"@, "http://auspass.edu.au"@, "Australian regional network"@)
    } else if i == 1 {
        ("BGR"@, "http://eida.bgr.de"@, "German EIDA Node"@)
    } else if i == 2 {
        ("EIDA"@, "http://eida-federator.ethz.ch"@, "European primary federator"@)
    } else if i == 3 {
        ("ETH"@, "http://eida.ethz.ch"@, "Swiss / EIDA Node"@)
    } else if i == 4 {
        ("GEONET"@, "http://service.geonet.org.nz"@, "New Zealand network"@)
    } else if i == 5 {
        ("GFZ"@, "http://geofon.gfz-potsdam.de"@, "GEOFON global network / EIDA Node"@)
    } else if i == 6 {
        ("ICGC"@, "http://ws.icgc.cat"@, "Catalonia, Spain"@)
    } else if i == 7 {
        ("IESDMC"@, "http://batsws.earth.sinica.edu.tw"@, "BATS network (Taiwan)"@)
    } else if i == 8 {
        ("INGV"@, "http://webservices.ingv.it"@, "Italy / EIDA Node"@)
    } else if i == 9 {
        ("IPGP"@, "http://ws.ipgp.fr"@, "France (GEOSCOPE)"@)
    } else if i == 10 {
        ("IRIS"@, "http://service.iris.edu"@, "Largest global federator (EarthScope)"@)
    } else if i == 11 {
        ("KNMI"@, "http://rdsa.knmi.nl"@, "Netherlands / EIDA Node"@)
    } else if i == 12 {
        ("KOERI"@, "http://eida.koeri.boun.edu.tr"@, "Turkey / EIDA Node"@)
    } else if i == 13 {
        ("LMU"@, "https://erde.geophysik.uni-muenchen.de"@, "Munich University"@)
    } else if i == 14 {
        ("NCEDC"@, "http://service.ncedc.org"@, "Northern California"@)
    } else if i == 15 {
        ("NIEP"@, "http://eida-sc3.infp.ro"@, "Romania / EIDA Node"@)
    } else if i == 16 {
        ("NOA"@, "http://eida.gein.noa.gr"@, "Greece / EIDA Node"@)
    } else if i == 17 {
        ("ORFEUS"@, "http://www.orfeus-eu.org"@, "European EIDA coordination center"@)
    } else if i == 18 {
        ("RASPISHAKE"@, "https://data.raspberryshake.org"@, "Citizen-science network / IoT geophones"@)
    } else if i == 19 {
        ("RESIF"@, "http://ws.resif.fr"@, "France (now Epos-France)"@)
    } else if i == 20 {
        ("RESIFPH5"@, "http://ph5ws.resif.fr"@, "Active seismic data from France"@)
    } else if i == 21 {
        ("SCEDC"@, "http://service.scedc.caltech.edu"@, "Southern California"@)
    } else if i == 22 {
        ("TEXNET"@, "http://rtserve.beg.utexas.edu"@, "Texas Network"@)
    } else if i == 23 {
        ("UIB-NORSAR"@, "http://eida.geo.uib.no"@, "Norway / EIDA Node"@)
    } else {
        ("USP"@, "http://sismo.iag.usp.br"@, "Brazilian Seismograph Network"@)
    }
}

/// The published FDSN service address of each data centre, by name;
/// none for a name that is not a known data centre.
pub open spec fn published_service_url(name: Seq<char>) -> Option<Seq<char>> {
    if name == "AUSPASS"@ {
        Some("http://auspass.edu.au"@)
    } else if name == "BGR"@ {
        Some("http://eida.bgr.de"@)
    } else if name == "EIDA"@ {
        Some("http://eida-federator.ethz.ch"@)
    } else if name == "ETH"@ {
        Some("http://eida.ethz.ch"@)
    } else if name == "GEONET"@ {
        Some("http://service.geonet.org.nz"@)
    } else if name == "GFZ"@ {
        Some("http://geofon.gfz-potsdam.de"@)
    } else if name == "ICGC"@ {
        Some("http://ws.icgc.cat"@)
    } else if name == "IESDMC"@ {
        Some("http://batsws.earth.sinica.edu.tw"@)
    } else if name == "INGV"@ {
        Some("http://webservices.ingv.it"@)
    } else if name == "IPGP"@ {
        Some("http://ws.ipgp.fr"@)
    } else if name == "IRIS"@ {
        Some("http://service.iris.edu"@)
    } else if name == "KNMI"@ {
        Some("http://rdsa.knmi.nl"@)
    } else if name == "KOERI"@ {
        Some("http://eida.koeri.boun.edu.tr"@)
    } else if name == "LMU"@ {
        Some("https://erde.geophysik.uni-muenchen.de"@)
    } else if name == "NCEDC"@ {
        Some("http://service.ncedc.org"@)
    } else if name == "NIEP"@ {
        Some("http://eida-sc3.infp.ro"@)
    } else if name == "NOA"@ {
        Some("http://eida.gein.noa.gr"@)
    } else if name == "ORFEUS"@ {
        Some("http://www.orfeus-eu.org"@)
    } else if name == "RASPISHAKE"@ {
        Some("https://data.raspberryshake.org"@)
    } else if name == "RESIF"@ {
        Some("http://ws.resif.fr"@)
    } else if name == "RESIFPH5"@ {
        Some("http://ph5ws.resif.fr"@)
    } else if name == "SCEDC"@ {
        Some("http://service.scedc.caltech.edu"@)
    } else if name == "TEXNET"@ {
        Some("http://rtserve.beg.utexas.edu"@)
    } else if name == "UIB-NORSAR"@ {
        Some("http://eida.geo.uib.no"@)
    } else if name == "USP"@ {
        Some("http://sismo.iag.usp.br"@)
    } else {
        None
    }
}

/// The length and first two letters of a name, which tell the names of
/// the data centres apart.
spec fn name_fingerprint(name: Seq<char>) -> (nat, char, char) {
    (name.len(), name[0], name[1])
}

/// Every provider offered is a known data centre, offered under its own
/// published service address.
pub proof fn law_providers_use_published_addresses()
    ensures
        forall|i: int| 0 <= i < provider_count() ==>
            published_service_url(#[trigger] provider_entry(i).0) == Some(provider_entry(i).1),
{
    reveal_strlit("AUSPASS");
    reveal_strlit("BGR");
    reveal_strlit("EIDA");
    reveal_strlit("ETH");
    reveal_strlit("GEONET");
    reveal_strlit("GFZ");
    reveal_strlit("ICGC");
    reveal_strlit("IESDMC");
    reveal_strlit("INGV");
    reveal_strlit("IPGP");
    reveal_strlit("IRIS");
    reveal_strlit("KNMI");
    reveal_strlit("KOERI");
    reveal_strlit("LMU");
    reveal_strlit("NCEDC");
    reveal_strlit("NIEP");
    reveal_strlit("NOA");
    reveal_strlit("ORFEUS");
    reveal_strlit("RASPISHAKE");
    reveal_strlit("RESIF");
    reveal_strlit("RESIFPH5");
    reveal_strlit("SCEDC");
    reveal_strlit("TEXNET");
    reveal_strlit("UIB-NORSAR");
    reveal_strlit("USP");
    assert(name_fingerprint("AUSPASS"@) == (7nat, 'A', 'U'));
    assert(name_fingerprint("BGR"@) == (3nat, 'B', 'G'));
    assert(name_fingerprint("EIDA"@) == (4nat, 'E', 'I'));
    assert(name_fingerprint("ETH"@) == (3nat, 'E', 'T'));
    assert(name_fingerprint("GEONET"@) == (6nat, 'G', 'E'));
    assert(name_fingerprint("GFZ"@) == (3nat, 'G', 'F'));
    assert(name_fingerprint("ICGC"@) == (4nat, 'I', 'C'));
    assert(name_fingerprint("IESDMC"@) == (6nat, 'I', 'E'));
    assert(name_fingerprint("INGV"@) == (4nat, 'I', 'N'));
    assert(name_fingerprint("IPGP"@) == (4nat, 'I', 'P'));
    assert(name_fingerprint("IRIS"@) == (4nat, 'I', 'R'));
    assert(name_fingerprint("KNMI"@) == (4nat, 'K', 'N'));
    assert(name_fingerprint("KOERI"@) == (5nat, 'K', 'O'));
    assert(name_fingerprint("LMU"@) == (3nat, 'L', 'M'));
    assert(name_fingerprint("NCEDC"@) == (5nat, 'N', 'C'));
    assert(name_fingerprint("NIEP"@) == (4nat, 'N', 'I'));
    assert(name_fingerprint("NOA"@) == (3nat, 'N', 'O'));
    assert(name_fingerprint("ORFEUS"@) == (6nat, 'O', 'R'));
    assert(name_fingerprint("RASPISHAKE"@) == (10nat, 'R', 'A'));
    assert(name_fingerprint("RESIF"@) == (5nat, 'R', 'E'));
    assert(name_fingerprint("RESIFPH5"@) == (8nat, 'R', 'E'));
    assert(name_fingerprint("SCEDC"@) == (5nat, 'S', 'C'));
    assert(name_fingerprint("TEXNET"@) == (6nat, 'T', 'E'));
    assert(name_fingerprint("UIB-NORSAR"@) == (10nat, 'U', 'I'));
    assert(name_fingerprint("USP"@) == (3nat, 'U', 'S'));
}

/// How many providers are offered.
pub open spec fn provider_count() -> int {
    25
}

fn provider(name: &str, url: &str, desc: &str) -> (r: ProviderSelection)
    ensures
        r.name@ == name@,
        r.url@ == url@,
        r.desc@ == desc@,
        r.selected == (name@ == "IRIS"@),
{
    ProviderSelection {
        name: String::from_str(name),
        url: String::from_str(url),
        desc: String::from_str(desc),
        selected: str_eq(name, "IRIS"),
    }
}

fn provider_at(i: usize) -> (r: (&'static str, &'static str, &'static str))
    requires
        i < provider_count(),
    ensures
        (r.0@, r.1@, r.2@) == provider_entry(i as int),
{
    match i {
        0 => ("AUSPASS", "http://auspass.edu.au", "Australian regional network"),
        1 => ("BGR", "http://eida.bgr.de", "German EIDA Node"),
        2 => ("EIDA", "http://eida-federator.ethz.ch", "European primary federator"),
        3 => ("ETH", "http://eida.ethz.ch", "Swiss / EIDA Node"),
        4 => ("GEONET", "http://service.geonet.org.nz", "New Zealand network"),
        5 => ("GFZ", "http://geofon.gfz-potsdam.de", "GEOFON global network / EIDA Node"),
        6 => ("ICGC", "http://ws.icgc.cat", "Catalonia, Spain"),
        7 => ("IESDMC", "http://batsws.earth.sinica.edu.tw", "BATS network (Taiwan)"),
        8 => ("INGV", "http://webservices.ingv.it", "Italy / EIDA Node"),
        9 => ("IPGP", "http://ws.ipgp.fr", "France (GEOSCOPE)"),
        10 => ("IRIS", "http://service.iris.edu", "Largest global federator (EarthScope)"),
        11 => ("KNMI", "http://rdsa.knmi.nl", "Netherlands / EIDA Node"),
        12 => ("KOERI", "http://eida.koeri.boun.edu.tr", "Turkey / EIDA Node"),
        13 => ("LMU", "https://erde.geophysik.uni-muenchen.de", "Munich University"),
        14 => ("NCEDC", "http://service.ncedc.org", "Northern California"),
        15 => ("NIEP", "http://eida-sc3.infp.ro", "Romania / EIDA Node"),
        16 => ("NOA", "http://eida.gein.noa.gr", "Greece / EIDA Node"),
        17 => ("ORFEUS", "http://www.orfeus-eu.org", "European EIDA coordination center"),
        18 => ("RASPISHAKE", "https://data.raspberryshake.org", "Citizen-science network / IoT geophones"),
        19 => ("RESIF", "http://ws.resif.fr", "France (now Epos-France)"),
        20 => ("RESIFPH5", "http://ph5ws.resif.fr", "Active seismic data from France"),
        21 => ("SCEDC", "http://service.scedc.caltech.edu", "Southern California"),
        22 => ("TEXNET", "http://rtserve.beg.utexas.edu", "Texas Network"),
        23 => ("UIB-NORSAR", "http://eida.geo.uib.no", "Norway / EIDA Node"),
        _ => ("USP", "http://sismo.iag.usp.br", "Brazilian Seismograph Network"),
    }
}

/// The providers offered by default, IRIS alone chosen.
pub fn default_providers() -> (r: Vec<ProviderSelection>)
    ensures
        r@.len() == provider_count(),
        forall|i: int| 0 <= i < r@.len() ==> {
            &&& (#[trigger] r@[i]).name@ == provider_entry(i).0
            &&& r@[i].url@ == provider_entry(i).1
            &&& r@[i].desc@ == provider_entry(i).2
            &&& r@[i].selected == (r@[i].name@ == "IRIS"@)
            &&& published_service_url(r@[i].name@) == Some(r@[i].url@)
        },
{
    let mut v: Vec<ProviderSelection> = Vec::new();
    let mut i: usize = 0;
    while i < 25
        invariant
            i <= 25,
            v@.len() == i,
            forall|k: int| 0 <= k < i ==> {
                &&& (#[trigger] v@[k]).name@ == provider_entry(k).0
                &&& v@[k].url@ == provider_entry(k).1
                &&& v@[k].desc@ == provider_entry(k).2
                &&& v@[k].selected == (v@[k].name@ == "IRIS"@)
            },
        decreases 25 - i,
    {
        let (name, url, desc) = provider_at(i);
        v.push(provider(name, url, desc));
        i = i + 1;
    }
    proof { law_providers_use_published_addresses(); }
    v
}

/// Whether every provider is chosen (the state of "Select All").
pub fn all_selected(ps: &Vec<ProviderSelection>) -> (r: bool)
    ensures
        r == forall|i: int| 0 <= i < ps@.len() ==> (#[trigger] ps@[i]).selected,
{
    let mut i: usize = 0;
    while i < ps.len()
        invariant
            i <= ps@.len(),
            forall|j: int| 0 <= j < i ==> (#[trigger] ps@[j]).selected,
        decreases ps.len() - i,
    {
        if !ps[i].selected {
            return false;
        }
        i = i + 1;
    }
    true
}

/// Choose every provider, or none.
pub fn set_all_selected(ps: &mut Vec<ProviderSelection>, selected: bool)
    ensures
        final(ps)@.len() == old(ps)@.len(),
        forall|i: int| 0 <= i < final(ps)@.len() ==> {
            &&& (#[trigger] final(ps)@[i]).selected == selected
            &&& final(ps)@[i].name@ == old(ps)@[i].name@
            &&& final(ps)@[i].url@ == old(ps)@[i].url@
            &&& final(ps)@[i].desc@ == old(ps)@[i].desc@
        },
{
    let n = ps.len();
    let mut out: Vec<ProviderSelection> = Vec::new();
    let ghost orig = ps@;
    while ps.len() > 0
        invariant
            out@.len() + ps@.len() == n,
            n == orig.len(),
            forall|i: int| 0 <= i < ps@.len() ==> #[trigger] ps@[i] == orig[out@.len() + i],
            forall|i: int| 0 <= i < out@.len() ==> {
                &&& (#[trigger] out@[i]).selected == selected
                &&& out@[i].name@ == orig[i].name@
                &&& out@[i].url@ == orig[i].url@
                &&& out@[i].desc@ == orig[i].desc@
            },
        decreases ps.len(),
    {
        let p = ps.remove(0);
        out.push(ProviderSelection { name: p.name, url: p.url, desc: p.desc, selected });
    }
    *ps = out;
}

/// The positions below `n` of the chosen providers, in order.
pub open spec fn chosen_upto(ps: Seq<ProviderSelection>, n: int) -> Seq<usize>
    decreases n,
{
    if n <= 0 {
        seq![]
    } else if ps[n - 1].selected {
        chosen_upto(ps, n - 1).push((n - 1) as usize)
    } else {
        chosen_upto(ps, n - 1)
    }
}

/// The positions of the chosen providers, in order.
pub fn selected_providers(ps: &Vec<ProviderSelection>) -> (r: Vec<usize>)
    ensures
        r@ == chosen_upto(ps@, ps@.len() as int),
{
    let mut r: Vec<usize> = Vec::new();
    let mut i: usize = 0;
    while i < ps.len()
        invariant
            i <= ps@.len(),
            r@ == chosen_upto(ps@, i as int),
        decreases ps.len() - i,
    {
        if ps[i].selected {
            r.push(i);
        }
        i = i + 1;
    }
    r
}

} // verus!
