use playbar::form::{form_encode, query_string};
use playbar::query::{
    categories_text, search_url, Cluster, ClusterDetail, ClusterEntry, RadioSeed, SearchParams,
    SearchResponse, Station, StationEntry,
};
use playbar::radio::{radio_stations, station_line, RadioStation, RadioStationId};

#[test]
fn query_string_skips_empty_values() {
    let q = query_string(&[("a", "1"), ("b", ""), ("c", "x y/z@w+é")]);
    assert_eq!(q, "a=1&c=x%20y%2Fz%40w+%C3%A9");
    assert_eq!(query_string(&[("a", "")]), "");
}

#[test]
fn form_encode_keeps_empty_values() {
    assert_eq!(form_encode(&[("a", ""), ("b", "=;?")]), "a=&b=%3D%3B%3F");
    assert_eq!(form_encode(&[]), "");
}

#[test]
fn search_request_url() {
    assert_eq!(categories_text(&[6, 12, 1]), "6,12,1");
    let params = SearchParams { max_results: 10, query: "daft punk", categories: &[6] };
    assert_eq!(
        search_url(&params),
        "https://www.googleapis.com/sj/v2.5/query?max-results=10&q=daft%20punk&ic=true&ct=6&dv=0&hl=en&tier=aa"
    );
    let params = SearchParams { max_results: 0, query: "", categories: &[] };
    assert_eq!(
        search_url(&params),
        "https://www.googleapis.com/sj/v2.5/query?max-results=0&ic=true&dv=0&hl=en&tier=aa"
    );
}

fn seed(artist: Option<&str>, curated: Option<&str>, track: Option<&str>) -> RadioSeed {
    RadioSeed {
        kind: "sj#radioSeed".to_string(),
        curatedStationId: curated.map(|s| s.to_string()),
        artistId: artist.map(|s| s.to_string()),
        trackId: track.map(|s| s.to_string()),
        seedType: "3".to_string(),
    }
}

fn station(name: &str, s: RadioSeed) -> ClusterEntry {
    ClusterEntry::Station(StationEntry {
        station: Station {
            kind: "sj#radioStation".to_string(),
            name: name.to_string(),
            description: Some(format!("about {}", name)),
            seed: s,
            stationSeeds: vec![],
            imageUrls: vec![],
            compositeArtRefs: None,
            skipEventHistory: vec![],
            contentTypes: None,
            byline: None,
        },
        cluster: vec![],
    })
}

fn cluster(t: &str, entries: Option<Vec<ClusterEntry>>) -> ClusterDetail {
    ClusterDetail {
        cluster: Cluster { _type: t.to_string(), category: "c".to_string(), id: "i".to_string() },
        displayName: None,
        resultToken: "r".to_string(),
        entries,
    }
}

#[test]
fn stations_of_search_reply() {
    let reply = SearchResponse {
        kind: "sj#searchresponse".to_string(),
        clusterDetail: vec![
            cluster("6", Some(vec![
                station("one", seed(Some("A1"), None, None)),
                ClusterEntry::Genre("{}".to_string()),
                station("two", seed(None, Some("C2"), Some("T2"))),
            ])),
            cluster("1", Some(vec![station("ignored", seed(Some("X"), None, None))])),
            cluster("6", None),
            cluster("6", Some(vec![station("three", seed(None, None, Some("T3")))])),
        ],
    };
    let stations = radio_stations(reply);
    let names: Vec<&str> = stations.iter().map(|s| s.name.as_str()).collect();
    assert_eq!(names, vec!["one", "two", "three"]);
    assert_eq!(stations[0].description.as_deref(), Some("about one"));
    assert!(stations[2].byline.is_none());
}

#[test]
fn station_id_prefers_artist_then_curated() {
    let _ = RadioStationId::from(seed(Some("A"), Some("C"), Some("T")));
    let _ = RadioStationId::from(seed(None, None, Some("T")));
}

#[test]
fn station_lines_show_description_when_present() {
    let with = RadioStation {
        id: RadioStationId::from(seed(Some("A"), None, None)),
        name: "Jazz".to_string(),
        description: Some("smooth".to_string()),
        byline: None,
    };
    let without = RadioStation {
        id: RadioStationId::from(seed(None, None, Some("T"))),
        name: "Rock".to_string(),
        description: None,
        byline: Some("by".to_string()),
    };
    assert_eq!(station_line(&with), "Jazz - smooth");
    assert_eq!(station_line(&without), "Rock");
}

#[test]
fn query_strings_concatenate() {
    let a = [("a", "1"), ("b", "")];
    let b = [("c", "2 3")];
    let both = [("a", "1"), ("b", ""), ("c", "2 3")];
    assert_eq!(query_string(&both), format!("{}&{}", query_string(&a), query_string(&b)));
    assert_eq!(query_string(&[("a", "1"), ("z", "")]), query_string(&[("a", "1")]));
    assert_eq!(query_string(&[("z", ""), ("c", "2 3")]), query_string(&b));
}
