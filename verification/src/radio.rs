//! Radio stations found by a search.

use vstd::prelude::*;
use vstd::utf8::encode_utf8_decode_utf8;
use crate::query::{ClusterDetail, ClusterEntry, RadioSeed, SearchResponse, Station};
use crate::text::bytes_eq;

verus! {

/// A request to search radio stations.
pub struct SearchRadioStations {
    pub query: String,
}

/// The seed a station plays from.
pub enum StationSeed {
    CuratedStationId(String),
    ArtistId(String),
    TrackId(String),
}

/// Identifies a radio station by its seed.
pub struct RadioStationId {
    inner: StationSeed,
}

/// Identifies an album.
pub struct AlbumId {
    inner: String,
}

/// A station found by a search.
pub struct RadioStation {
    pub id: RadioStationId,
    pub name: String,
    pub description: Option<String>,
    pub byline: Option<String>,
}

/// True when the seed names an artist, a curated station or a track.
pub open spec fn seed_has_id(seed: RadioSeed) -> bool {
    seed.artistId is Some || seed.curatedStationId is Some || seed.trackId is Some
}

/// The station seed of a search seed: its artist, else its curated
/// station, else its track.
pub open spec fn seed_of(seed: RadioSeed) -> StationSeed {
    if let Some(a) = seed.artistId {
        StationSeed::ArtistId(a)
    } else if let Some(c) = seed.curatedStationId {
        StationSeed::CuratedStationId(c)
    } else {
        StationSeed::TrackId(seed.trackId->0)
    }
}

/// A station's seed keeps the kind of the search seed: an artist seed gives
/// an artist station, else a curated-station seed a curated station, else a
/// track seed a track station, each with the seed's own id.
pub proof fn lemma_seed_of_keeps_kind(seed: RadioSeed)
    requires
        seed_has_id(seed),
    ensures
        seed.artistId matches Some(a) ==> seed_of(seed) == StationSeed::ArtistId(a),
        seed.artistId is None ==> (seed.curatedStationId matches Some(c) ==> seed_of(seed)
            == StationSeed::CuratedStationId(c)),
        seed.artistId is None && seed.curatedStationId is None ==> seed.trackId is Some
            && seed_of(seed) == StationSeed::TrackId(seed.trackId->0),
{
}

impl RadioStationId {
    /// The station's seed.
    pub closed spec fn seed(&self) -> StationSeed {
        self.inner
    }

    /// The id of the station that a search seed names: its artist, else its
    /// curated station, else its track.
    pub fn from(seed: RadioSeed) -> (r: RadioStationId)
        requires
            seed_has_id(seed),
        ensures
            r.seed() == seed_of(seed),
            seed.artistId matches Some(a) ==> r.seed() == StationSeed::ArtistId(a),
            seed.artistId is None ==> (seed.curatedStationId matches Some(c) ==> r.seed()
                == StationSeed::CuratedStationId(c)),
            seed.artistId is None && seed.curatedStationId is None ==> r.seed()
                == StationSeed::TrackId(seed.trackId->0),
    {
        let inner = if let Some(artist_id) = seed.artistId {
            StationSeed::ArtistId(artist_id)
        } else if let Some(station_id) = seed.curatedStationId {
            StationSeed::CuratedStationId(station_id)
        } else if let Some(track_id) = seed.trackId {
            StationSeed::TrackId(track_id)
        } else {
            proof {
                assert(false);
            }
            StationSeed::TrackId(String::new())
        };
        RadioStationId { inner: inner }
    }
}

/// The line that lists a station: its name, then " - " and its description
/// when it has one.
pub open spec fn station_line_text(name: Seq<char>, description: Option<Seq<char>>) -> Seq<char> {
    match description {
        Some(d) => name + " - "@ + d,
        None => name,
    }
}

/// The line that lists a found station (see `station_line_text`).
pub fn station_line(station: &RadioStation) -> (r: String)
    ensures
        r@ == station_line_text(
            station.name@,
            match station.description {
                Some(d) => Some(d@),
                None => None,
            },
        ),
{
    let mut line = station.name.clone();
    match &station.description {
        Some(d) => {
            line.append(" - ");
            line.append(d.as_str());
        },
        None => {},
    }
    line
}

/// The stations among the entries of a cluster.
pub open spec fn stations_in(entries: Seq<ClusterEntry>) -> Seq<Station>
    decreases entries.len(),
{
    if entries.len() == 0 {
        seq![]
    } else {
        stations_in(entries.drop_last()) + match entries.last() {
            ClusterEntry::Station(e) => seq![e.station],
            _ => seq![],
        }
    }
}

/// The stations of a cluster of type `6`; none for other clusters.
pub open spec fn cluster_stations(d: ClusterDetail) -> Seq<Station> {
    if d.cluster._type@ == seq!['6'] {
        match d.entries {
            Some(es) => stations_in(es@),
            None => seq![],
        }
    } else {
        seq![]
    }
}

/// The stations of all clusters of type `6`, in order.
pub open spec fn stations_of(details: Seq<ClusterDetail>) -> Seq<Station>
    decreases details.len(),
{
    if details.len() == 0 {
        seq![]
    } else {
        stations_of(details.drop_last()) + cluster_stations(details.last())
    }
}

/// The radio station of a search station.
pub open spec fn station_matches(r: RadioStation, s: Station) -> bool {
    &&& r.id.seed() == seed_of(s.seed)
    &&& r.name == s.name
    &&& r.description == s.description
    &&& r.byline == s.byline
}

/// True when every station of every cluster of type `6` names a seed.
pub open spec fn stations_have_seeds(details: Seq<ClusterDetail>) -> bool {
    forall|j: int, i: int|
        0 <= j < details.len() && 0 <= i < cluster_stations(details[j]).len() ==> seed_has_id(
            #[trigger] cluster_stations(details[j])[i].seed,
        )
}

/// Whether every station of every cluster of type `6` names a seed (see
/// `stations_have_seeds`), i.e. whether `radio_stations` may be called.
pub fn search_stations_have_seeds(result: &SearchResponse) -> (r: bool)
    ensures
        r == stations_have_seeds(result.clusterDetail@),
{
    let details = &result.clusterDetail;
    let six = "6";
    proof {
        reveal_strlit("6");
    }
    let mut k: usize = 0;
    while k < details.len()
        invariant
            k <= details@.len(),
            details@ == result.clusterDetail@,
            six@ == seq!['6'],
            forall|j: int, i: int|
                0 <= j < k && 0 <= i < cluster_stations(details@[j]).len() ==> seed_has_id(
                    #[trigger] cluster_stations(details@[j])[i].seed,
                ),
        decreases details@.len() - k,
    {
        let d = &details[k];
        let is_six = bytes_eq(d.cluster._type.as_str().as_bytes(), six.as_bytes());
        proof {
            encode_utf8_decode_utf8(d.cluster._type@);
            encode_utf8_decode_utf8(six@);
        }
        assert(is_six == (d.cluster._type@ == seq!['6']));
        if is_six {
            match &d.entries {
                Some(entries) => {
                    let ghost es = entries@;
                    let mut m: usize = 0;
                    while m < entries.len()
                        invariant
                            m <= es.len(),
                            es == entries@,
                            details@ == result.clusterDetail@,
                            k < details@.len(),
                            *d == details@[k as int],
                            d.entries matches Some(v) && v@ == es,
                            d.cluster._type@ == seq!['6'],
                            forall|i: int|
                                0 <= i < stations_in(es.subrange(0, m as int)).len()
                                    ==> seed_has_id(
                                    #[trigger] stations_in(es.subrange(0, m as int))[i].seed,
                                ),
                        decreases es.len() - m,
                    {
                        assert(es.subrange(0, m + 1).drop_last() =~= es.subrange(0, m as int));
                        let ghost prev = stations_in(es.subrange(0, m as int));
                        let ghost next = stations_in(es.subrange(0, m + 1));
                        match &entries[m] {
                            ClusterEntry::Station(entry) => {
                                let seed = &entry.station.seed;
                                assert(es[m as int] == ClusterEntry::Station(*entry));
                                assert(next == prev + seq![entry.station]);
                                if !(seed.artistId.is_some() || seed.curatedStationId.is_some()
                                    || seed.trackId.is_some()) {
                                    let ghost idx = prev.len();
                                    assert(next[idx as int] == entry.station);
                                    proof {
                                        lemma_stations_in_prefix(es, m + 1);
                                    }
                                    assert(stations_in(es)[idx as int] == entry.station);
                                    assert(cluster_stations(details@[k as int])[idx as int]
                                        == entry.station);
                                    return false;
                                }
                                assert(seed_has_id(entry.station.seed));
                                assert forall|i: int| 0 <= i < next.len() implies seed_has_id(
                                    #[trigger] next[i].seed,
                                ) by {
                                    if i < prev.len() {
                                        assert(next[i] == prev[i]);
                                    }
                                }
                            },
                            _ => {
                                assert(next == prev + seq![]);
                                assert(next =~= prev);
                            },
                        }
                        m = m + 1;
                    }
                    assert(es.subrange(0, es.len() as int) =~= es);
                },
                None => {},
            }
        }
        k = k + 1;
    }
    true
}

/// The radio stations of the clusters of type `6` in a search reply, in order.
pub fn radio_stations(result: SearchResponse) -> (r: Vec<RadioStation>)
    requires
        stations_have_seeds(result.clusterDetail@),
    ensures
        r@.len() == stations_of(result.clusterDetail@).len(),
        forall|i: int|
            0 <= i < r@.len() ==> station_matches(
                #[trigger] r@[i],
                stations_of(result.clusterDetail@)[i],
            ),
{
    let mut details = result.clusterDetail;
    let ghost all = details@;
    let ghost mut k: int = 0;
    let mut out: Vec<RadioStation> = Vec::new();
    let six = "6";
    proof {
        reveal_strlit("6");
    }
    while details.len() > 0
        invariant
            0 <= k <= all.len(),
            details@ == all.subrange(k, all.len() as int),
            stations_have_seeds(all),
            six@ == seq!['6'],
            out@.len() == stations_of(all.subrange(0, k)).len(),
            forall|i: int|
                0 <= i < out@.len() ==> station_matches(
                    #[trigger] out@[i],
                    stations_of(all.subrange(0, k))[i],
                ),
        decreases details@.len(),
    {
        let d = details.remove(0);
        assert(d == all[k]);
        let ghost before = stations_of(all.subrange(0, k));
        assert(all.subrange(0, k + 1).drop_last() =~= all.subrange(0, k));
        assert(stations_of(all.subrange(0, k + 1)) == before + cluster_stations(d));
        let ghost wanted = cluster_stations(d);
        let ghost out_before = out@;
        let is_six = bytes_eq(d.cluster._type.as_str().as_bytes(), six.as_bytes());
        proof {
            encode_utf8_decode_utf8(d.cluster._type@);
            encode_utf8_decode_utf8(six@);
        }
        assert(is_six == (d.cluster._type@ == seq!['6']));
        if is_six {
            if let Some(mut entries) = d.entries {
                let ghost es = entries@;
                let ghost mut m: int = 0;
                while entries.len() > 0
                    invariant
                        0 <= m <= es.len(),
                        entries@ == es.subrange(m, es.len() as int),
                        wanted == stations_in(es),
                        forall|i: int|
                            0 <= i < wanted.len() ==> seed_has_id(#[trigger] wanted[i].seed),
                        out@.len() == out_before.len() + stations_in(es.subrange(0, m)).len(),
                        forall|i: int|
                            0 <= i < out_before.len() ==> #[trigger] out@[i] == out_before[i],
                        forall|i: int|
                            0 <= i < stations_in(es.subrange(0, m)).len() ==> station_matches(
                                #[trigger] out@[out_before.len() + i],
                                stations_in(es.subrange(0, m))[i],
                            ),
                    decreases entries@.len(),
                {
                    let e = entries.remove(0);
                    assert(e == es[m]);
                    assert(es.subrange(0, m + 1).drop_last() =~= es.subrange(0, m));
                    proof {
                        lemma_stations_in_prefix(es, m + 1);
                    }
                    match e {
                        ClusterEntry::Station(entry) => {
                            let ghost idx = stations_in(es.subrange(0, m)).len();
                            assert(stations_in(es.subrange(0, m + 1))[idx as int] == entry.station);
                            assert(wanted[idx as int] == entry.station);
                            let station = entry.station;
                            let rs = RadioStation {
                                id: RadioStationId::from(station.seed),
                                name: station.name,
                                description: station.description,
                                byline: station.byline,
                            };
                            out.push(rs);
                        },
                        _ => {},
                    }
                    proof {
                        m = m + 1;
                    }
                }
                assert(es.subrange(0, es.len() as int) =~= es);
                assert(forall|j: int|
                    0 <= j < wanted.len() ==> station_matches(
                        #[trigger] out@[out_before.len() + j],
                        wanted[j],
                    ));
            } else {
                assert(wanted =~= Seq::<Station>::empty());
            }
        } else {
            assert(wanted =~= Seq::<Station>::empty());
        }
        assert(out@.len() == out_before.len() + wanted.len());
        assert forall|i: int| 0 <= i < out@.len() implies station_matches(
            #[trigger] out@[i],
            stations_of(all.subrange(0, k + 1))[i],
        ) by {
            if i < out_before.len() {
                assert(out@[i] == out_before[i]);
            } else {
                let j = i - out_before.len();
                assert(stations_of(all.subrange(0, k + 1))[i] == wanted[j]);
                assert(out@[out_before.len() + j] == out@[i]);
            }
        }
        proof {
            k = k + 1;
        }
    }
    assert(all.subrange(0, all.len() as int) =~= all);
    out
}

/// The stations of a prefix of the entries are a prefix of their stations.
proof fn lemma_stations_in_prefix(es: Seq<ClusterEntry>, n: int)
    requires
        0 <= n <= es.len(),
    ensures
        stations_in(es.subrange(0, n)).len() <= stations_in(es).len(),
        forall|i: int|
            0 <= i < stations_in(es.subrange(0, n)).len() ==> #[trigger] stations_in(
                es.subrange(0, n),
            )[i] == stations_in(es)[i],
    decreases es.len() - n,
{
    if n < es.len() {
        lemma_stations_in_prefix(es, n + 1);
        let p = es.subrange(0, n + 1);
        assert(p.drop_last() =~= es.subrange(0, n));
        assert forall|i: int| 0 <= i < stations_in(es.subrange(0, n)).len() implies #[trigger] stations_in(
            es.subrange(0, n),
        )[i] == stations_in(es)[i] by {
            assert(stations_in(p)[i] == stations_in(es.subrange(0, n))[i]);
        }
    } else {
        assert(es.subrange(0, n) =~= es);
    }
}

} // verus!
