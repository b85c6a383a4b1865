//! SkyJam search: the request URL and the shapes of the search reply.

#![allow(non_snake_case)]

use vstd::prelude::*;
use crate::form::{fields_of, join_amp, nonempty_values, pair_views, query_string};
use crate::text::{decimal, push_decimal};

verus! {

/// What to search for.
pub struct SearchParams<'a> {
    pub max_results: usize,
    pub query: &'a str,
    pub categories: &'a [u8],
}

/// The numbers in decimal, joined with `,`.
pub open spec fn comma_list(cs: Seq<u8>) -> Seq<char>
    decreases cs.len(),
{
    if cs.len() == 0 {
        seq![]
    } else if cs.len() == 1 {
        decimal(cs[0] as nat)
    } else {
        comma_list(cs.drop_last()) + seq![','] + decimal(cs.last() as nat)
    }
}

/// The query fields of a search, in order (before encoding; empty values
/// are left out of the URL).
pub open spec fn search_params(max_results: Seq<char>, q: Seq<char>, cts: Seq<char>) -> Seq<
    (Seq<char>, Seq<char>),
> {
    seq![
        ("max-results"@, max_results),
        ("q"@, q),
        ("ic"@, "true"@),
        ("ct"@, cts),
        ("dv"@, "0"@),
        ("hl"@, "en"@),
        ("tier"@, "aa"@),
    ]
}

/// The search endpoint followed by `?`.
pub open spec fn search_endpoint() -> Seq<char> {
    "https://www.googleapis.com/sj/v2.5/query?"@
}

/// The categories in decimal, joined with `,`.
pub fn categories_text(cs: &[u8]) -> (r: String)
    ensures
        r@ == comma_list(cs@),
{
    let mut s = String::new();
    let mut i: usize = 0;
    while i < cs.len()
        invariant
            i <= cs@.len(),
            s@ == comma_list(cs@.subrange(0, i as int)),
        decreases cs@.len() - i,
    {
        proof {
            reveal_strlit(",");
        }
        if i > 0 {
            s.append(",");
        }
        push_decimal(&mut s, cs[i] as u64);
        let ghost next = cs@.subrange(0, i + 1);
        assert(next.drop_last() =~= cs@.subrange(0, i as int));
        i = i + 1;
        assert(s@ =~= comma_list(cs@.subrange(0, i as int)));
    }
    assert(cs@.subrange(0, cs@.len() as int) =~= cs@);
    s
}

/// The URL of a search request.
pub fn search_url(params: &SearchParams) -> (r: String)
    ensures
        r@ == search_endpoint() + join_amp(
            fields_of(
                nonempty_values(
                    search_params(
                        decimal(params.max_results as nat),
                        params.query@,
                        comma_list(params.categories@),
                    ),
                ),
            ),
        ),
{
    let cts = categories_text(params.categories);
    let mut max_results = String::new();
    push_decimal(&mut max_results, params.max_results as u64);
    let pairs = vec![
        ("max-results", max_results.as_str()),
        ("q", params.query),
        ("ic", "true"),
        ("ct", cts.as_str()),
        ("dv", "0"),
        ("hl", "en"),
        ("tier", "aa"),
    ];
    assert(pair_views(pairs@) =~= search_params(max_results@, params.query@, cts@));
    let mut url = String::from_str("https://www.googleapis.com/sj/v2.5/query?");
    let qs = query_string(pairs.as_slice());
    url.append(qs.as_str());
    url
}

/// sj#searchresponse
pub struct SearchResponse {
    pub kind: String,
    pub clusterDetail: Vec<ClusterDetail>,
}

pub struct Cluster {
    /// The `type` field.
    pub _type: String,
    pub category: String,
    pub id: String,
}

pub struct ClusterDetail {
    pub cluster: Cluster,
    pub displayName: Option<String>,
    pub resultToken: String,
    pub entries: Option<Vec<ClusterEntry>>,
}

/// An entry of a cluster, by its `type` field. Entries whose content is not
/// read hold it as JSON text.
pub enum ClusterEntry {
    /// type 1
    Track(TrackEntry),
    /// type 2
    Artist(ArtistEntry),
    /// type 3
    Album(AlbumEntry),
    /// type 4
    Playlist(String),
    /// type 5
    Genre(String),
    /// type 6
    Station(StationEntry),
    /// type 7
    Situation(String),
    /// type 8
    Video(VideoEntry),
}

/// type: 1
pub struct TrackEntry {
    pub track: Track,
    pub cluster: Vec<Cluster>,
}

/// sj#imageRef
pub struct ImageRef {
    pub kind: String,
    pub url: String,
    pub aspectRatio: String,
    pub autogen: bool,
}

pub struct Track {
    pub kind: String,
    pub title: String,
    pub artist: String,
    pub composer: String,
    pub album: String,
    pub albumArtist: String,
    pub year: i64,
    pub trackNumber: i64,
    pub genre: String,
    pub durationMillis: String,
    pub albumArtRef: Vec<ImageRef>,
    pub discNumber: i64,
    pub estimatedSize: String,
    pub trackType: String,
    pub storeId: String,
    pub albumId: String,
    pub artistId: Vec<String>,
    pub nid: String,
    pub trackAvailableForSubscription: bool,
    pub trackAvailableForPurchase: bool,
    pub albumAvailableForPurchase: bool,
    pub explicitType: String,
}

/// type: 2
pub struct ArtistEntry {
    pub artist: Artist,
    pub cluster: Vec<Cluster>,
}

pub struct Artist {
    pub kind: String,
    pub name: String,
    pub artistArtRef: String,
    pub artistArtRefs: Vec<ImageRef>,
    pub artistId: String,
}

/// type: 3
pub struct AlbumEntry {
    pub album: Album,
    pub cluster: Vec<Cluster>,
}

pub struct Album {
    pub kind: String,
    pub name: String,
    pub albumArtist: String,
    pub albumArtRef: String,
    pub albumId: String,
    pub artist: String,
    pub artistId: Vec<String>,
    pub year: i64,
    pub explicitType: String,
}

/// type: 6
pub struct StationEntry {
    pub station: Station,
    pub cluster: Vec<Cluster>,
}

pub struct CompositeArtRefs {
    pub kind: String,
    pub url: String,
    pub aspectRatio: String,
}

/// sj#radioSeed
pub struct RadioSeed {
    pub kind: String,
    pub curatedStationId: Option<String>,
    pub artistId: Option<String>,
    pub trackId: Option<String>,
    pub seedType: String,
}

pub struct Station {
    pub kind: String,
    pub name: String,
    pub description: Option<String>,
    pub seed: RadioSeed,
    pub stationSeeds: Vec<RadioSeed>,
    pub imageUrls: Vec<ImageRef>,
    pub compositeArtRefs: Option<Vec<CompositeArtRefs>>,
    /// The history entries, as JSON text.
    pub skipEventHistory: Vec<String>,
    pub contentTypes: Option<Vec<String>>,
    pub byline: Option<String>,
}

/// type: 8
pub struct VideoEntry {
    pub youtube_video: YoutubeVideo,
    /// The bits of the `f64` score (`f64::to_bits`).
    pub score_bits: u64,
    pub cluster: Vec<Cluster>,
}

pub struct Thumbnails {
    pub url: String,
    pub width: i64,
    pub height: i64,
}

pub struct YoutubeVideo {
    pub kind: String,
    pub id: String,
    pub title: String,
    pub thumbnails: Vec<Thumbnails>,
}

} // verus!
