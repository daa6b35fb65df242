//! What a catalog hands back: tracks, playlists, and the outcome of a lookup.
use vstd::prelude::*;

verus! {

/// The metadata of a playable track, as a catalog describes it.
#[derive(Clone, Debug)]
pub struct TrackInfo {
    pub identifier: String,
    pub is_seekable: bool,
    pub author: String,
    /// Length in milliseconds.
    pub length: u64,
    pub is_stream: bool,
    /// Playback position in milliseconds.
    pub position: u64,
    pub title: String,
    pub uri: Option<String>,
    pub artwork_url: Option<String>,
    pub isrc: Option<String>,
    pub source_name: String,
}

/// A playable track: the engine's opaque handle and its metadata.
#[derive(Clone, Debug)]
pub struct Track {
    pub encoded: String,
    pub info: TrackInfo,
}

/// Who asked for a track, with which text, in which guild.
#[derive(Clone, Debug)]
pub struct TrackUserData {
    pub requester_id: u64,
    pub user_query: String,
    pub guild_id: u64,
}

/// A named list of tracks.
#[derive(Clone, Debug)]
pub struct PlaylistInfo {
    pub name: String,
    pub selected_track: Option<u32>,
}

#[derive(Clone, Debug)]
pub struct PlaylistData {
    pub info: PlaylistInfo,
    pub tracks: Vec<Track>,
}

/// An upstream failure, passed on as the catalog worded it.
#[derive(Clone, Debug)]
pub struct TrackError {
    pub message: String,
    pub severity: String,
    pub cause: String,
}

/// The outcome of one lookup against a catalog.
#[derive(Clone, Debug)]
pub enum TrackLoadData {
    Track(Track),
    Playlist(PlaylistData),
    Search(Vec<Track>),
    Error(TrackError),
}

pub open spec fn opt_view(o: Option<String>) -> Option<Seq<char>> {
    match o {
        Some(s) => Some(s@),
        None => None,
    }
}

/// Two descriptions of the same track, field by field.
pub open spec fn same_info(a: TrackInfo, b: TrackInfo) -> bool {
    &&& a.identifier@ == b.identifier@
    &&& a.is_seekable == b.is_seekable
    &&& a.author@ == b.author@
    &&& a.length == b.length
    &&& a.is_stream == b.is_stream
    &&& a.position == b.position
    &&& a.title@ == b.title@
    &&& opt_view(a.uri) == opt_view(b.uri)
    &&& opt_view(a.artwork_url) == opt_view(b.artwork_url)
    &&& opt_view(a.isrc) == opt_view(b.isrc)
    &&& a.source_name@ == b.source_name@
}

/// The identity under which candidates are told apart: the URI, else the identifier.
pub open spec fn track_key(t: Track) -> Seq<char> {
    match t.info.uri {
        Some(u) => u@,
        None => t.info.identifier@,
    }
}

/// Whether two texts are the same.
pub fn same_text(a: &str, b: &str) -> (r: bool)
    ensures
        r == (a@ == b@),
{
    String::from_str(a) == String::from_str(b)
}

pub fn opt_string_eq(a: &Option<String>, b: &Option<String>) -> (r: bool)
    ensures
        r == (opt_view(*a) == opt_view(*b)),
{
    match (a, b) {
        (Some(x), Some(y)) => *x == *y,
        (None, None) => true,
        _ => false,
    }
}

impl TrackInfo {
    /// Whether `other` describes this very track.
    pub fn same_as(&self, other: &TrackInfo) -> (r: bool)
        ensures
            r == same_info(*self, *other),
    {
        self.identifier == other.identifier && self.is_seekable == other.is_seekable
            && self.author == other.author && self.length == other.length
            && self.is_stream == other.is_stream && self.position == other.position
            && self.title == other.title && opt_string_eq(&self.uri, &other.uri)
            && opt_string_eq(&self.artwork_url, &other.artwork_url)
            && opt_string_eq(&self.isrc, &other.isrc)
            && self.source_name == other.source_name
    }
}

impl Track {
    /// The URI of the track, or its identifier where it has none.
    pub fn key(&self) -> (r: &String)
        ensures
            r@ == track_key(*self),
    {
        match &self.info.uri {
            Some(u) => u,
            None => &self.info.identifier,
        }
    }
}

impl TrackUserData {
    pub fn new(requester_id: u64, user_query: String, guild_id: u64) -> (r: TrackUserData)
        ensures
            r.requester_id == requester_id,
            r.user_query == user_query,
            r.guild_id == guild_id,
    {
        TrackUserData { requester_id, user_query, guild_id }
    }
}

} // verus!
