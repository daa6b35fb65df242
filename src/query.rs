//! Turning a listener's request into catalog lookups, and reading what comes back.
use crate::track::{PlaylistInfo, Track, TrackError, TrackLoadData};
use lavalink_rs::error::LavalinkError;
use lavalink_rs::prelude::SearchEngines;
use vstd::prelude::*;

verus! {

#[verifier::external_type_specification]
#[verifier::external_body]
pub struct ExLavalinkError(LavalinkError);

/// Why a lookup gave no usable tracks.
#[derive(Clone, Debug)]
pub enum SearchError {
    /// The search term was empty.
    EmptyTerm,
    /// The lookup service refused to build a query for the term.
    QueryRejected,
    /// The catalog reported a failure.
    ProviderError(TrackError),
    /// A search was asked for, and something other than a result list came back.
    UnexpectedResultShape,
    /// A direct lookup found nothing.
    NoMatches,
    /// A search came back empty where one track was needed.
    NoSearchResults,
}

/// The catalogs that take a plain search term.
#[derive(Clone, Copy, PartialEq, Eq, Structural, Debug)]
pub enum SearchProvider {
    YouTube,
    YouTubeMusic,
    SoundCloud,
    Spotify,
    AppleMusic,
    Deezer,
    DeezerIsrc,
    YandexMusic,
}

/// The catalog searched when a request names none.
pub const DEFAULT_SEARCH_PROVIDER: SearchProvider = SearchProvider::YouTube;

/// The catalogs asked, all at once, for alternatives and for listener searches.
pub fn preferred_search_providers() -> (r: Vec<SearchProvider>)
    ensures
        r@ == seq![SearchProvider::YouTube, SearchProvider::Deezer, SearchProvider::SoundCloud],
{
    vec![SearchProvider::YouTube, SearchProvider::Deezer, SearchProvider::SoundCloud]
}

/// The prefix under which the lookup service searches a catalog.
pub open spec fn provider_prefix(p: SearchProvider) -> Seq<char> {
    match p {
        SearchProvider::YouTube => "ytsearch"@,
        SearchProvider::YouTubeMusic => "ytmsearch"@,
        SearchProvider::SoundCloud => "scsearch"@,
        SearchProvider::Spotify => "spsearch"@,
        SearchProvider::AppleMusic => "amsearch"@,
        SearchProvider::Deezer => "dzsearch"@,
        SearchProvider::DeezerIsrc => "dzisrc"@,
        SearchProvider::YandexMusic => "ymsearch"@,
    }
}

/// Relies on lavalink_rs's `SearchEngines::to_query`: for engines without
/// parameters it returns `Ok` of the engine's prefix, a colon, and the term.
#[verifier::external_body]
fn engine_query(provider: SearchProvider, term: &str) -> (r: Result<String, LavalinkError>)
    ensures
        r is Ok,
        r->Ok_0@ == provider_prefix(provider) + seq![':'] + term@,
{
    let engine = match provider {
        SearchProvider::YouTube => SearchEngines::YouTube,
        SearchProvider::YouTubeMusic => SearchEngines::YouTubeMusic,
        SearchProvider::SoundCloud => SearchEngines::SoundCloud,
        SearchProvider::Spotify => SearchEngines::Spotify,
        SearchProvider::AppleMusic => SearchEngines::AppleMusic,
        SearchProvider::Deezer => SearchEngines::Deezer,
        SearchProvider::DeezerIsrc => SearchEngines::DeezerISRC,
        SearchProvider::YandexMusic => SearchEngines::YandexMusic,
    };
    engine.to_query(term)
}

/// The query string that searches `provider` for `term`.
pub fn provider_query(term: &str, provider: SearchProvider) -> (r: Result<String, SearchError>)
    ensures
        term@.len() == 0 <==> r matches Err(SearchError::EmptyTerm),
        term@.len() > 0 ==> (r matches Ok(q) && q@ == provider_prefix(provider) + seq![':'] + term@),
{
    if term.is_empty() {
        return Err(SearchError::EmptyTerm);
    }
    match engine_query(provider, term) {
        Ok(q) => Ok(q),
        Err(_) => Err(SearchError::QueryRejected),
    }
}

/// The whitespace that splits a request into words.
pub open spec fn is_ascii_ws(c: char) -> bool {
    c == ' ' || c == '\t' || c == '\n' || c == '\x0C' || c == '\r'
}

/// A colon stands in the first word of `s`.
pub open spec fn first_word_has_colon(s: Seq<char>) -> bool {
    exists|p: int|
        0 <= p < s.len() && s[p] == ':' && forall|b: int|
            0 <= b < p && is_ascii_ws(#[trigger] s[b]) ==> forall|a: int|
                0 <= a < b ==> is_ascii_ws(#[trigger] s[a])
}

pub open spec fn has_prefix(s: Seq<char>, prefix: Seq<char>) -> bool {
    prefix.len() <= s.len() && s.subrange(0, prefix.len() as int) == prefix
}

/// A request that names its own search prefix, such as `scsearch:...`,
/// rather than a web address or a mix.
pub open spec fn is_search_query_spec(term: Seq<char>) -> bool {
    first_word_has_colon(term) && !has_prefix(term, "http"@) && !has_prefix(term, "mix:"@)
}

fn is_ws(c: char) -> (r: bool)
    ensures
        r == is_ascii_ws(c),
{
    c == ' ' || c == '\t' || c == '\n' || c == '\x0C' || c == '\r'
}

fn starts_with(s: &str, prefix: &str) -> (r: bool)
    ensures
        r == has_prefix(s@, prefix@),
{
    let n = s.unicode_len();
    let m = prefix.unicode_len();
    if m > n {
        return false;
    }
    let mut i: usize = 0;
    while i < m
        invariant
            m == prefix@.len(),
            n == s@.len(),
            m <= n,
            i <= m,
            forall|k: int| 0 <= k < i ==> s@[k] == prefix@[k],
        decreases m - i,
    {
        if s.get_char(i) != prefix.get_char(i) {
            assert(s@.subrange(0, m as int)[i as int] != prefix@[i as int]);
            return false;
        }
        i = i + 1;
    }
    assert(s@.subrange(0, m as int) =~= prefix@);
    true
}

fn first_word_colon(s: &str) -> (r: bool)
    ensures
        r == first_word_has_colon(s@),
{
    let n = s.unicode_len();
    let mut seen_word = false;
    let mut i: usize = 0;
    while i < n
        invariant
            n == s@.len(),
            i <= n,
            forall|k: int| 0 <= k < i ==> s@[k] != ':',
            !seen_word ==> forall|k: int| 0 <= k < i ==> is_ascii_ws(#[trigger] s@[k]),
            seen_word ==> exists|k: int| 0 <= k < i && !is_ascii_ws(#[trigger] s@[k]),
            forall|b: int|
                0 <= b < i && is_ascii_ws(#[trigger] s@[b]) ==> forall|a: int|
                    0 <= a < b ==> is_ascii_ws(#[trigger] s@[a]),
        decreases n - i,
    {
        let c = s.get_char(i);
        if is_ws(c) {
            if seen_word {
                proof {
                    let w = choose|k: int| 0 <= k < i && !is_ascii_ws(s@[k]);
                    assert forall|p: int| 0 <= p < s@.len() && s@[p] == ':' implies !(forall|b: int|
                        0 <= b < p && is_ascii_ws(#[trigger] s@[b]) ==> forall|a: int|
                            0 <= a < b ==> is_ascii_ws(#[trigger] s@[a])) by {
                        assert(p > i);
                        assert(is_ascii_ws(s@[i as int]));
                        assert(!is_ascii_ws(s@[w]));
                    }
                }
                return false;
            }
        } else if c == ':' {
            assert(s@[i as int] == ':');
            return true;
        } else {
            seen_word = true;
        }
        i = i + 1;
    }
    false
}

/// Whether a request names its own search prefix, such as `scsearch:...`;
/// web addresses and mixes do not count.
pub fn is_search_query(term: &str) -> (r: bool)
    ensures
        r == is_search_query_spec(term@),
{
    proof {
        reveal_strlit("http");
        reveal_strlit("mix:");
    }
    let has_colon = first_word_colon(term);
    let known_prefix = starts_with(term, "http") || starts_with(term, "mix:");
    has_colon && !known_prefix
}

/// An explicit reference to a track: a web address or a mix identifier.
/// Anything else, plain words included, is a search.
pub open spec fn is_direct_query_spec(term: Seq<char>) -> bool {
    has_prefix(term, "http"@) || has_prefix(term, "mix:"@)
}

/// Whether a request names a track explicitly, by web address or mix
/// identifier, rather than searching for it with words.
pub fn is_direct_query(term: &str) -> (r: bool)
    ensures
        r == is_direct_query_spec(term@),
{
    proof {
        reveal_strlit("http");
        reveal_strlit("mix:");
    }
    starts_with(term, "http") || starts_with(term, "mix:")
}

/// How a request is to be looked up.
#[derive(Clone, Debug)]
pub enum LoadRequest {
    /// Search this query string.
    Search(String),
    /// Look the request up as it stands.
    Direct,
}

/// Decides how a listener's request is looked up: a request naming a search
/// prefix is searched on the default catalog, anything else directly.
pub fn plan_load(term: &str) -> (r: Result<LoadRequest, SearchError>)
    ensures
        !is_search_query_spec(term@) ==> r matches Ok(LoadRequest::Direct),
        is_search_query_spec(term@) ==> (r matches Ok(LoadRequest::Search(q)) && q@
            == provider_prefix(DEFAULT_SEARCH_PROVIDER) + seq![':'] + term@),
{
    if is_search_query(term) {
        match provider_query(term, DEFAULT_SEARCH_PROVIDER) {
            Ok(q) => Ok(LoadRequest::Search(q)),
            Err(e) => Err(e),
        }
    } else {
        Ok(LoadRequest::Direct)
    }
}

/// Turns a catalog's failure into an error and passes anything else on.
pub fn raise_for_load_type(data: Option<TrackLoadData>) -> (r: Result<
    Option<TrackLoadData>,
    SearchError,
>)
    ensures
        data matches Some(TrackLoadData::Error(e)) ==> r == Err::<Option<TrackLoadData>, SearchError>(
            SearchError::ProviderError(e),
        ),
        !(data matches Some(TrackLoadData::Error(_))) ==> r == Ok::<
            Option<TrackLoadData>,
            SearchError,
        >(data),
{
    match data {
        Some(TrackLoadData::Error(e)) => Err(SearchError::ProviderError(e)),
        other => Ok(other),
    }
}

/// The tracks of a search: a result list as it came, nothing for no answer,
/// the catalog's failure, or an error for any other kind of answer.
pub fn search_outcome(data: Option<TrackLoadData>) -> (r: Result<Vec<Track>, SearchError>)
    ensures
        data is None ==> (r matches Ok(v) && v@.len() == 0),
        data matches Some(TrackLoadData::Search(v)) ==> r == Ok::<Vec<Track>, SearchError>(v),
        data matches Some(TrackLoadData::Error(e)) ==> r == Err::<Vec<Track>, SearchError>(
            SearchError::ProviderError(e),
        ),
        data matches Some(TrackLoadData::Track(_)) ==> r matches Err(
            SearchError::UnexpectedResultShape,
        ),
        data matches Some(TrackLoadData::Playlist(_)) ==> r matches Err(
            SearchError::UnexpectedResultShape,
        ),
{
    match raise_for_load_type(data) {
        Err(e) => Err(e),
        Ok(None) => Ok(Vec::new()),
        Ok(Some(TrackLoadData::Search(v))) => Ok(v),
        Ok(Some(_)) => Err(SearchError::UnexpectedResultShape),
    }
}

/// The answer to a direct lookup: a catalog failure or no answer at all is an error.
pub fn direct_outcome(data: Option<TrackLoadData>) -> (r: Result<TrackLoadData, SearchError>)
    ensures
        data is None ==> r matches Err(SearchError::NoMatches),
        data matches Some(TrackLoadData::Error(e)) ==> r == Err::<TrackLoadData, SearchError>(
            SearchError::ProviderError(e),
        ),
        (data matches Some(d) && !(d is Error)) ==> r == Ok::<TrackLoadData, SearchError>(
            data.unwrap(),
        ),
{
    match raise_for_load_type(data) {
        Err(e) => Err(e),
        Ok(None) => Err(SearchError::NoMatches),
        Ok(Some(d)) => Ok(d),
    }
}

/// The tracks a play request queues, and the playlist they came from.
#[derive(Clone, Debug)]
pub struct Selection {
    pub tracks: Vec<Track>,
    pub playlist: Option<PlaylistInfo>,
}

/// What a play request queues: a single track, the first search result, or a
/// whole playlist.
pub fn select_tracks(data: TrackLoadData) -> (r: Result<Selection, SearchError>)
    ensures
        data matches TrackLoadData::Track(t) ==> (r matches Ok(s) && s.tracks@ == seq![t]
            && s.playlist is None),
        data matches TrackLoadData::Search(v) ==> (v@.len() == 0 <==> r matches Err(
            SearchError::NoSearchResults,
        )),
        data matches TrackLoadData::Search(v) ==> (v@.len() > 0 ==> (r matches Ok(s) && s.tracks@
            == seq![v@[0]] && s.playlist is None)),
        data matches TrackLoadData::Playlist(p) ==> (r matches Ok(s) && s.tracks == p.tracks
            && s.playlist == Some(p.info)),
        data matches TrackLoadData::Error(e) ==> r == Err::<Selection, SearchError>(
            SearchError::ProviderError(e),
        ),
{
    match data {
        TrackLoadData::Track(t) => Ok(Selection { tracks: vec![t], playlist: None }),
        TrackLoadData::Search(v) => {
            let mut v = v;
            if v.len() == 0 {
                Err(SearchError::NoSearchResults)
            } else {
                let first = v.remove(0);
                Ok(Selection { tracks: vec![first], playlist: None })
            }
        },
        TrackLoadData::Playlist(p) => Ok(Selection { tracks: p.tracks, playlist: Some(p.info) }),
        TrackLoadData::Error(e) => Err(SearchError::ProviderError(e)),
    }
}

} // verus!
