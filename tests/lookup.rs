use playback_core::display::{format_millis, source_to_color, source_to_emoji};
use playback_core::query::{
    direct_outcome, is_direct_query, is_search_query, plan_load, preferred_search_providers,
    provider_query, raise_for_load_type, search_outcome, select_tracks, LoadRequest, SearchError,
    SearchProvider,
};
use playback_core::recovery::{after_search, after_stop, skips_after, RecoveryAction};
use playback_core::scoring::ScoredTrack;
use playback_core::track::{
    PlaylistData, PlaylistInfo, Track, TrackError, TrackInfo, TrackLoadData, TrackUserData,
};

fn track(id: &str) -> Track {
    Track {
        encoded: format!("enc-{id}"),
        info: TrackInfo {
            identifier: id.to_string(),
            is_seekable: true,
            author: "a".to_string(),
            length: 1,
            is_stream: false,
            position: 0,
            title: "t".to_string(),
            uri: None,
            artwork_url: None,
            isrc: None,
            source_name: "youtube".to_string(),
        },
    }
}

fn failure() -> TrackError {
    TrackError {
        message: "m".to_string(),
        severity: "common".to_string(),
        cause: "c".to_string(),
    }
}

#[test]
fn format_millis_short() {
    assert_eq!(format_millis(0), "00:00");
    assert_eq!(format_millis(61_000), "01:01");
    assert_eq!(format_millis(59_999), "00:59");
    assert_eq!(format_millis(754_000), "12:34");
}

#[test]
fn format_millis_hours() {
    assert_eq!(format_millis(3_600_000), "01:00:00");
    assert_eq!(format_millis(3_723_000), "01:02:03");
    assert_eq!(format_millis(36_000_000 * 10), "100:00:00");
}

#[test]
fn search_query_detection() {
    assert!(is_search_query("ytsearch:never gonna"));
    assert!(is_search_query("  scsearch:x y"));
    assert!(!is_search_query("https://youtube.com/watch?v=1"));
    assert!(!is_search_query("http:foo"));
    assert!(!is_search_query("mix:abc"));
    assert!(!is_search_query("plain words"));
    assert!(!is_search_query("two words:colon"));
    assert!(!is_search_query(""));
}

#[test]
fn direct_query_detection() {
    assert!(is_direct_query("https://youtube.com/watch?v=1"));
    assert!(is_direct_query("mix:abc"));
    assert!(!is_direct_query("some song"));
    assert!(!is_direct_query("a b"));
    assert!(!is_direct_query("dzsearch:song"));
    assert!(!is_direct_query(""));
}

#[test]
fn provider_query_strings() {
    assert_eq!(provider_query("abc", SearchProvider::YouTube).unwrap(), "ytsearch:abc");
    assert_eq!(provider_query("abc", SearchProvider::Deezer).unwrap(), "dzsearch:abc");
    assert_eq!(provider_query("a b", SearchProvider::SoundCloud).unwrap(), "scsearch:a b");
    assert_eq!(provider_query("x", SearchProvider::DeezerIsrc).unwrap(), "dzisrc:x");
    assert!(matches!(provider_query("", SearchProvider::YouTube), Err(SearchError::EmptyTerm)));
}

#[test]
fn preferred_providers() {
    assert_eq!(
        preferred_search_providers(),
        vec![SearchProvider::YouTube, SearchProvider::Deezer, SearchProvider::SoundCloud]
    );
}

#[test]
fn load_plan() {
    match plan_load("ytsearch:song").unwrap() {
        LoadRequest::Search(q) => assert_eq!(q, "ytsearch:ytsearch:song"),
        LoadRequest::Direct => panic!("expected a search"),
    }
    assert!(matches!(plan_load("https://x.y/z").unwrap(), LoadRequest::Direct));
}

#[test]
fn search_outcome_kinds() {
    assert!(search_outcome(None).unwrap().is_empty());
    let v = search_outcome(Some(TrackLoadData::Search(vec![track("a"), track("b")]))).unwrap();
    assert_eq!(v.len(), 2);
    assert!(matches!(
        search_outcome(Some(TrackLoadData::Track(track("a")))),
        Err(SearchError::UnexpectedResultShape)
    ));
    assert!(matches!(
        search_outcome(Some(TrackLoadData::Error(failure()))),
        Err(SearchError::ProviderError(_))
    ));
}

#[test]
fn raise_and_direct() {
    assert!(matches!(raise_for_load_type(None), Ok(None)));
    assert!(matches!(
        raise_for_load_type(Some(TrackLoadData::Error(failure()))),
        Err(SearchError::ProviderError(e)) if e.message == "m"
    ));
    assert!(matches!(direct_outcome(None), Err(SearchError::NoMatches)));
    assert!(matches!(
        direct_outcome(Some(TrackLoadData::Track(track("a")))),
        Ok(TrackLoadData::Track(t)) if t.info.identifier == "a"
    ));
}

#[test]
fn selection_of_tracks() {
    let s = select_tracks(TrackLoadData::Search(vec![track("a"), track("b")])).unwrap();
    assert_eq!(s.tracks.len(), 1);
    assert_eq!(s.tracks[0].info.identifier, "a");
    assert!(matches!(
        select_tracks(TrackLoadData::Search(vec![])),
        Err(SearchError::NoSearchResults)
    ));
    let p = PlaylistData {
        info: PlaylistInfo { name: "mix".to_string(), selected_track: None },
        tracks: vec![track("a"), track("b"), track("c")],
    };
    let s = select_tracks(TrackLoadData::Playlist(p)).unwrap();
    assert_eq!(s.tracks.len(), 3);
    assert_eq!(s.playlist.unwrap().name, "mix");
}

#[test]
fn colours_and_emoji() {
    assert_eq!(source_to_color("youtube"), 0xff0000);
    assert_eq!(source_to_color("spotify"), 0x1ED760);
    assert_eq!(source_to_color("bandcamp"), 0x23272A);
    assert_eq!(source_to_emoji("deezer"), "<:deezer:1290423677913006090>");
    assert_eq!(source_to_emoji("other"), "<:thonk:464380571628339210>");
}

#[test]
fn recovery_steps() {
    assert!(matches!(after_stop(false, true), RecoveryAction::Abort));
    assert!(matches!(after_stop(true, false), RecoveryAction::ReportFailure));
    assert!(matches!(after_stop(true, true), RecoveryAction::SearchAlternatives));
    let none = after_search(vec![]);
    assert!(matches!(none, RecoveryAction::ReportFailure));
    assert!(skips_after(&none));
    assert!(!skips_after(&RecoveryAction::Abort));
    let ranked: Vec<ScoredTrack> =
        (0..5).map(|i| ScoredTrack { score: 100 - i, track: track(&i.to_string()) }).collect();
    match after_search(ranked) {
        RecoveryAction::QueueAlternative(shown) => {
            assert_eq!(shown.len(), 3);
            assert_eq!(shown[0].score, 100);
        },
        _ => panic!("expected an alternative"),
    }
}

#[test]
fn user_data_fields() {
    let d = TrackUserData::new(42, "song".to_string(), 9);
    assert_eq!(d.requester_id, 42);
    assert_eq!(d.user_query, "song");
    assert_eq!(d.guild_id, 9);
}
