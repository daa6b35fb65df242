use playback_core::matcher::{search_queries_from_track, AlternativeSearch, TitleGuess};
use playback_core::query::SearchError;
use playback_core::ranking::rank_candidates;
use playback_core::scoring::{
    duration_penalty_millis, score_alternatives, score_track, ScoredTrack, PENALTY_CEILING,
};
use playback_core::track::{Track, TrackError, TrackInfo};

fn info(id: &str, source: &str, length: u64, isrc: Option<&str>) -> TrackInfo {
    TrackInfo {
        identifier: id.to_string(),
        is_seekable: true,
        author: "Artist".to_string(),
        length,
        is_stream: false,
        position: 0,
        title: format!("Title {id}"),
        uri: Some(format!("https://example.com/{id}")),
        artwork_url: None,
        isrc: isrc.map(|s| s.to_string()),
        source_name: source.to_string(),
    }
}

fn track(i: TrackInfo) -> Track {
    Track { encoded: format!("enc-{}", i.identifier), info: i }
}

fn scored(score: i128, id: &str, uri: Option<&str>) -> ScoredTrack {
    let mut i = info(id, "youtube", 1000, None);
    i.uri = uri.map(|u| u.to_string());
    ScoredTrack { score, track: track(i) }
}

#[test]
fn duration_penalty_is_zero_within_grace() {
    assert_eq!(duration_penalty_millis(0), 0);
    assert_eq!(duration_penalty_millis(300), 0);
}

#[test]
fn duration_penalty_exact_values() {
    assert_eq!(duration_penalty_millis(301), 623);
    assert_eq!(duration_penalty_millis(1000), 2000);
    assert_eq!(duration_penalty_millis(5000), 8190);
    assert_eq!(duration_penalty_millis(10000), 13027);
    assert_eq!(duration_penalty_millis(40000), 19705);
}

#[test]
fn duration_penalty_grows_and_stays_bounded() {
    let mut last = 0;
    for d in (0..600_000u64).step_by(997) {
        let p = duration_penalty_millis(d);
        assert!(p >= last);
        assert!(p <= PENALTY_CEILING);
        last = p;
    }
    assert_eq!(duration_penalty_millis(u64::MAX), PENALTY_CEILING);
}

#[test]
fn score_track_exact_value() {
    let original = info("orig", "youtube", 180_000, Some("US1234"));
    let candidate = info("cand", "deezer", 181_000, Some("US1234"));
    // 50 + 20 (code) + 0.5 (deezer) - 2 (one second) - 2 * 3 * 0.5 (rank two)
    assert_eq!(score_track(&candidate, &original, 2), 50_000 + 20_000 + 500 - 2000 - 3000);
}

#[test]
fn isrc_bonus_applies_once() {
    let original = info("orig", "youtube", 200_000, Some("GB0001"));
    let with_code = info("a", "soundcloud", 200_000, Some("GB0001"));
    let without_code = info("b", "soundcloud", 200_000, None);
    let other_code = info("c", "soundcloud", 200_000, Some("GB0002"));
    let a = score_track(&with_code, &original, 0);
    assert_eq!(a - score_track(&without_code, &original, 0), 20_000);
    assert_eq!(a - score_track(&other_code, &original, 0), 20_000);
}

#[test]
fn no_isrc_bonus_when_both_missing() {
    let original = info("orig", "youtube", 200_000, None);
    let candidate = info("a", "soundcloud", 200_000, None);
    assert_eq!(score_track(&candidate, &original, 0), 50_000);
}

#[test]
fn same_source_and_position_penalties() {
    let original = info("orig", "youtube", 200_000, None);
    let candidate = info("a", "youtube", 200_000, None);
    assert_eq!(score_track(&candidate, &original, 0), 47_000);
    assert_eq!(score_track(&candidate, &original, 4), 47_000 - 4 * 500);
    let sc = info("s", "soundcloud", 200_000, None);
    assert_eq!(score_track(&sc, &original, 3), 50_000 - 3 * 2 * 500);
}

#[test]
fn isrc_match_ranks_above_same_source_long_track() {
    let original = info("orig", "A", 180_000, Some("ISRC1"));
    let x = track(info("x", "B", 181_000, Some("ISRC1")));
    let y = track(info("y", "A", 220_000, None));
    let scored = score_alternatives(vec![vec![x], vec![y]], &original);
    assert_eq!(scored.len(), 2);
    assert_eq!(scored[0].score, 68_000);
    assert_eq!(scored[1].score, 50_000 - 3_000 - 19_705);
    let ranked = rank_candidates(scored);
    assert_eq!(ranked[0].track.info.identifier, "x");
    assert_eq!(ranked[1].track.info.identifier, "y");
    assert!(ranked[0].score > ranked[1].score);
}

#[test]
fn score_alternatives_skips_the_original() {
    let original = info("orig", "youtube", 180_000, None);
    let copy = track(original.clone());
    let other = track(info("o", "youtube", 180_000, None));
    let scored = score_alternatives(vec![vec![copy, other]], &original);
    assert_eq!(scored.len(), 1);
    assert_eq!(scored[0].track.info.identifier, "o");
    // The copy left out, the other result counts as rank zero.
    assert_eq!(scored[0].score, 47_000);
}

#[test]
fn duplicate_keys_keep_higher_score() {
    let ranked = rank_candidates(vec![
        scored(1_000, "a", Some("u1")),
        scored(9_000, "b", Some("u1")),
        scored(5_000, "c", Some("u2")),
    ]);
    assert_eq!(ranked.len(), 2);
    assert_eq!(ranked[0].score, 9_000);
    assert_eq!(ranked[0].track.info.identifier, "b");
    assert_eq!(ranked[1].score, 5_000);
}

#[test]
fn duplicate_identifier_without_uri() {
    let ranked = rank_candidates(vec![
        scored(-3_000, "same", None),
        scored(-1_000, "same", None),
        scored(-2_000, "other", None),
    ]);
    assert_eq!(ranked.len(), 2);
    assert_eq!(ranked[0].score, -1_000);
    assert_eq!(ranked[1].track.info.identifier, "other");
}

#[test]
fn rank_of_empty_is_empty() {
    assert!(rank_candidates(vec![]).is_empty());
}

#[test]
fn failing_provider_is_dropped() {
    let original = info("orig", "youtube", 180_000, None);
    let mut search = AlternativeSearch::new(original, &"ytsearch:song".to_string(), &vec![]);
    assert_eq!(search.next_query(), Some("ytsearch:song".to_string()));
    let err = SearchError::ProviderError(TrackError {
        message: "down".to_string(),
        severity: "fault".to_string(),
        cause: "timeout".to_string(),
    });
    let tracks = vec![
        track(info("t1", "deezer", 180_000, None)),
        track(info("t2", "deezer", 180_000, None)),
        track(info("t3", "deezer", 180_000, None)),
    ];
    search.add_results(vec![Err(err), Ok(tracks)]);
    assert_eq!(search.scored.len(), 3);
    let ranked = search.finish();
    assert_eq!(ranked.len(), 3);
    assert_eq!(ranked[0].track.info.identifier, "t1");
}

#[test]
fn search_stops_on_good_score() {
    let original = info("orig", "youtube", 180_000, None);
    let guesses = vec![
        TitleGuess { confidence: 5_000, author: "A".to_string(), title: "One".to_string() },
        TitleGuess { confidence: 4_000, author: "B".to_string(), title: "Two".to_string() },
    ];
    let mut search = AlternativeSearch::new(original, &"https://youtu.be/x".to_string(), &guesses);
    assert_eq!(search.queries, vec!["A One".to_string(), "B Two".to_string()]);
    // The last stored query is searched first.
    assert_eq!(search.next_query(), Some("B Two".to_string()));
    search.add_results(vec![Ok(vec![])]);
    assert_eq!(search.next_query(), Some("A One".to_string()));
    search.add_results(vec![Ok(vec![track(info("far", "youtube", 900_000, None))])]);
    // 50 - 3 (same catalog) - 20 (length) is far above the bar of -5.
    assert_eq!(search.scored[0].score, 27_000);
    assert_eq!(search.next_query(), None);
}

#[test]
fn search_ends_when_queries_run_out() {
    let original = info("orig", "youtube", 180_000, None);
    let mut search = AlternativeSearch::new(original, &"scsearch:x".to_string(), &vec![]);
    assert!(search.next_query().is_some());
    search.add_results(vec![Ok(vec![])]);
    assert_eq!(search.next_query(), None);
    assert!(search.finish().is_empty());
}

#[test]
fn queries_from_trusted_metadata() {
    let mut i = info("d", "deezer", 1, None);
    i.author = "Daft Punk".to_string();
    i.title = "One More Time".to_string();
    let q = search_queries_from_track(&i, &vec![]);
    assert_eq!(q, vec!["Daft Punk One More Time".to_string()]);
}

#[test]
fn queries_from_guesses_filter_and_limit() {
    let i = info("y", "youtube", 1, None);
    let g = |c: i64, a: &str, t: &str| TitleGuess {
        confidence: c,
        author: a.to_string(),
        title: t.to_string(),
    };
    let guesses = vec![
        g(10_000, "a1", "t1"),
        g(-100_000, "low", "x"),
        g(-99_999, "a2", "t2"),
        g(0, "a3", "t3"),
        g(7, "a4", "t4"),
    ];
    let q = search_queries_from_track(&i, &guesses);
    assert_eq!(q, vec!["a1 t1".to_string(), "a2 t2".to_string(), "a3 t3".to_string()]);
}

#[test]
fn plain_words_request_is_searched_as_written() {
    let original = info("orig", "deezer", 180_000, None);
    let search = AlternativeSearch::new(original, &"a b".to_string(), &vec![]);
    assert_eq!(search.queries, vec!["a b".to_string()]);
}

#[test]
fn score_alternatives_sorts_best_first() {
    let original = info("orig", "youtube", 180_000, Some("CODE"));
    let plain = track(info("p", "soundcloud", 180_000, None));
    let coded = track(info("c", "soundcloud", 180_000, Some("CODE")));
    let scored = score_alternatives(vec![vec![plain, coded]], &original);
    assert_eq!(scored[0].track.info.identifier, "c");
    assert_eq!(scored[0].score, 50_000 + 20_000 - 1_000);
    assert_eq!(scored[1].score, 50_000);
}
