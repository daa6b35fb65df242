//! Finding a replacement for a track that failed to play.
//!
//! The search runs as a conversation: the matcher names the next query, the
//! caller searches the preferred catalogs for it and hands back what each
//! returned, until the matcher has a good enough candidate or no query left.
use crate::query::{is_direct_query, is_direct_query_spec, SearchError};
use crate::ranking::{is_ranking_of, lemma_ranking_orders_by_score, rank_candidates, sorted_desc};
use crate::scoring::{
    lemma_isrc_match_outscores_long_same_source, score_alternatives, score_of, scored_batch,
    shares_isrc, ScoredTrack,
};
use crate::track::{same_text, track_key, Track, TrackInfo};
use vstd::prelude::*;

verus! {

/// A guess at the artist and title behind a track's metadata, with the
/// guesser's confidence in thousandths.
#[derive(Clone, Debug)]
pub struct TitleGuess {
    pub confidence: i64,
    pub author: String,
    pub title: String,
}

/// Guesses at or below this confidence are not searched.
pub const MIN_GUESS_CONFIDENCE: i64 = -100_000;

/// At most this many guesses are searched.
pub const MAX_GUESS_QUERIES: usize = 3;

/// The search stops once a candidate scores at least this much.
pub const GOOD_ENOUGH_SCORE: i128 = -5_000;

pub open spec fn joined(author: Seq<char>, title: Seq<char>) -> Seq<char> {
    author + seq![' '] + title
}

pub open spec fn string_views(v: Seq<String>) -> Seq<Seq<char>> {
    v.map_values(|s: String| s@)
}

/// The guesses confident enough to search, in their order.
pub open spec fn confident_guesses(gs: Seq<TitleGuess>) -> Seq<TitleGuess>
    decreases gs.len(),
{
    if gs.len() == 0 {
        Seq::empty()
    } else {
        let rest = confident_guesses(gs.drop_last());
        if gs.last().confidence > MIN_GUESS_CONFIDENCE {
            rest.push(gs.last())
        } else {
            rest
        }
    }
}

pub open spec fn first_guess_queries(c: Seq<TitleGuess>) -> Seq<Seq<char>> {
    let n = if c.len() < MAX_GUESS_QUERIES {
        c.len() as int
    } else {
        MAX_GUESS_QUERIES as int
    };
    c.take(n).map_values(|g: TitleGuess| joined(g.author@, g.title@))
}

/// Catalogs whose metadata is reliable enough to search as it stands.
pub open spec fn trusts_metadata(info: TrackInfo) -> bool {
    info.source_name@ == "deezer"@ || info.source_name@ == "spotify"@
}

/// The queries derived from a track's metadata.
pub open spec fn track_queries(info: TrackInfo, guesses: Seq<TitleGuess>) -> Seq<Seq<char>> {
    if trusts_metadata(info) {
        seq![joined(info.author@, info.title@)]
    } else {
        first_guess_queries(confident_guesses(guesses))
    }
}

/// The queries tried for a failed track, in the order they are stored; the
/// last is searched first. A track asked for by address is searched for by
/// its metadata, one asked for with words by those words alone.
pub open spec fn candidate_queries(
    info: TrackInfo,
    user_query: Seq<char>,
    guesses: Seq<TitleGuess>,
) -> Seq<Seq<char>> {
    if is_direct_query_spec(user_query) {
        track_queries(info, guesses)
    } else {
        seq![user_query]
    }
}

fn join_words(author: &String, title: &String) -> (r: String)
    ensures
        r@ == joined(author@, title@),
{
    let mut s = author.clone();
    proof {
        reveal_strlit(" ");
    }
    s.append(" ");
    s.append(title.as_str());
    proof {
        assert(s@ =~= joined(author@, title@));
    }
    s
}

/// Search strings for a track: its artist and title as they stand for catalogs
/// with reliable metadata, else the first few confident guesses.
pub fn search_queries_from_track(info: &TrackInfo, guesses: &Vec<TitleGuess>) -> (r: Vec<String>)
    ensures
        string_views(r@) == track_queries(*info, guesses@),
{
    if same_text(info.source_name.as_str(), "deezer") || same_text(info.source_name.as_str(), "spotify") {
        let q = join_words(&info.author, &info.title);
        let r = vec![q];
        proof {
            assert(string_views(r@) =~= seq![joined(info.author@, info.title@)]);
        }
        return r;
    }
    let ghost gs = guesses@;
    let mut out: Vec<String> = Vec::new();
    let mut i: usize = 0;
    while i < guesses.len()
        invariant
            gs == guesses@,
            i <= gs.len(),
            string_views(out@) == first_guess_queries(confident_guesses(gs.subrange(0, i as int))),
        decreases gs.len() - i,
    {
        let g = &guesses[i];
        let ghost prefix = gs.subrange(0, i as int);
        let ghost next = gs.subrange(0, i + 1);
        proof {
            assert(next.drop_last() =~= prefix);
        }
        if g.confidence > MIN_GUESS_CONFIDENCE {
            let ghost c = confident_guesses(prefix);
            assert(string_views(out@).len() == out@.len());
            assert(confident_guesses(next) == c.push(*g));
            if out.len() < MAX_GUESS_QUERIES {
                let q = join_words(&g.author, &g.title);
                assert(c.len() < MAX_GUESS_QUERIES);
                let ghost old_out = out@;
                out.push(q);
                proof {
                    assert(string_views(out@) =~= string_views(old_out).push(q@));
                    assert(c.take(c.len() as int) =~= c);
                    assert(c.push(*g).take(c.len() + 1 as int) =~= c.push(*g));
                    assert(first_guess_queries(c.push(*g)) =~= first_guess_queries(c).push(
                        joined(g.author@, g.title@),
                    ));
                }
            } else {
                proof {
                    assert(first_guess_queries(confident_guesses(next)) =~= first_guess_queries(c));
                }
            }
        }
        i = i + 1;
    }
    proof {
        assert(gs.subrange(0, i as int) =~= gs);
    }
    out
}

/// The result lists of the catalogs that answered, in order; failures are left out.
pub open spec fn ok_lists(results: Seq<Result<Vec<Track>, SearchError>>) -> Seq<Vec<Track>>
    decreases results.len(),
{
    if results.len() == 0 {
        Seq::empty()
    } else {
        let rest = ok_lists(results.drop_last());
        match results.last() {
            Ok(v) => rest.push(v),
            Err(_) => rest,
        }
    }
}

/// Some candidate scores at least `GOOD_ENOUGH_SCORE`.
pub open spec fn good_enough(scored: Seq<ScoredTrack>) -> bool {
    exists|i: int| 0 <= i < scored.len() && scored[i].score >= GOOD_ENOUGH_SCORE
}

/// One search for a replacement of a failed track.
pub struct AlternativeSearch {
    /// The track that failed.
    pub original: TrackInfo,
    /// Queries not yet searched; the last is next.
    pub queries: Vec<String>,
    /// Every candidate scored so far.
    pub scored: Vec<ScoredTrack>,
}

impl AlternativeSearch {
    /// Starts a search for `original`, which a listener asked for with
    /// `user_query`; `guesses` are the guessed artist and title pairs behind
    /// its metadata, best first.
    pub fn new(original: TrackInfo, user_query: &String, guesses: &Vec<TitleGuess>) -> (r:
        AlternativeSearch)
        ensures
            r.original == original,
            string_views(r.queries@) == candidate_queries(original, user_query@, guesses@),
            r.scored@.len() == 0,
    {
        let queries = if is_direct_query(user_query.as_str()) {
            search_queries_from_track(&original, guesses)
        } else {
            let v = vec![user_query.clone()];
            proof {
                assert(string_views(v@) =~= seq![user_query@]);
            }
            v
        };
        AlternativeSearch { original, queries, scored: Vec::new() }
    }

    /// The next query to search, or `None` once a candidate is good enough or
    /// no query is left.
    pub fn next_query(&mut self) -> (r: Option<String>)
        ensures
            final(self).original == old(self).original,
            final(self).scored == old(self).scored,
            (good_enough(old(self).scored@) || old(self).queries@.len() == 0) ==> (r is None
                && final(self).queries@ == old(self).queries@),
            !(good_enough(old(self).scored@) || old(self).queries@.len() == 0) ==> (r == Some(
                old(self).queries@.last(),
            ) && final(self).queries@ == old(self).queries@.drop_last()),
    {
        let mut i: usize = 0;
        while i < self.scored.len()
            invariant
                i <= self.scored@.len(),
                forall|k: int| 0 <= k < i ==> self.scored@[k].score < GOOD_ENOUGH_SCORE,
            decreases self.scored@.len() - i,
        {
            if self.scored[i].score >= GOOD_ENOUGH_SCORE {
                return None;
            }
            i = i + 1;
        }
        self.queries.pop()
    }

    /// Scores what the catalogs returned for the last query; catalogs that
    /// failed add nothing.
    pub fn add_results(&mut self, results: Vec<Result<Vec<Track>, SearchError>>)
        ensures
            final(self).original == old(self).original,
            final(self).queries == old(self).queries,
            final(self).scored@.len() >= old(self).scored@.len(),
            final(self).scored@.subrange(0, old(self).scored@.len() as int) == old(self).scored@,
            sorted_desc(
                final(self).scored@.subrange(
                    old(self).scored@.len() as int,
                    final(self).scored@.len() as int,
                ),
            ),
            final(self).scored@.subrange(
                old(self).scored@.len() as int,
                final(self).scored@.len() as int,
            ).to_multiset() == scored_batch(ok_lists(results@), old(self).original).to_multiset(),
    {
        let ghost whole = results@;
        let mut rest = results;
        let n = rest.len();
        let mut lists: Vec<Vec<Track>> = Vec::new();
        let mut i: usize = 0;
        while rest.len() > 0
            invariant
                whole.len() == n,
                i <= n,
                rest@ == whole.subrange(i as int, n as int),
                lists@ == ok_lists(whole.subrange(0, i as int)),
            decreases rest.len(),
        {
            let r = rest.remove(0);
            proof {
                let next = whole.subrange(0, i + 1);
                assert(next.drop_last() =~= whole.subrange(0, i as int));
                assert(next.last() == r);
            }
            match r {
                Ok(v) => lists.push(v),
                Err(_) => {},
            }
            i = i + 1;
            proof {
                assert(rest@ =~= whole.subrange(i as int, n as int));
            }
        }
        proof {
            assert(whole.subrange(0, i as int) =~= whole);
        }
        let mut batch = score_alternatives(lists, &self.original);
        let ghost b = batch@;
        let ghost before = self.scored@;
        self.scored.append(&mut batch);
        proof {
            assert(self.scored@.subrange(0, before.len() as int) =~= before);
            assert(self.scored@.subrange(before.len() as int, self.scored@.len() as int) =~= b);
        }
    }

    /// The candidates found, best first, each URI or identifier once with its
    /// best score.
    pub fn finish(self) -> (r: Vec<ScoredTrack>)
        ensures
            is_ranking_of(self.scored@, r@),
    {
        rank_candidates(self.scored)
    }
}

/// In the matcher's ranking, a candidate one second longer than the failed
/// track that shares its recording code comes before one forty seconds longer
/// from the same catalog without a code, when both were among the first twenty
/// results of their catalogs and no other candidate shares their keys.
pub proof fn lemma_isrc_match_ranked_above(
    candidates: Seq<ScoredTrack>,
    r: Seq<ScoredTrack>,
    original: TrackInfo,
    x: int,
    y: int,
    px: nat,
    py: nat,
)
    requires
        is_ranking_of(candidates, r),
        0 <= x < candidates.len(),
        0 <= y < candidates.len(),
        candidates[x].score == score_of(candidates[x].track.info, original, px),
        candidates[y].score == score_of(candidates[y].track.info, original, py),
        px < 20,
        py < 20,
        original.length == 180_000,
        candidates[x].track.info.length == 181_000,
        shares_isrc(candidates[x].track.info, original),
        candidates[y].track.info.length == 220_000,
        candidates[y].track.info.isrc is None,
        candidates[y].track.info.source_name@ == original.source_name@,
        forall|k: int|
            0 <= k < candidates.len() && k != x ==> track_key(#[trigger] candidates[k].track)
                != track_key(candidates[x].track),
        forall|k: int|
            0 <= k < candidates.len() && k != y ==> track_key(#[trigger] candidates[k].track)
                != track_key(candidates[y].track),
    ensures
        exists|i: int, j: int| 0 <= i < j < r.len() && r[i] == candidates[x] && r[j] == candidates[y],
{
    lemma_isrc_match_outscores_long_same_source(
        candidates[x].track.info,
        candidates[y].track.info,
        original,
        px,
        py,
    );
    lemma_ranking_orders_by_score(candidates, r, x, y);
}

} // verus!
