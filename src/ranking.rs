//! Orders the scored candidates and keeps the best copy of each track.
use crate::scoring::ScoredTrack;
use crate::track::track_key;
use vstd::prelude::*;

verus! {

/// Scores never increase from front to back.
pub open spec fn sorted_desc(s: Seq<ScoredTrack>) -> bool {
    forall|i: int, j: int| 0 <= i < j < s.len() ==> s[i].score >= s[j].score
}

/// No two candidates share a URI or identifier.
pub open spec fn keys_unique(s: Seq<ScoredTrack>) -> bool {
    forall|i: int, j: int|
        0 <= i < j < s.len() ==> track_key(#[trigger] s[i].track) != track_key(#[trigger] s[j].track)
}

/// `r` holds every candidate in `from` or a better-scored one with the same key.
pub open spec fn covers(from: Seq<ScoredTrack>, r: Seq<ScoredTrack>) -> bool {
    forall|i: int|
        0 <= i < from.len() ==> exists|j: int|
            0 <= j < r.len() && track_key(r[j].track) == track_key(#[trigger] from[i].track)
                && r[j].score >= from[i].score
}

/// Every entry of `r` is one of `from`.
pub open spec fn drawn_from(from: Seq<ScoredTrack>, r: Seq<ScoredTrack>) -> bool {
    forall|j: int| 0 <= j < r.len() ==> from.contains(#[trigger] r[j])
}

/// `r` ranks `candidates`: best first, one entry per key, each the best of its key.
pub open spec fn is_ranking_of(candidates: Seq<ScoredTrack>, r: Seq<ScoredTrack>) -> bool {
    &&& sorted_desc(r)
    &&& keys_unique(r)
    &&& drawn_from(candidates, r)
    &&& covers(candidates, r)
}

/// Sorts by descending score; candidates of equal score keep their order.
pub fn sort_by_score(v: Vec<ScoredTrack>) -> (r: Vec<ScoredTrack>)
    ensures
        sorted_desc(r@),
        r@.to_multiset() == v@.to_multiset(),
        drawn_from(v@, r@),
        forall|k: int| 0 <= k < v@.len() ==> r@.contains(#[trigger] v@[k]),
{
    let ghost whole = v@;
    let mut rest = v;
    let n = rest.len();
    let mut out: Vec<ScoredTrack> = Vec::new();
    let mut i: usize = 0;
    assert(out@ =~= whole.subrange(0, 0));
    while rest.len() > 0
        invariant
            whole.len() == n,
            i <= n,
            rest@ == whole.subrange(i as int, n as int),
            sorted_desc(out@),
            forall|j: int|
                0 <= j < out@.len() ==> exists|k: int| 0 <= k < i && whole[k] == #[trigger] out@[j],
            forall|k: int| 0 <= k < i ==> out@.contains(#[trigger] whole[k]),
            out@.to_multiset() == whole.subrange(0, i as int).to_multiset(),
        decreases rest.len(),
    {
        let c = rest.remove(0);
        assert(c == whole[i as int]);
        let mut pos: usize = 0;
        while pos < out.len() && out[pos].score >= c.score
            invariant
                pos <= out.len(),
                forall|q: int| 0 <= q < pos ==> out@[q].score >= c.score,
            decreases out.len() - pos,
        {
            pos = pos + 1;
        }
        let ghost old_out = out@;
        out.insert(pos, c);
        proof {
            vstd::seq_lib::to_multiset_insert(old_out, pos as int, c);
            vstd::seq_lib::to_multiset_build(whole.subrange(0, i as int), c);
            assert(whole.subrange(0, i + 1) =~= whole.subrange(0, i as int).push(c));
            let s = out@;
            assert forall|a: int, b: int| 0 <= a < b < s.len() implies s[a].score >= s[b].score by {
                if b == pos {
                } else if a == pos {
                    assert(old_out[pos as int].score < c.score);
                    assert(old_out[pos as int].score >= old_out[b - 1].score || b - 1 == pos);
                } else {
                }
            }
            assert forall|j: int| 0 <= j < s.len() implies exists|k: int|
                0 <= k < i + 1 && whole[k] == #[trigger] s[j] by {
                if j == pos {
                    assert(whole[i as int] == s[j]);
                } else if j < pos {
                    assert(s[j] == old_out[j]);
                } else {
                    assert(s[j] == old_out[j - 1]);
                }
            }
            assert forall|k: int| 0 <= k < i + 1 implies s.contains(#[trigger] whole[k]) by {
                if k == i {
                    assert(s[pos as int] == whole[k]);
                } else {
                    assert(old_out.contains(whole[k]));
                    let j = choose|j: int| 0 <= j < old_out.len() && old_out[j] == whole[k];
                    if j < pos {
                        assert(s[j] == whole[k]);
                    } else {
                        assert(s[j + 1] == whole[k]);
                    }
                }
            }
        }
        i = i + 1;
        proof {
            assert(rest@ =~= whole.subrange(i as int, n as int));
        }
    }
    proof {
        assert(whole.subrange(0, i as int) =~= whole);
        assert forall|j: int| 0 <= j < out@.len() implies whole.contains(#[trigger] out@[j]) by {
            let k = choose|k: int| 0 <= k < i && whole[k] == out@[j];
        }
    }
    out
}

/// Keeps the first candidate of each key from a list sorted best first.
fn dedup_sorted(sorted: Vec<ScoredTrack>) -> (r: Vec<ScoredTrack>)
    requires
        sorted_desc(sorted@),
    ensures
        sorted_desc(r@),
        keys_unique(r@),
        drawn_from(sorted@, r@),
        covers(sorted@, r@),
{
    let ghost whole = sorted@;
    let mut rest = sorted;
    let n = rest.len();
    let mut out: Vec<ScoredTrack> = Vec::new();
    let mut i: usize = 0;
    // `src[j]` is where `out[j]` came from; `cov[k]` is where `whole[k]`'s key is kept.
    let ghost mut src: Seq<int> = Seq::empty();
    let ghost mut cov: Seq<int> = Seq::empty();
    while rest.len() > 0
        invariant
            whole.len() == n,
            i <= n,
            rest@ == whole.subrange(i as int, n as int),
            sorted_desc(whole),
            sorted_desc(out@),
            keys_unique(out@),
            src.len() == out@.len(),
            forall|j: int|
                0 <= j < out@.len() ==> 0 <= #[trigger] src[j] < i && whole[src[j]] == out@[j],
            cov.len() == i,
            forall|k: int|
                0 <= k < i ==> 0 <= #[trigger] cov[k] < out@.len() && track_key(
                    out@[cov[k]].track,
                ) == track_key(whole[k].track) && out@[cov[k]].score >= whole[k].score,
        decreases rest.len(),
    {
        let c = rest.remove(0);
        assert(c == whole[i as int]);
        let mut found = false;
        let mut j: usize = 0;
        let mut at: usize = 0;
        while j < out.len()
            invariant
                j <= out.len(),
                found ==> at < j && track_key(out@[at as int].track) == track_key(c.track),
                !found ==> forall|q: int|
                    0 <= q < j ==> track_key(#[trigger] out@[q].track) != track_key(c.track),
            decreases out.len() - j,
        {
            if *out[j].track.key() == *c.track.key() {
                found = true;
                at = j;
            }
            j = j + 1;
        }
        if found {
            proof {
                assert(whole[src[at as int]].score >= whole[i as int].score);
                cov = cov.push(at as int);
            }
        } else {
            let ghost old_out = out@;
            out.push(c);
            proof {
                assert forall|a: int, b: int| 0 <= a < b < out@.len() implies out@[a].score
                    >= out@[b].score by {
                    if b == old_out.len() {
                        assert(whole[src[a]].score >= whole[i as int].score);
                    }
                }
                assert forall|a: int, b: int| 0 <= a < b < out@.len() implies track_key(
                    #[trigger] out@[a].track,
                ) != track_key(#[trigger] out@[b].track) by {
                    if b == old_out.len() {
                        assert(track_key(old_out[a].track) != track_key(c.track));
                    } else {
                        assert(out@[a] == old_out[a] && out@[b] == old_out[b]);
                    }
                }
                src = src.push(i as int);
                cov = cov.push(old_out.len() as int);
            }
        }
        i = i + 1;
        proof {
            assert(rest@ =~= whole.subrange(i as int, n as int));
        }
    }
    proof {
        assert forall|j: int| 0 <= j < out@.len() implies whole.contains(#[trigger] out@[j]) by {
            assert(whole[src[j]] == out@[j]);
        }
        assert forall|k: int| 0 <= k < whole.len() implies exists|j: int|
            0 <= j < out@.len() && track_key(out@[j].track) == track_key(#[trigger] whole[k].track)
                && out@[j].score >= whole[k].score by {
            assert(0 <= cov[k] < out@.len());
        }
    }
    out
}

/// Ranks candidates best first, keeping for each URI or identifier only its
/// best-scored copy.
pub fn rank_candidates(candidates: Vec<ScoredTrack>) -> (r: Vec<ScoredTrack>)
    ensures
        is_ranking_of(candidates@, r@),
{
    let ghost c = candidates@;
    let sorted = sort_by_score(candidates);
    let ghost s = sorted@;
    let r = dedup_sorted(sorted);
    proof {
        assert forall|j: int| 0 <= j < r@.len() implies c.contains(#[trigger] r@[j]) by {
            assert(s.contains(r@[j]));
            let k = choose|k: int| 0 <= k < s.len() && s[k] == r@[j];
            assert(c.contains(s[k]));
        }
        assert forall|i: int| 0 <= i < c.len() implies exists|j: int|
            0 <= j < r@.len() && track_key(r@[j].track) == track_key(#[trigger] c[i].track)
                && r@[j].score >= c[i].score by {
            assert(s.contains(c[i]));
            let k = choose|k: int| 0 <= k < s.len() && s[k] == c[i];
            assert(track_key(s[k].track) == track_key(s[k].track));
        }
    }
    r
}

/// Of two candidates with the same URI or identifier, and no other with it,
/// a ranking keeps the better-scored one and drops the other.
pub proof fn lemma_ranking_keeps_better_duplicate(
    candidates: Seq<ScoredTrack>,
    r: Seq<ScoredTrack>,
    better: int,
    worse: int,
)
    requires
        is_ranking_of(candidates, r),
        0 <= better < candidates.len(),
        0 <= worse < candidates.len(),
        track_key(candidates[better].track) == track_key(candidates[worse].track),
        candidates[better].score > candidates[worse].score,
        forall|k: int|
            0 <= k < candidates.len() && k != better && k != worse ==> track_key(
                #[trigger] candidates[k].track,
            ) != track_key(candidates[better].track),
    ensures
        r.contains(candidates[better]),
        !r.contains(candidates[worse]),
        forall|j: int|
            0 <= j < r.len() && track_key(#[trigger] r[j].track) == track_key(
                candidates[better].track,
            ) ==> r[j] == candidates[better],
{
    let key = track_key(candidates[better].track);
    assert forall|j: int| 0 <= j < r.len() && track_key(#[trigger] r[j].track) == key implies r[j]
        == candidates[better] by {
        assert(candidates.contains(r[j]));
        let k = choose|k: int| 0 <= k < candidates.len() && candidates[k] == r[j];
        let jb = choose|jb: int|
            0 <= jb < r.len() && track_key(r[jb].track) == track_key(candidates[better].track)
                && r[jb].score >= candidates[better].score;
        if jb != j {
            if jb < j {
                assert(track_key(r[jb].track) != track_key(r[j].track));
            } else {
                assert(track_key(r[j].track) != track_key(r[jb].track));
            }
        }
    }
    let jb = choose|jb: int|
        0 <= jb < r.len() && track_key(r[jb].track) == track_key(candidates[better].track)
            && r[jb].score >= candidates[better].score;
    assert(r[jb] == candidates[better]);
    if r.contains(candidates[worse]) {
        let jw = choose|jw: int| 0 <= jw < r.len() && r[jw] == candidates[worse];
        assert(track_key(r[jw].track) == key);
    }
}

/// A candidate whose key no other candidate shares stands in the ranking as it is.
proof fn lemma_unique_key_kept(candidates: Seq<ScoredTrack>, r: Seq<ScoredTrack>, a: int) -> (j: int)
    requires
        is_ranking_of(candidates, r),
        0 <= a < candidates.len(),
        forall|k: int|
            0 <= k < candidates.len() && k != a ==> track_key(#[trigger] candidates[k].track)
                != track_key(candidates[a].track),
    ensures
        0 <= j < r.len(),
        r[j] == candidates[a],
{
    let j = choose|j: int|
        0 <= j < r.len() && track_key(r[j].track) == track_key(candidates[a].track) && r[j].score
            >= candidates[a].score;
    assert(candidates.contains(r[j]));
    let k = choose|k: int| 0 <= k < candidates.len() && candidates[k] == r[j];
    assert(k == a);
    j
}

/// Of two candidates whose keys no other candidate shares, a ranking keeps
/// both, and the better-scored one comes first.
pub proof fn lemma_ranking_orders_by_score(
    candidates: Seq<ScoredTrack>,
    r: Seq<ScoredTrack>,
    a: int,
    b: int,
)
    requires
        is_ranking_of(candidates, r),
        0 <= a < candidates.len(),
        0 <= b < candidates.len(),
        candidates[a].score > candidates[b].score,
        forall|k: int|
            0 <= k < candidates.len() && k != a ==> track_key(#[trigger] candidates[k].track)
                != track_key(candidates[a].track),
        forall|k: int|
            0 <= k < candidates.len() && k != b ==> track_key(#[trigger] candidates[k].track)
                != track_key(candidates[b].track),
    ensures
        exists|i: int, j: int| 0 <= i < j < r.len() && r[i] == candidates[a] && r[j] == candidates[b],
{
    let i = lemma_unique_key_kept(candidates, r, a);
    let j = lemma_unique_key_kept(candidates, r, b);
    if j < i {
        assert(r[j].score >= r[i].score);
    }
    assert(i != j);
}

} // verus!
