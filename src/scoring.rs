//! How well a search result stands in for a track that failed to play.
//!
//! Scores are kept in thousandths of a point, so that every part of the
//! formula is an exact integer.
use crate::ranking::{sort_by_score, sorted_desc};
use crate::track::{opt_view, same_info, same_text, Track, TrackInfo};
use vstd::prelude::*;

verus! {

/// What every candidate starts from.
pub const BASE_SCORE: i128 = 50_000;

/// Added when the candidate carries the same recording code as the original.
pub const ISRC_BONUS: i128 = 20_000;

/// Taken off a candidate from the catalog that just failed.
pub const SAME_SOURCE_PENALTY: i128 = 3_000;

/// Added to candidates from the catalog with the most reliable metadata.
pub const DEEZER_BIAS: i128 = 500;

/// The duration penalty approaches this bound and never exceeds it.
pub const PENALTY_CEILING: i128 = 20_000;

/// Differences in length up to this many milliseconds cost nothing.
pub const DURATION_GRACE_MS: u64 = 300;

/// The decay curve advances in steps of this many milliseconds.
pub const DECAY_STEP_MS: u64 = 10;

/// The decay curve starts at this value, which stands for one.
pub const DECAY_SCALE: u64 = 1_000_000_000;

/// Each step multiplies the curve by `DECAY_FACTOR / DECAY_UNIT`, which is
/// 0.9 raised to the hundredth power: 0.9 per second.
pub const DECAY_FACTOR: u64 = 998_947;

pub const DECAY_UNIT: u64 = 1_000_000;

/// Taken off per rank and per unit of the catalog's multiplier.
pub const POSITION_UNIT: i128 = 500;

/// A result together with its score.
#[derive(Clone, Debug)]
pub struct ScoredTrack {
    pub score: i128,
    pub track: Track,
}

/// `DECAY_SCALE * r^steps`, rounded down at every step.
pub open spec fn decay_at(steps: nat) -> nat
    decreases steps,
{
    if steps == 0 {
        DECAY_SCALE as nat
    } else {
        decay_at((steps - 1) as nat) * (DECAY_FACTOR as nat) / (DECAY_UNIT as nat)
    }
}

/// `K * (1 - 0.9^seconds)` for a length difference above the grace, else nothing.
pub open spec fn duration_penalty(delta_ms: nat) -> int {
    if delta_ms <= DURATION_GRACE_MS {
        0
    } else {
        PENALTY_CEILING - PENALTY_CEILING * decay_at(delta_ms / (DECAY_STEP_MS as nat)) / (
        DECAY_SCALE as int)
    }
}

pub open spec fn abs_diff(a: nat, b: nat) -> nat {
    if a >= b {
        (a - b) as nat
    } else {
        (b - a) as nat
    }
}

pub open spec fn shares_isrc(info: TrackInfo, original: TrackInfo) -> bool {
    info.isrc is Some && opt_view(info.isrc) == opt_view(original.isrc)
}

pub open spec fn isrc_bonus(info: TrackInfo, original: TrackInfo) -> int {
    if shares_isrc(info, original) {
        ISRC_BONUS as int
    } else {
        0
    }
}

pub open spec fn same_source_penalty(info: TrackInfo, original: TrackInfo) -> int {
    if info.source_name@ == original.source_name@ {
        SAME_SOURCE_PENALTY as int
    } else {
        0
    }
}

pub open spec fn source_bias(info: TrackInfo) -> int {
    if info.source_name@ == "deezer"@ {
        DEEZER_BIAS as int
    } else {
        0
    }
}

/// How many correct results a catalog is expected to put near the top.
pub open spec fn position_multiplier(info: TrackInfo) -> int {
    if info.source_name@ == "youtube"@ {
        1
    } else if info.source_name@ == "soundcloud"@ {
        2
    } else {
        3
    }
}

pub open spec fn position_penalty(info: TrackInfo, position: nat) -> int {
    position * position_multiplier(info) * POSITION_UNIT
}

/// The score of `info` found at rank `position` of its catalog's results.
pub open spec fn score_of(info: TrackInfo, original: TrackInfo, position: nat) -> int {
    BASE_SCORE + isrc_bonus(info, original) - same_source_penalty(info, original) + source_bias(
        info,
    ) - duration_penalty(abs_diff(info.length as nat, original.length as nat)) - position_penalty(
        info,
        position,
    )
}

proof fn lemma_decay_step(k: nat)
    ensures
        decay_at(k + 1) <= decay_at(k),
{
    assert(decay_at(k + 1) == decay_at(k) * (DECAY_FACTOR as nat) / (DECAY_UNIT as nat));
    assert(decay_at(k) * 998_947 / 1_000_000 <= decay_at(k)) by (nonlinear_arith);
}

proof fn lemma_decay_antitone(i: nat, j: nat)
    requires
        i <= j,
    ensures
        decay_at(j) <= decay_at(i),
    decreases j - i,
{
    if i < j {
        lemma_decay_antitone(i, (j - 1) as nat);
        lemma_decay_step((j - 1) as nat);
    }
}

proof fn lemma_decay_bounded(k: nat)
    ensures
        decay_at(k) <= DECAY_SCALE,
{
    lemma_decay_antitone(0, k);
}

proof fn lemma_decay_stays_zero(i: nat, j: nat)
    requires
        i <= j,
        decay_at(i) == 0,
    ensures
        decay_at(j) == 0,
{
    lemma_decay_antitone(i, j);
}

proof fn lemma_scaled_le(a: nat, b: nat)
    requires
        a <= b,
    ensures
        20_000 * a / 1_000_000_000 <= 20_000 * b / 1_000_000_000,
{
    assert(20_000 * a <= 20_000 * b) by (nonlinear_arith)
        requires
            a <= b,
    ;
    vstd::arithmetic::div_mod::lemma_div_is_ordered(
        20_000 * a as int,
        20_000 * b as int,
        1_000_000_000,
    );
}

/// The length penalty costs nothing up to the grace, never decreases as the
/// difference grows, and stays within `PENALTY_CEILING`.
pub proof fn lemma_duration_penalty_shape(d1: nat, d2: nat)
    ensures
        d1 <= DURATION_GRACE_MS ==> duration_penalty(d1) == 0,
        d1 <= d2 ==> duration_penalty(d1) <= duration_penalty(d2),
        0 <= duration_penalty(d1) <= PENALTY_CEILING,
{
    lemma_decay_bounded(d1 / 10);
    lemma_scaled_le(decay_at(d1 / 10), DECAY_SCALE as nat);
    lemma_decay_bounded(d2 / 10);
    lemma_scaled_le(decay_at(d2 / 10), DECAY_SCALE as nat);
    if d1 <= d2 && d1 > DURATION_GRACE_MS {
        vstd::arithmetic::div_mod::lemma_div_is_ordered(d1 as int, d2 as int, 10);
        lemma_decay_antitone(d1 / 10, d2 / 10);
        lemma_scaled_le(decay_at(d2 / 10), decay_at(d1 / 10));
    }
}

/// Computes `duration_penalty` for a difference in milliseconds.
pub fn duration_penalty_millis(delta_ms: u64) -> (r: i128)
    ensures
        r == duration_penalty(delta_ms as nat),
        0 <= r <= PENALTY_CEILING,
{
    proof {
        lemma_duration_penalty_shape(delta_ms as nat, delta_ms as nat);
    }
    if delta_ms <= DURATION_GRACE_MS {
        return 0;
    }
    let steps = delta_ms / DECAY_STEP_MS;
    let mut d: u64 = DECAY_SCALE;
    let mut i: u64 = 0;
    while i < steps && d > 0
        invariant
            i <= steps,
            d == decay_at(i as nat),
            d <= DECAY_SCALE,
        decreases steps - i,
    {
        proof {
            lemma_decay_bounded((i + 1) as nat);
            assert(d * 998_947 <= 1_000_000_000 * 998_947) by (nonlinear_arith)
                requires
                    d <= 1_000_000_000,
            ;
        }
        d = d * DECAY_FACTOR / DECAY_UNIT;
        i = i + 1;
    }
    proof {
        if i < steps {
            lemma_decay_stays_zero(i as nat, steps as nat);
        }
        assert(20_000 * d <= 20_000 * 1_000_000_000) by (nonlinear_arith)
            requires
                d <= 1_000_000_000,
        ;
    }
    let dd = d as i128;
    PENALTY_CEILING - PENALTY_CEILING * dd / (DECAY_SCALE as i128)
}

/// Scores `info`, found at rank `position` of its catalog's results, against
/// the track that failed.
pub fn score_track(info: &TrackInfo, original: &TrackInfo, position: usize) -> (r: i128)
    ensures
        r == score_of(*info, *original, position as nat),
{
    let mut score: i128 = BASE_SCORE;
    let shares = match (&info.isrc, &original.isrc) {
        (Some(a), Some(b)) => *a == *b,
        _ => false,
    };
    if shares {
        score = score + ISRC_BONUS;
    }
    if info.source_name == original.source_name {
        score = score - SAME_SOURCE_PENALTY;
    }
    if same_text(info.source_name.as_str(), "deezer") {
        score = score + DEEZER_BIAS;
    }
    let delta = if info.length >= original.length {
        info.length - original.length
    } else {
        original.length - info.length
    };
    score = score - duration_penalty_millis(delta);
    let multiplier: i128 = if same_text(info.source_name.as_str(), "youtube") {
        1
    } else if same_text(info.source_name.as_str(), "soundcloud") {
        2
    } else {
        3
    };
    let pos = position as i128;
    assert(0 <= pos * multiplier * 500 <= 0xffff_ffff_ffff_ffff * 3 * 500) by (nonlinear_arith)
        requires
            0 <= pos <= 0xffff_ffff_ffff_ffff,
            1 <= multiplier <= 3,
    ;
    score - pos * multiplier * POSITION_UNIT
}

/// Two candidates that differ only in their recording code, where only the
/// first shares the original's, differ in score by exactly `ISRC_BONUS`: the
/// bonus is counted once.
pub proof fn lemma_isrc_bonus_once(
    with_code: TrackInfo,
    without_code: TrackInfo,
    original: TrackInfo,
    position: nat,
)
    requires
        shares_isrc(with_code, original),
        !shares_isrc(without_code, original),
        with_code.length == without_code.length,
        with_code.source_name@ == without_code.source_name@,
    ensures
        score_of(with_code, original, position) == score_of(without_code, original, position)
            + ISRC_BONUS,
{
}

/// The results of one catalog with every copy of the original left out.
pub open spec fn kept_tracks(list: Seq<Track>, original: TrackInfo) -> Seq<Track>
    decreases list.len(),
{
    if list.len() == 0 {
        Seq::empty()
    } else {
        let rest = kept_tracks(list.drop_last(), original);
        if same_info(list.last().info, original) {
            rest
        } else {
            rest.push(list.last())
        }
    }
}

/// The kept results of one catalog, each scored at its rank among them.
pub open spec fn scored_list(list: Seq<Track>, original: TrackInfo) -> Seq<ScoredTrack> {
    kept_tracks(list, original).map(
        |i: int, t: Track| ScoredTrack { score: score_of(t.info, original, i as nat) as i128, track: t },
    )
}

/// The scored results of several catalogs, one catalog after the other.
pub open spec fn scored_batch(lists: Seq<Vec<Track>>, original: TrackInfo) -> Seq<ScoredTrack>
    decreases lists.len(),
{
    if lists.len() == 0 {
        Seq::empty()
    } else {
        scored_batch(lists.drop_last(), original) + scored_list(lists.last()@, original)
    }
}

fn score_list(list: Vec<Track>, original: &TrackInfo, out: &mut Vec<ScoredTrack>)
    ensures
        final(out)@ == old(out)@ + scored_list(list@, *original),
{
    let ghost whole = list@;
    let ghost start = out@;
    let mut list = list;
    let n = list.len();
    let mut i: usize = 0;
    let mut position: usize = 0;
    while list.len() > 0
        invariant
            whole.len() == n,
            i <= whole.len(),
            list@ == whole.subrange(i as int, whole.len() as int),
            position == kept_tracks(whole.subrange(0, i as int), *original).len(),
            out@ == start + scored_list(whole.subrange(0, i as int), *original),
        decreases list.len(),
    {
        let ghost prefix = whole.subrange(0, i as int);
        let ghost next = whole.subrange(0, i + 1);
        let t = list.remove(0);
        proof {
            assert(next.drop_last() =~= prefix);
            assert(next.last() == t);
            assert(position <= i) by {
                lemma_kept_len(prefix, *original);
            }
        }
        if !t.info.same_as(original) {
            let ghost tv = t;
            let score = score_track(&t.info, original, position);
            out.push(ScoredTrack { score, track: t });
            position = position + 1;
            proof {
                let kp = kept_tracks(prefix, *original);
                assert(kept_tracks(next, *original) == kp.push(tv));
                assert(scored_list(next, *original) =~= scored_list(prefix, *original).push(
                    ScoredTrack { score, track: tv },
                ));
            }
        } else {
            proof {
                assert(kept_tracks(next, *original) == kept_tracks(prefix, *original));
            }
        }
        i = i + 1;
        proof {
            assert(list@ =~= whole.subrange(i as int, whole.len() as int));
        }
    }
    proof {
        assert(whole.subrange(0, i as int) =~= whole);
    }
}

proof fn lemma_kept_len(list: Seq<Track>, original: TrackInfo)
    ensures
        kept_tracks(list, original).len() <= list.len(),
    decreases list.len(),
{
    if list.len() > 0 {
        lemma_kept_len(list.drop_last(), original);
    }
}

/// Scores the results of each catalog against the track that failed, leaving
/// out any result that is the failed track itself, and sorts them best first.
pub fn score_alternatives(search_results: Vec<Vec<Track>>, original: &TrackInfo) -> (r: Vec<
    ScoredTrack,
>)
    ensures
        sorted_desc(r@),
        r@.to_multiset() == scored_batch(search_results@, *original).to_multiset(),
{
    let ghost whole = search_results@;
    let mut lists = search_results;
    let n = lists.len();
    let mut scored: Vec<ScoredTrack> = Vec::new();
    let mut i: usize = 0;
    while lists.len() > 0
        invariant
            whole.len() == n,
            i <= whole.len(),
            lists@ == whole.subrange(i as int, whole.len() as int),
            scored@ == scored_batch(whole.subrange(0, i as int), *original),
        decreases lists.len(),
    {
        let results = lists.remove(0);
        proof {
            let next = whole.subrange(0, i + 1);
            assert(next.drop_last() =~= whole.subrange(0, i as int));
            assert(next.last() == results);
        }
        score_list(results, original, &mut scored);
        i = i + 1;
        proof {
            assert(lists@ =~= whole.subrange(i as int, whole.len() as int));
        }
    }
    proof {
        assert(whole.subrange(0, i as int) =~= whole);
    }
    sort_by_score(scored)
}

proof fn lemma_decay_lower(k: nat)
    ensures
        decay_at(k) + k * 1_053_001 >= 1_000_000_000,
    decreases k,
{
    if k > 0 {
        let j = (k - 1) as nat;
        lemma_decay_lower(j);
        lemma_decay_bounded(j);
        let d = decay_at(j);
        assert(d * 998_947 / 1_000_000 + 1_053_001 >= d) by (nonlinear_arith)
            requires
                d <= 1_000_000_000,
        ;
    }
}

proof fn lemma_decay_upper(k: nat)
    ensures
        decay_at(k) <= 445_000_000 || decay_at(k) + k * 468_585 <= 1_000_000_000,
    decreases k,
{
    if k > 0 {
        let j = (k - 1) as nat;
        lemma_decay_upper(j);
        lemma_decay_step(j);
        let d = decay_at(j);
        if d > 445_000_000 {
            assert(d * 998_947 / 1_000_000 + 468_585 <= d) by (nonlinear_arith)
                requires
                    d > 445_000_000,
            ;
        }
    }
}

/// A candidate one second longer than the failed track that shares its
/// recording code outscores one forty seconds longer from the same catalog
/// without a code, when both rank among the first twenty of their catalogs.
pub proof fn lemma_isrc_match_outscores_long_same_source(
    x: TrackInfo,
    y: TrackInfo,
    original: TrackInfo,
    px: nat,
    py: nat,
)
    requires
        original.length == 180_000,
        x.length == 181_000,
        shares_isrc(x, original),
        y.length == 220_000,
        y.isrc is None,
        y.source_name@ == original.source_name@,
        px < 20,
        py < 20,
    ensures
        score_of(x, original, px) > score_of(y, original, py),
{
    lemma_decay_lower(100);
    lemma_decay_upper(4000);
    let d1 = decay_at(100);
    let d40 = decay_at(4000);
    assert(20_000 * d1 / 1_000_000_000 >= 17_893) by (nonlinear_arith)
        requires
            d1 >= 894_699_900,
    ;
    assert(20_000 * d40 / 1_000_000_000 <= 8_900) by (nonlinear_arith)
        requires
            d40 <= 445_000_000,
    ;
    assert(abs_diff(x.length as nat, original.length as nat) == 1000);
    assert(abs_diff(y.length as nat, original.length as nat) == 40_000);
    assert(duration_penalty(1000) <= 2_107);
    assert(duration_penalty(40_000) >= 11_100);
    let mx = position_multiplier(x);
    assert(px * mx * 500 <= 28_500) by (nonlinear_arith)
        requires
            px < 20,
            1 <= mx <= 3,
    ;
    let my = position_multiplier(y);
    assert(py * my * 500 >= 0) by (nonlinear_arith)
        requires
            1 <= my <= 3,
    ;
}

} // verus!
