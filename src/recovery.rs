//! What to do when a track fails during playback.
//!
//! Playback is stopped first, so that the engine does not advance on its own
//! while a replacement is sought. Only once stopping has succeeded does the
//! recovery go on; it always ends by skipping to the head of the queue, which
//! is then either the replacement or the next queued track.
use crate::scoring::ScoredTrack;
use vstd::prelude::*;

verus! {

/// How many of the best candidates the notice lists.
pub const ALTERNATIVES_SHOWN: usize = 3;

/// The next step of a recovery.
#[derive(Clone, Debug)]
pub enum RecoveryAction {
    /// Stopping failed: leave the player alone rather than risk advancing twice.
    Abort,
    /// Search for alternatives to the failed track.
    SearchAlternatives,
    /// Nothing to play instead: tell the listeners, then skip.
    ReportFailure,
    /// Put the first of these best candidates at the front of the queue, tell
    /// the listeners which were considered, then skip.
    QueueAlternative(Vec<ScoredTrack>),
}

/// The step after trying to stop playback; without the request's metadata no
/// search can be made.
pub fn after_stop(stop_succeeded: bool, metadata_ok: bool) -> (r: RecoveryAction)
    ensures
        !stop_succeeded ==> r is Abort,
        stop_succeeded && !metadata_ok ==> r is ReportFailure,
        stop_succeeded && metadata_ok ==> r is SearchAlternatives,
{
    if !stop_succeeded {
        RecoveryAction::Abort
    } else if !metadata_ok {
        RecoveryAction::ReportFailure
    } else {
        RecoveryAction::SearchAlternatives
    }
}

/// The step after the search, given its candidates best first.
pub fn after_search(ranked: Vec<ScoredTrack>) -> (r: RecoveryAction)
    ensures
        ranked@.len() == 0 ==> r is ReportFailure,
        ranked@.len() > 0 ==> (r matches RecoveryAction::QueueAlternative(shown) && shown@
            == ranked@.take(
            if ranked@.len() < ALTERNATIVES_SHOWN {
                ranked@.len() as int
            } else {
                ALTERNATIVES_SHOWN as int
            },
        )),
{
    if ranked.len() == 0 {
        return RecoveryAction::ReportFailure;
    }
    let mut shown = ranked;
    if shown.len() > ALTERNATIVES_SHOWN {
        shown.truncate(ALTERNATIVES_SHOWN);
    }
    proof {
        assert(shown@ =~= ranked@.take(shown@.len() as int));
    }
    RecoveryAction::QueueAlternative(shown)
}

/// Whether the recovery ends by skipping to the head of the queue.
pub fn skips_after(action: &RecoveryAction) -> (r: bool)
    ensures
        r == (action is ReportFailure || action is QueueAlternative),
{
    match action {
        RecoveryAction::ReportFailure => true,
        RecoveryAction::QueueAlternative(_) => true,
        _ => false,
    }
}

} // verus!
