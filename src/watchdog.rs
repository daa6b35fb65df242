//! Tears a playback session down once nobody has listened for a while.
//!
//! Every tick reports whether the session still exists and whether anyone
//! besides the player is in its voice channel. The first tick alone sets the
//! alone marker; a later tick alone for longer than the threshold asks for a
//! single teardown, after which the watchdog stops.
use vstd::prelude::*;

verus! {

/// How long a session may stay alone before it is torn down: three minutes.
pub const DEFAULT_ALONE_THRESHOLD_MS: i64 = 180_000;

/// The pause between two ticks, and before the first one.
pub const WATCHDOG_INTERVAL_MS: u64 = 10_000;

/// Relies on chrono's `Utc::now` and `DateTime::timestamp_millis`: the wall
/// clock in milliseconds since the Unix epoch, which may be any value.
#[verifier::external_body]
pub(crate) fn now_millis() -> (r: i64) {
    chrono::Utc::now().timestamp_millis()
}

/// What one tick observed.
#[derive(Clone, Copy, PartialEq, Eq, Structural, Debug)]
pub struct TickEvent {
    /// The session can still be found in the registry.
    pub session_exists: bool,
    /// Someone besides the player is in the voice channel.
    pub others_present: bool,
    /// When the tick ran, in milliseconds.
    pub now: i64,
}

/// What the watchdog asks for after a tick.
#[derive(Clone, Copy, PartialEq, Eq, Structural, Debug)]
pub enum WatchdogAction {
    /// Keep watching.
    Continue,
    /// Leave the voice channel and delete the session, then stop.
    Teardown,
    /// The session is gone: stop watching.
    Stop,
}

/// The lifecycle state of one session.
#[derive(Clone, Copy, PartialEq, Eq, Structural, Debug)]
pub struct PlayerData {
    pub guild_id: u64,
    /// When the player was first seen alone, if it is alone.
    pub alone_since: Option<i64>,
    /// A teardown has been asked for.
    pub torn_down: bool,
}

/// Alone for longer than `delta` at `now`.
pub open spec fn alone_longer_than(alone_since: Option<i64>, delta: int, now: int) -> bool {
    alone_since matches Some(t) && delta < now - t
}

/// The state and action after one tick.
pub open spec fn tick_spec(s: PlayerData, e: TickEvent, threshold: int) -> (PlayerData, WatchdogAction) {
    if s.torn_down || !e.session_exists {
        (s, WatchdogAction::Stop)
    } else if e.others_present {
        (PlayerData { alone_since: None, ..s }, WatchdogAction::Continue)
    } else if alone_longer_than(s.alone_since, threshold, e.now as int) {
        (PlayerData { torn_down: true, ..s }, WatchdogAction::Teardown)
    } else if s.alone_since is None {
        (PlayerData { alone_since: Some(e.now), ..s }, WatchdogAction::Continue)
    } else {
        (s, WatchdogAction::Continue)
    }
}

/// The state after a run of ticks, and how many teardowns they asked for.
pub open spec fn run_spec(s: PlayerData, events: Seq<TickEvent>, threshold: int) -> (PlayerData, nat)
    decreases events.len(),
{
    if events.len() == 0 {
        (s, 0)
    } else {
        let (mid, n) = run_spec(s, events.drop_last(), threshold);
        let (next, action) = tick_spec(mid, events.last(), threshold);
        (next, if action == WatchdogAction::Teardown { n + 1 } else { n })
    }
}

/// When the current stretch of ticks alone began, if the last tick was alone.
pub open spec fn alone_start(events: Seq<TickEvent>) -> Option<i64>
    decreases events.len(),
{
    if events.len() == 0 || events.last().others_present {
        None
    } else {
        match alone_start(events.drop_last()) {
            Some(t) => Some(t),
            None => Some(events.last().now),
        }
    }
}

/// At the last tick the session had been alone for longer than `threshold`.
pub open spec fn overdue(events: Seq<TickEvent>, threshold: int) -> bool {
    events.len() > 0 && !events.last().others_present && alone_longer_than(
        alone_start(events.drop_last()),
        threshold,
        events.last().now as int,
    )
}

/// At some tick of `events` the session had been alone for longer than `threshold`.
pub open spec fn ever_overdue(events: Seq<TickEvent>, threshold: int) -> bool {
    exists|k: int| 0 <= k < events.len() && overdue(#[trigger] events.subrange(0, k + 1), threshold)
}

pub open spec fn fresh(guild_id: u64) -> PlayerData {
    PlayerData { guild_id, alone_since: None, torn_down: false }
}

proof fn lemma_run_invariant(guild_id: u64, events: Seq<TickEvent>, threshold: int)
    requires
        forall|k: int| 0 <= k < events.len() ==> (#[trigger] events[k]).session_exists,
    ensures
        !ever_overdue(events, threshold) ==> run_spec(fresh(guild_id), events, threshold).1 == 0
            && !run_spec(fresh(guild_id), events, threshold).0.torn_down && run_spec(
            fresh(guild_id),
            events,
            threshold,
        ).0.alone_since == alone_start(events),
        ever_overdue(events, threshold) ==> run_spec(fresh(guild_id), events, threshold).1 == 1
            && run_spec(fresh(guild_id), events, threshold).0.torn_down,
    decreases events.len(),
{
    if events.len() > 0 {
        let p = events.drop_last();
        let e = events.last();
        assert forall|k: int| 0 <= k < p.len() implies (#[trigger] p[k]).session_exists by {
            assert(p[k] == events[k]);
        }
        lemma_run_invariant(guild_id, p, threshold);
        assert(events.subrange(0, events.len() as int) =~= events);
        assert forall|k: int| 0 <= k < p.len() implies #[trigger] events.subrange(0, k + 1)
            == p.subrange(0, k + 1) by {
            assert(events.subrange(0, k + 1) =~= p.subrange(0, k + 1));
        }
        if ever_overdue(p, threshold) {
            let k = choose|k: int| 0 <= k < p.len() && overdue(#[trigger] p.subrange(0, k + 1), threshold);
            assert(overdue(events.subrange(0, k + 1), threshold));
            assert(ever_overdue(events, threshold));
        } else {
            assert(e.session_exists);
            let mid = run_spec(fresh(guild_id), p, threshold).0;
            assert(mid.alone_since == alone_start(p));
            assert(!mid.torn_down);
            if overdue(events, threshold) {
                let k = events.len() - 1;
                assert(events.subrange(0, k + 1) =~= events);
                assert(overdue(events.subrange(0, k + 1), threshold));
            } else {
                assert forall|k: int| 0 <= k < events.len() implies !overdue(
                    #[trigger] events.subrange(0, k + 1),
                    threshold,
                ) by {
                    if k < p.len() {
                        assert(events.subrange(0, k + 1) == p.subrange(0, k + 1));
                    }
                }
            }
        }
    }
}

/// From a fresh session whose registry entry stays, ticks ask for no teardown
/// while the session has never been alone for longer than the threshold, and
/// for exactly one once it has.
pub proof fn lemma_teardown_exactly_once(guild_id: u64, events: Seq<TickEvent>, threshold: int)
    requires
        forall|k: int| 0 <= k < events.len() ==> (#[trigger] events[k]).session_exists,
    ensures
        run_spec(fresh(guild_id), events, threshold).1 == (if ever_overdue(events, threshold) {
            1nat
        } else {
            0nat
        }),
{
    lemma_run_invariant(guild_id, events, threshold);
}

impl PlayerData {
    pub fn new(guild_id: u64) -> (r: PlayerData)
        ensures
            r == fresh(guild_id),
    {
        PlayerData { guild_id, alone_since: None, torn_down: false }
    }

    /// Sets the alone marker to `now` unless it is already set.
    pub fn mark_alone_at(&mut self, now: i64)
        ensures
            old(self).alone_since is None ==> final(self).alone_since == Some(now),
            old(self).alone_since is Some ==> final(self).alone_since == old(self).alone_since,
            final(self).guild_id == old(self).guild_id,
            final(self).torn_down == old(self).torn_down,
    {
        if self.alone_since.is_none() {
            self.alone_since = Some(now);
        }
    }

    /// Sets the alone marker to the current time unless it is already set.
    pub fn mark_alone(&mut self)
        ensures
            old(self).alone_since is Some ==> final(self).alone_since == old(self).alone_since,
            old(self).alone_since is None ==> final(self).alone_since is Some,
            final(self).guild_id == old(self).guild_id,
            final(self).torn_down == old(self).torn_down,
    {
        let now = now_millis();
        self.mark_alone_at(now);
    }

    /// Clears the alone marker.
    pub fn reset_alone(&mut self)
        ensures
            final(self).alone_since is None,
            final(self).guild_id == old(self).guild_id,
            final(self).torn_down == old(self).torn_down,
    {
        self.alone_since = None;
    }

    /// Whether the player has been alone for longer than `delta_ms` at `now`.
    pub fn is_alone_for_at(&self, delta_ms: i64, now: i64) -> (r: bool)
        ensures
            r == alone_longer_than(self.alone_since, delta_ms as int, now as int),
    {
        match self.alone_since {
            Some(t) => (delta_ms as i128) < (now as i128) - (t as i128),
            None => false,
        }
    }

    /// Whether the player has been alone for longer than `delta_ms` now.
    pub fn is_alone_for(&self, delta_ms: i64) -> (r: bool)
        ensures
            self.alone_since is None ==> !r,
    {
        let now = now_millis();
        self.is_alone_for_at(delta_ms, now)
    }

    /// One tick of the watchdog.
    pub fn tick(&mut self, event: TickEvent, threshold_ms: i64) -> (r: WatchdogAction)
        ensures
            (*final(self), r) == tick_spec(*old(self), event, threshold_ms as int),
    {
        if self.torn_down || !event.session_exists {
            WatchdogAction::Stop
        } else if event.others_present {
            self.reset_alone();
            WatchdogAction::Continue
        } else if self.is_alone_for_at(threshold_ms, event.now) {
            self.torn_down = true;
            WatchdogAction::Teardown
        } else {
            self.mark_alone_at(event.now);
            WatchdogAction::Continue
        }
    }
}

} // verus!
