//! The ordered list of tracks waiting to be played.
//!
//! Positions that listeners name start at 1; every operation checks them and
//! either succeeds whole or leaves the queue as it was.
use rand::seq::SliceRandom;
use vstd::prelude::*;

verus! {

/// Why a queue operation was refused.
#[derive(Clone, Copy, PartialEq, Eq, Structural, Debug)]
pub enum QueueError {
    /// A position outside `1..=count`.
    IndexOutOfRange,
    /// An operation that makes no sense, such as swapping an entry with itself.
    InvalidOperation,
    /// Nothing to take from an empty queue or an empty list.
    EmptyQueueOperation,
}

/// The entries waiting to be played, front first.
#[derive(Clone, Debug)]
pub struct TrackQueue<T> {
    entries: Vec<T>,
}

impl<T> View for TrackQueue<T> {
    type V = Seq<T>;

    closed spec fn view(&self) -> Seq<T> {
        self.entries@
    }
}

/// `s` with the entries at `i` and `j` exchanged.
pub open spec fn swapped<T>(s: Seq<T>, i: int, j: int) -> Seq<T> {
    s.update(i, s[j]).update(j, s[i])
}

/// Relies on rand's `SliceRandom::shuffle` with the thread-local generator,
/// which reorders the entries in place and keeps each of them.
#[verifier::external_body]
fn shuffle_entries<T>(v: &mut Vec<T>)
    ensures
        final(v)@.to_multiset() == old(v)@.to_multiset(),
{
    v.shuffle(&mut rand::rng());
}

impl<T> TrackQueue<T> {
    pub fn new() -> (r: TrackQueue<T>)
        ensures
            r@ == Seq::<T>::empty(),
    {
        TrackQueue { entries: Vec::new() }
    }

    /// A queue holding `entries`, front first.
    pub fn from_entries(entries: Vec<T>) -> (r: TrackQueue<T>)
        ensures
            r@ == entries@,
    {
        TrackQueue { entries }
    }

    /// The entries, front first.
    pub fn into_entries(self) -> (r: Vec<T>)
        ensures
            r@ == self@,
    {
        self.entries
    }

    pub fn count(&self) -> (r: usize)
        ensures
            r == self@.len(),
    {
        self.entries.len()
    }

    /// The entry at 1-based `position`, if there is one.
    pub fn get(&self, position: usize) -> (r: Option<&T>)
        ensures
            1 <= position <= self@.len() ==> r == Some(&self@[position - 1]),
            !(1 <= position <= self@.len()) ==> r is None,
    {
        if position >= 1 && position <= self.entries.len() {
            Some(&self.entries[position - 1])
        } else {
            None
        }
    }

    /// The entry to be played next.
    pub fn peek_front(&self) -> (r: Option<&T>)
        ensures
            self@.len() > 0 ==> r == Some(&self@[0]),
            self@.len() == 0 ==> r is None,
    {
        if self.entries.len() > 0 {
            Some(&self.entries[0])
        } else {
            None
        }
    }

    /// Adds `tracks` at the back, in their order.
    pub fn append(&mut self, tracks: Vec<T>)
        ensures
            final(self)@ == old(self)@ + tracks@,
    {
        let mut tracks = tracks;
        self.entries.append(&mut tracks);
    }

    /// Puts `track` first, so that it plays next.
    pub fn push_to_front(&mut self, track: T)
        ensures
            final(self)@ == seq![track] + old(self)@,
    {
        self.entries.insert(0, track);
        assert(self@ =~= seq![track] + old(self)@);
    }

    /// Takes the entry to be played next.
    pub fn pop_front(&mut self) -> (r: Result<T, QueueError>)
        ensures
            old(self)@.len() == 0 ==> r == Err::<T, QueueError>(QueueError::EmptyQueueOperation)
                && final(self)@ == old(self)@,
            old(self)@.len() > 0 ==> r == Ok::<T, QueueError>(old(self)@[0]) && final(self)@
                == old(self)@.drop_first(),
    {
        if self.entries.len() == 0 {
            return Err(QueueError::EmptyQueueOperation);
        }
        let t = self.entries.remove(0);
        assert(self@ =~= old(self)@.drop_first());
        Ok(t)
    }

    /// Removes the entry at 1-based `position`.
    pub fn remove_at(&mut self, position: usize) -> (r: Result<T, QueueError>)
        ensures
            1 <= position <= old(self)@.len() ==> r == Ok::<T, QueueError>(old(self)@[position - 1])
                && final(self)@ == old(self)@.remove(position - 1),
            !(1 <= position <= old(self)@.len()) ==> r == Err::<T, QueueError>(
                QueueError::IndexOutOfRange,
            ) && final(self)@ == old(self)@,
    {
        if position == 0 || position > self.entries.len() {
            return Err(QueueError::IndexOutOfRange);
        }
        let t = self.entries.remove(position - 1);
        Ok(t)
    }

    /// Exchanges the entries at 1-based positions `i` and `j`, as one step.
    pub fn swap(&mut self, i: usize, j: usize) -> (r: Result<(), QueueError>)
        ensures
            i == j ==> r == Err::<(), QueueError>(QueueError::InvalidOperation) && final(self)@
                == old(self)@,
            i != j && !(1 <= i <= old(self)@.len() && 1 <= j <= old(self)@.len()) ==> r == Err::<
                (),
                QueueError,
            >(QueueError::IndexOutOfRange) && final(self)@ == old(self)@,
            i != j && 1 <= i <= old(self)@.len() && 1 <= j <= old(self)@.len() ==> r is Ok
                && final(self)@ == swapped(old(self)@, i - 1, j - 1),
    {
        if i == j {
            return Err(QueueError::InvalidOperation);
        }
        let len = self.entries.len();
        if i == 0 || j == 0 || i > len || j > len {
            return Err(QueueError::IndexOutOfRange);
        }
        let (lo, hi) = if i < j {
            (i - 1, j - 1)
        } else {
            (j - 1, i - 1)
        };
        let ghost s = self.entries@;
        let b = self.entries.remove(hi);
        let a = self.entries.remove(lo);
        self.entries.insert(lo, b);
        self.entries.insert(hi, a);
        assert(self@ =~= swapped(s, i - 1, j - 1));
        Ok(())
    }

    /// Replaces every entry at once with `new_order`.
    pub fn replace(&mut self, new_order: Vec<T>)
        ensures
            final(self)@ == new_order@,
    {
        self.entries = new_order;
    }

    /// Puts the entries in a random order, keeping each of them.
    pub fn shuffle(&mut self)
        ensures
            final(self)@.to_multiset() == old(self)@.to_multiset(),
            final(self)@.len() == old(self)@.len(),
    {
        shuffle_entries(&mut self.entries);
        proof {
            vstd::seq_lib::to_multiset_len(self.entries@);
            vstd::seq_lib::to_multiset_len(old(self).entries@);
        }
    }

    pub fn clear(&mut self)
        ensures
            final(self)@ == Seq::<T>::empty(),
    {
        self.entries.clear();
    }

    /// Queues `tracks` for a listener. With nothing playing, the first track
    /// is handed back to be played at once and the rest are queued; an empty
    /// list is then refused.
    pub fn enqueue(&mut self, tracks: Vec<T>, nothing_playing: bool) -> (r: Result<
        Option<T>,
        QueueError,
    >)
        ensures
            nothing_playing && tracks@.len() == 0 ==> r == Err::<Option<T>, QueueError>(
                QueueError::EmptyQueueOperation,
            ) && final(self)@ == old(self)@,
            nothing_playing && tracks@.len() > 0 ==> r == Ok::<Option<T>, QueueError>(
                Some(tracks@[0]),
            ) && final(self)@ == old(self)@ + tracks@.drop_first(),
            !nothing_playing ==> r == Ok::<Option<T>, QueueError>(None) && final(self)@ == old(
                self,
            )@ + tracks@,
    {
        let mut tracks = tracks;
        if nothing_playing {
            if tracks.len() == 0 {
                return Err(QueueError::EmptyQueueOperation);
            }
            let first = tracks.remove(0);
            self.append(tracks);
            Ok(Some(first))
        } else {
            self.append(tracks);
            Ok(None)
        }
    }
}

} // verus!
