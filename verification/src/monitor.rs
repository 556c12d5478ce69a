//! A bounded queue of post-mix buffers for monitoring or diagnostics.
use vstd::prelude::*;

use crate::error::AudioError;
use std::collections::VecDeque;

verus! {

/// A bounded queue of post-mix items (shared mix buffers) that keeps the
/// newest ones: when full, observing an item discards the oldest one and
/// counts it as dropped.
pub struct AudioMonitorTap<T> {
    capacity_buffers: usize,
    dropped_buffers: u64,
    buffers: VecDeque<T>,
}

/// What observing `item` does to a tap: the capacity stays, the item is
/// appended, and when the tap was full its oldest item is discarded and the
/// dropped count rises by one (saturating).
pub open spec fn tap_observed<T>(before: AudioMonitorTap<T>, after: AudioMonitorTap<T>, item: T) -> bool {
    &&& after.spec_capacity() == before.spec_capacity()
    &&& if before.spec_buffers().len() == before.spec_capacity() {
        &&& after.spec_buffers() == before.spec_buffers().skip(1).push(item)
        &&& after.spec_dropped() == if before.spec_dropped() == u64::MAX {
            u64::MAX
        } else {
            (before.spec_dropped() + 1) as u64
        }
    } else {
        &&& after.spec_buffers() == before.spec_buffers().push(item)
        &&& after.spec_dropped() == before.spec_dropped()
    }
}

impl<T> AudioMonitorTap<T> {
    /// The most items retained.
    pub closed spec fn spec_capacity(&self) -> nat {
        self.capacity_buffers as nat
    }

    /// Items discarded due to tap pressure (saturating).
    pub closed spec fn spec_dropped(&self) -> u64 {
        self.dropped_buffers
    }

    /// The retained items, oldest first.
    pub closed spec fn spec_buffers(&self) -> Seq<T> {
        self.buffers@
    }

    /// Internal consistency: a positive capacity that is never exceeded.
    pub open spec fn inv(&self) -> bool {
        &&& self.spec_capacity() > 0
        &&& self.spec_buffers().len() <= self.spec_capacity()
    }

    /// Creates a tap that retains at most `capacity_buffers` complete buffers.
    ///
    /// Returns [`AudioError::ZeroMonitorCapacity`] for a zero capacity.
    pub fn new(capacity_buffers: usize) -> (result: Result<Self, AudioError>)
        ensures
            match result {
                Ok(tap) => {
                    &&& capacity_buffers > 0
                    &&& tap.inv()
                    &&& tap.spec_capacity() == capacity_buffers
                    &&& tap.spec_dropped() == 0
                    &&& tap.spec_buffers() == Seq::<T>::empty()
                },
                Err(error) => capacity_buffers == 0 && error == AudioError::ZeroMonitorCapacity,
            },
    {
        if capacity_buffers == 0 {
            return Err(AudioError::ZeroMonitorCapacity);
        }
        Ok(AudioMonitorTap { capacity_buffers, dropped_buffers: 0, buffers: VecDeque::new() })
    }

    /// Retains one observed item, discarding the oldest when the tap is full.
    pub fn observe(&mut self, buffer: T)
        requires
            old(self).inv(),
        ensures
            final(self).inv(),
            tap_observed(*old(self), *final(self), buffer),
    {
        if self.buffers.len() == self.capacity_buffers {
            let _ = self.buffers.pop_front();
            self.dropped_buffers = if self.dropped_buffers == u64::MAX {
                u64::MAX
            } else {
                self.dropped_buffers + 1
            };
        }
        self.buffers.push_back(buffer);
    }

    /// Removes and returns the oldest monitored buffer.
    pub fn pop(&mut self) -> (buffer: Option<T>)
        requires
            old(self).inv(),
        ensures
            final(self).inv(),
            final(self).spec_capacity() == old(self).spec_capacity(),
            final(self).spec_dropped() == old(self).spec_dropped(),
            match buffer {
                Some(b) => {
                    &&& old(self).spec_buffers().len() > 0
                    &&& b == old(self).spec_buffers()[0]
                    &&& final(self).spec_buffers() == old(self).spec_buffers().skip(1)
                },
                None => {
                    &&& old(self).spec_buffers().len() == 0
                    &&& final(self).spec_buffers() == old(self).spec_buffers()
                },
            },
    {
        self.buffers.pop_front()
    }

    /// Returns the number of retained monitored buffers.
    pub fn queued_buffers(&self) -> (n: usize)
        ensures
            n == self.spec_buffers().len(),
    {
        self.buffers.len()
    }

    /// Returns the number of buffers discarded due to tap pressure.
    pub fn dropped_buffers(&self) -> (n: u64)
        ensures
            n == self.spec_dropped(),
    {
        self.dropped_buffers
    }
}

} // verus!
