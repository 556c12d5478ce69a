//! A bounded first-in first-out queue of complete audio buffers.
use vstd::prelude::*;

use crate::buffer::AudioBuffer;
use crate::error::AudioError;
use crate::types::AudioFormat;
use std::collections::VecDeque;

verus! {

broadcast use AudioFormat::lemma_wf;

/// Drop behavior for a bounded audio queue.
#[derive(Clone, Copy, Debug, PartialEq, Eq, Structural)]
pub enum AudioDropPolicy {
    /// Remove complete oldest buffers until the new buffer fits.
    DropOldest,
    /// Keep queued buffers and discard the new buffer.
    DropNewest,
}

/// Result of pushing a buffer into an [`AudioQueue`].
#[derive(Clone, Copy, Debug, PartialEq, Eq, Structural)]
pub enum AudioPushOutcome {
    /// The buffer was queued without dropping data.
    Enqueued,
    /// This many old frames were removed to make room.
    DroppedOldest { frames: usize },
    /// The submitted buffer was discarded.
    DroppedNewest { frames: usize },
}

/// The total number of frames in a sequence of buffers.
pub open spec fn total_frames<S: Copy>(buffers: Seq<AudioBuffer<S>>) -> int
    decreases buffers.len(),
{
    if buffers.len() == 0 {
        0
    } else {
        buffers[0].spec_frames() + total_frames(buffers.skip(1))
    }
}

/// How many of the oldest buffers must leave so that `incoming` frames fit
/// under `capacity`.
pub open spec fn oldest_to_drop<S: Copy>(
    buffers: Seq<AudioBuffer<S>>,
    incoming: int,
    capacity: int,
) -> nat
    decreases buffers.len(),
{
    if buffers.len() == 0 || incoming <= capacity - total_frames(buffers) {
        0
    } else {
        1 + oldest_to_drop(buffers.skip(1), incoming, capacity)
    }
}

/// The queued buffers and the outcome after pushing `buffer`, of the
/// queue's format and no longer than `capacity`, onto `buffers`: it is
/// queued when it fits, else dropped under drop-newest, else the fewest
/// oldest buffers leave to make room for it.
pub open spec fn spec_push_fitting<S: Copy>(
    buffers: Seq<AudioBuffer<S>>,
    capacity: int,
    policy: AudioDropPolicy,
    buffer: AudioBuffer<S>,
) -> (Seq<AudioBuffer<S>>, AudioPushOutcome) {
    let incoming = buffer.spec_frames();
    if incoming <= capacity - total_frames(buffers) {
        (buffers.push(buffer), AudioPushOutcome::Enqueued)
    } else if policy == AudioDropPolicy::DropNewest {
        (buffers, AudioPushOutcome::DroppedNewest { frames: incoming as usize })
    } else {
        let kept = buffers.skip(oldest_to_drop(buffers, incoming, capacity) as int);
        (
            kept.push(buffer),
            AudioPushOutcome::DroppedOldest { frames: (total_frames(buffers) - total_frames(kept)) as usize },
        )
    }
}

/// Every buffer in the sequence is well formed and has `format`.
pub open spec fn all_have_format<S: Copy>(buffers: Seq<AudioBuffer<S>>, format: AudioFormat) -> bool {
    forall|i: int| 0 <= i < buffers.len() ==> {
        &&& #[trigger] buffers[i].wf()
        &&& buffers[i].spec_format() == format
    }
}

/// The total of a sequence with one buffer appended.
pub proof fn lemma_total_push<S: Copy>(buffers: Seq<AudioBuffer<S>>, buffer: AudioBuffer<S>)
    ensures
        total_frames(buffers.push(buffer)) == total_frames(buffers) + buffer.spec_frames(),
    decreases buffers.len(),
{
    if buffers.len() == 0 {
        assert(buffers.push(buffer).skip(1) =~= Seq::<AudioBuffer<S>>::empty());
        assert(total_frames(Seq::<AudioBuffer<S>>::empty()) == 0);
        assert(buffers.push(buffer)[0] == buffer);
    } else {
        assert(buffers.push(buffer).skip(1) =~= buffers.skip(1).push(buffer));
        assert(buffers.push(buffer)[0] == buffers[0]);
        lemma_total_push(buffers.skip(1), buffer);
    }
}

/// Totals of well-formed buffers are not negative.
pub proof fn lemma_total_nonneg<S: Copy>(buffers: Seq<AudioBuffer<S>>)
    requires
        forall|i: int| 0 <= i < buffers.len() ==> #[trigger] buffers[i].wf(),
    ensures
        total_frames(buffers) >= 0,
        buffers.len() > 0 ==> total_frames(buffers) >= buffers[0].spec_frames(),
    decreases buffers.len(),
{
    if buffers.len() > 0 {
        assert(buffers[0].wf());
        assert forall|i: int| 0 <= i < buffers.skip(1).len() implies #[trigger] buffers.skip(1)[i].wf() by {
            assert(buffers[i + 1].wf());
        }
        lemma_total_nonneg(buffers.skip(1));
    }
}

/// A bounded queue of complete audio buffers.
pub struct AudioQueue<S: Copy> {
    format: AudioFormat,
    capacity_frames: usize,
    policy: AudioDropPolicy,
    queued_frames: usize,
    buffers: VecDeque<AudioBuffer<S>>,
}

impl<S: Copy> AudioQueue<S> {
    /// The queue's audio format.
    pub closed spec fn spec_format(self) -> AudioFormat {
        self.format
    }

    /// The queue's capacity in frames.
    pub closed spec fn spec_capacity(self) -> nat {
        self.capacity_frames as nat
    }

    /// The queue's drop policy.
    pub closed spec fn spec_policy(self) -> AudioDropPolicy {
        self.policy
    }

    /// The queued buffers, oldest first.
    pub closed spec fn spec_buffers(self) -> Seq<AudioBuffer<S>> {
        self.buffers@
    }

    /// The number of queued frames.
    pub open spec fn spec_queued_frames(self) -> int {
        total_frames(self.spec_buffers())
    }

    /// What every queue satisfies: a positive capacity that the queued
    /// frames never exceed, and buffers of the queue's format only.
    pub open spec fn wf(self) -> bool {
        &&& self.spec_capacity() > 0
        &&& 0 <= self.spec_queued_frames() <= self.spec_capacity()
        &&& all_have_format(self.spec_buffers(), self.spec_format())
    }

    /// The queue's internal consistency: [`Self::wf`], and the cached frame
    /// count equals the frames of the queued buffers.
    pub closed spec fn inv(self) -> bool {
        &&& self.wf()
        &&& self.queued_frames as int == total_frames(self.buffers@)
    }

    /// Internal consistency implies the public well-formedness facts.
    pub proof fn lemma_inv_wf(self)
        requires
            self.inv(),
        ensures
            self.wf(),
    {
    }

    /// Creates a queue with a maximum number of buffered frames.
    ///
    /// Returns [`AudioError::ZeroCapacity`] for a zero capacity.
    pub fn new(format: AudioFormat, capacity_frames: usize, policy: AudioDropPolicy) -> (result: Result<
        Self,
        AudioError,
    >)
        ensures
            match result {
                Ok(queue) => {
                    &&& capacity_frames > 0
                    &&& queue.inv()
                    &&& queue.spec_format() == format
                    &&& queue.spec_capacity() == capacity_frames
                    &&& queue.spec_policy() == policy
                    &&& queue.spec_buffers() == Seq::<AudioBuffer<S>>::empty()
                },
                Err(error) => capacity_frames == 0 && error == AudioError::ZeroCapacity,
            },
    {
        if capacity_frames == 0 {
            return Err(AudioError::ZeroCapacity);
        }
        let queue = AudioQueue {
            format,
            capacity_frames,
            policy,
            queued_frames: 0,
            buffers: VecDeque::new(),
        };
        Ok(queue)
    }

    /// Pushes a complete buffer under the queue's drop policy.
    ///
    /// Returns [`AudioError::FormatMismatch`] for a different format and
    /// [`AudioError::BufferTooLarge`] when one buffer cannot fit in the
    /// queue; the queue is then unchanged. A buffer that fits in the free
    /// space is appended. Otherwise `DropNewest` discards the new buffer and
    /// `DropOldest` removes the fewest oldest buffers that make it fit, then
    /// appends it.
    pub fn push(&mut self, buffer: AudioBuffer<S>) -> (result: Result<AudioPushOutcome, AudioError>)
        requires
            old(self).inv(),
        ensures
            final(self).inv(),
            final(self).spec_format() == old(self).spec_format(),
            final(self).spec_capacity() == old(self).spec_capacity(),
            final(self).spec_policy() == old(self).spec_policy(),
            ({
                let old_buffers = old(self).spec_buffers();
                let incoming = buffer.spec_frames();
                let capacity = old(self).spec_capacity() as int;
                let free = capacity - old(self).spec_queued_frames();
                if buffer.spec_format() != old(self).spec_format() {
                    &&& result == Err::<AudioPushOutcome, AudioError>(
                        AudioError::FormatMismatch {
                            expected: old(self).spec_format(),
                            actual: buffer.spec_format(),
                        },
                    )
                    &&& final(self).spec_buffers() == old_buffers
                } else if incoming > capacity {
                    &&& result == Err::<AudioPushOutcome, AudioError>(
                        AudioError::BufferTooLarge { frames: incoming as usize },
                    )
                    &&& final(self).spec_buffers() == old_buffers
                } else if incoming <= free {
                    &&& result == Ok::<AudioPushOutcome, AudioError>(AudioPushOutcome::Enqueued)
                    &&& final(self).spec_buffers() == old_buffers.push(buffer)
                } else if old(self).spec_policy() == AudioDropPolicy::DropNewest {
                    &&& result == Ok::<AudioPushOutcome, AudioError>(
                        AudioPushOutcome::DroppedNewest { frames: incoming as usize },
                    )
                    &&& final(self).spec_buffers() == old_buffers
                } else {
                    let k = oldest_to_drop(old_buffers, incoming, capacity) as int;
                    let kept = old_buffers.skip(k);
                    &&& result == Ok::<AudioPushOutcome, AudioError>(
                        AudioPushOutcome::DroppedOldest {
                            frames: (old(self).spec_queued_frames() - total_frames(kept)) as usize,
                        },
                    )
                    &&& final(self).spec_buffers() == kept.push(buffer)
                }
            }),
            buffer.spec_format() == old(self).spec_format() && buffer.spec_frames() <= old(
                self,
            ).spec_capacity() ==> {
                let pushed = spec_push_fitting(
                    old(self).spec_buffers(),
                    old(self).spec_capacity() as int,
                    old(self).spec_policy(),
                    buffer,
                );
                &&& result == Ok::<AudioPushOutcome, AudioError>(pushed.1)
                &&& final(self).spec_buffers() == pushed.0
            },
    {
        if buffer.format() != self.format {
            return Err(AudioError::FormatMismatch { expected: self.format, actual: buffer.format() });
        }
        let incoming_frames = buffer.frames();
        if incoming_frames > self.capacity_frames {
            return Err(AudioError::BufferTooLarge { frames: incoming_frames });
        }
        let free_frames = self.capacity_frames - self.queued_frames;
        if incoming_frames <= free_frames {
            proof {
                lemma_total_push(self.buffers@, buffer);
            }
            let ghost before = self.buffers@;
            let queued = self.queued_frames + incoming_frames;
            self.buffers.push_back(buffer);
            self.queued_frames = queued;
            assert(all_have_format(self.buffers@, self.format)) by {
                assert forall|i: int| 0 <= i < self.buffers@.len() implies {
                    &&& #[trigger] self.buffers@[i].wf()
                    &&& self.buffers@[i].spec_format() == self.format
                } by {
                    if i < before.len() {
                        assert(self.buffers@[i] == before[i]);
                    }
                }
            }
            return Ok(AudioPushOutcome::Enqueued);
        }
        match self.policy {
            AudioDropPolicy::DropNewest => Ok(AudioPushOutcome::DroppedNewest { frames: incoming_frames }),
            AudioDropPolicy::DropOldest => {
                let ghost initial = self.buffers@;
                let ghost initial_queued = self.queued_frames as int;
                let mut dropped_frames: usize = 0;
                let ghost mut k: int = 0;
                let mut queued = self.queued_frames;
                let mut buffers = VecDeque::new();
                std::mem::swap(&mut buffers, &mut self.buffers);
                while incoming_frames > self.capacity_frames - queued
                    invariant
                        0 <= k <= initial.len(),
                        buffers@ == initial.skip(k),
                        queued as int == total_frames(buffers@),
                        dropped_frames as int == initial_queued - queued,
                        queued <= initial_queued,
                        initial_queued <= self.capacity_frames,
                        incoming_frames <= self.capacity_frames,
                        all_have_format(initial, self.format),
                        oldest_to_drop(initial, incoming_frames as int, self.capacity_frames as int)
                            == k + oldest_to_drop(
                            buffers@,
                            incoming_frames as int,
                            self.capacity_frames as int,
                        ),
                    decreases buffers@.len(),
                {
                    proof {
                        lemma_total_nonneg(buffers@);
                        if buffers@.len() == 0 {
                            assert(false);
                        }
                    }
                    let dropped = buffers.pop_front();
                    match dropped {
                        Some(dropped) => {
                            proof {
                                assert(buffers@ =~= initial.skip(k + 1));
                                assert(initial[k] == dropped);
                                assert(dropped.wf());
                                assert(initial.skip(k)[0] == dropped);
                                assert(initial.skip(k).skip(1) =~= initial.skip(k + 1));
                                k = k + 1;
                            }
                            let frames = dropped.frames();
                            queued = queued - frames;
                            dropped_frames = dropped_frames + frames;
                        },
                        None => {},
                    }
                }
                proof {
                    lemma_total_push(buffers@, buffer);
                    assert(oldest_to_drop(buffers@, incoming_frames as int, self.capacity_frames as int)
                        == 0);
                }
                let ghost kept = buffers@;
                buffers.push_back(buffer);
                self.buffers = buffers;
                self.queued_frames = queued + incoming_frames;
                assert(all_have_format(self.buffers@, self.format)) by {
                    assert forall|i: int| 0 <= i < self.buffers@.len() implies {
                        &&& #[trigger] self.buffers@[i].wf()
                        &&& self.buffers@[i].spec_format() == self.format
                    } by {
                        if i < kept.len() {
                            assert(self.buffers@[i] == initial[i + k]);
                        }
                    }
                }
                Ok(AudioPushOutcome::DroppedOldest { frames: dropped_frames })
            },
        }
    }

    /// Removes and returns the oldest queued buffer.
    pub fn pop(&mut self) -> (buffer: Option<AudioBuffer<S>>)
        requires
            old(self).inv(),
        ensures
            final(self).inv(),
            final(self).spec_format() == old(self).spec_format(),
            final(self).spec_capacity() == old(self).spec_capacity(),
            final(self).spec_policy() == old(self).spec_policy(),
            match buffer {
                Some(b) => {
                    &&& old(self).spec_buffers().len() > 0
                    &&& b == old(self).spec_buffers()[0]
                    &&& final(self).spec_buffers() == old(self).spec_buffers().skip(1)
                },
                None => {
                    &&& old(self).spec_buffers().len() == 0
                    &&& final(self).spec_buffers() == old(self).spec_buffers()
                },
            },
    {
        let ghost before = self.buffers@;
        let mut buffers = VecDeque::new();
        std::mem::swap(&mut buffers, &mut self.buffers);
        let popped = buffers.pop_front();
        match popped {
            Some(buffer) => {
                proof {
                    assert(before[0].wf());
                    assert(buffers@ =~= before.skip(1));
                    lemma_total_nonneg(buffers@);
                }
                let frames = buffer.frames();
                self.queued_frames = self.queued_frames - frames;
                self.buffers = buffers;
                assert(all_have_format(self.buffers@, self.format)) by {
                    assert forall|i: int| 0 <= i < self.buffers@.len() implies {
                        &&& #[trigger] self.buffers@[i].wf()
                        &&& self.buffers@[i].spec_format() == self.format
                    } by {
                        assert(self.buffers@[i] == before[i + 1]);
                    }
                }
                Some(buffer)
            },
            None => {
                self.buffers = buffers;
                None
            },
        }
    }

    /// Returns the number of queued frames.
    pub fn queued_frames(&self) -> (frames: usize)
        requires
            self.inv(),
        ensures
            frames == self.spec_queued_frames(),
    {
        self.queued_frames
    }

    /// Returns the maximum number of queued frames.
    pub fn capacity_frames(&self) -> (capacity: usize)
        ensures
            capacity == self.spec_capacity(),
    {
        self.capacity_frames
    }

    /// Returns whether the queue has no buffers.
    pub fn is_empty(&self) -> (empty: bool)
        ensures
            empty <==> self.spec_buffers().len() == 0,
    {
        self.buffers.len() == 0
    }

    /// Removes every queued buffer without changing the queue configuration.
    pub fn clear(&mut self)
        requires
            old(self).inv(),
        ensures
            final(self).inv(),
            final(self).spec_format() == old(self).spec_format(),
            final(self).spec_capacity() == old(self).spec_capacity(),
            final(self).spec_policy() == old(self).spec_policy(),
            final(self).spec_buffers() == Seq::<AudioBuffer<S>>::empty(),
    {
        let mut buffers = VecDeque::new();
        std::mem::swap(&mut buffers, &mut self.buffers);
        buffers.clear();
        self.queued_frames = 0;
        self.buffers = buffers;
    }
}

} // verus!
