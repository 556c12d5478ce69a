//! The mixer's validation rules and its registry of sources and monitor
//! taps, each kept in an ordered map keyed by its handle.
//!
//! A mix is rejected before any output sample is touched: the output must
//! have the mixer's format, and each input must be a distinct registered
//! source whose buffer has the mixer's format and the output's frame count.
use vstd::prelude::*;

use crate::buffer::AudioBuffer;
use std::collections::BTreeMap;
use vstd::std_specs::iter::IteratorSpec;
use crate::error::AudioError;
use crate::monitor::AudioMonitorTap;
use crate::types::{AudioFormat, AudioMonitorTapId, AudioSourceId, MAX_AUDIO_FRAMES};

verus! {

/// What is checked of one mix input: its source, format and frame count.
pub open spec fn input_shape<S: Copy>(input: (AudioSourceId, &AudioBuffer<S>)) -> (
    AudioSourceId,
    AudioFormat,
    int,
) {
    (input.0, input.1.spec_format(), input.1.spec_frames())
}

/// The error that input `i` raises, given the inputs before it.
pub open spec fn input_error(
    inputs: Seq<(AudioSourceId, AudioFormat, int)>,
    i: int,
    registered: Set<AudioSourceId>,
    format: AudioFormat,
    frames: int,
) -> Option<AudioError> {
    let (source, input_format, input_frames) = inputs[i];
    if exists|j: int| 0 <= j < i && (#[trigger] inputs[j]).0 == source {
        Some(AudioError::DuplicateInput(source))
    } else if !registered.contains(source) {
        Some(AudioError::UnknownSource(source))
    } else if input_format != format {
        Some(AudioError::FormatMismatch { expected: format, actual: input_format })
    } else if input_frames != frames {
        Some(AudioError::FrameCountMismatch { expected: frames as usize, actual: input_frames as usize })
    } else {
        None
    }
}

/// The first error among the first `n` inputs, in input order.
pub open spec fn first_input_error(
    inputs: Seq<(AudioSourceId, AudioFormat, int)>,
    n: int,
    registered: Set<AudioSourceId>,
    format: AudioFormat,
    frames: int,
) -> Option<AudioError>
    decreases n,
{
    if n <= 0 {
        None
    } else {
        match first_input_error(inputs, n - 1, registered, format, frames) {
            Some(error) => Some(error),
            None => input_error(inputs, n - 1, registered, format, frames),
        }
    }
}

/// Once an error is found among the first `k` inputs, the inputs after them
/// do not change which error is reported.
pub proof fn lemma_first_error_stable(
    inputs: Seq<(AudioSourceId, AudioFormat, int)>,
    k: int,
    n: int,
    registered: Set<AudioSourceId>,
    format: AudioFormat,
    frames: int,
)
    requires
        0 <= k <= n,
        first_input_error(inputs, k, registered, format, frames) is Some,
    ensures
        first_input_error(inputs, n, registered, format, frames) == first_input_error(
            inputs,
            k,
            registered,
            format,
            frames,
        ),
    decreases n - k,
{
    if n > k {
        lemma_first_error_stable(inputs, k, n - 1, registered, format, frames);
    }
}

/// Checks a mix request before any sample is written.
///
/// `registered` lists the mixer's sources; only which handles it holds
/// matters. Returns, in this order,
/// [`AudioError::FormatMismatch`] when the output does not have the mixer
/// format, [`AudioError::BufferTooLarge`] for an output above the frame
/// limit, and then the first input error: [`AudioError::DuplicateInput`],
/// [`AudioError::UnknownSource`], [`AudioError::FormatMismatch`] or
/// [`AudioError::FrameCountMismatch`].
pub fn validate_mix<S: Copy>(
    format: AudioFormat,
    output: &AudioBuffer<S>,
    inputs: &[(AudioSourceId, &AudioBuffer<S>)],
    registered: &[AudioSourceId],
) -> (result: Result<(), AudioError>)
    ensures
        ({
            let shapes = inputs@.map_values(|input: (AudioSourceId, &AudioBuffer<S>)| input_shape(input));
            if output.spec_format() != format {
                result == Err::<(), AudioError>(
                    AudioError::FormatMismatch { expected: format, actual: output.spec_format() },
                )
            } else if output.spec_frames() > MAX_AUDIO_FRAMES {
                result matches Err(AudioError::BufferTooLarge { frames })
                    && frames == output.spec_frames()
            } else {
                match first_input_error(
                    shapes,
                    shapes.len() as int,
                    registered@.to_set(),
                    format,
                    output.spec_frames(),
                ) {
                    Some(error) => result == Err::<(), AudioError>(error),
                    None => result is Ok,
                }
            }
        }),
{
    let ghost shapes = inputs@.map_values(|input: (AudioSourceId, &AudioBuffer<S>)| input_shape(input));
    if output.format() != format {
        return Err(AudioError::FormatMismatch { expected: format, actual: output.format() });
    }
    let frames = output.frames();
    if frames > MAX_AUDIO_FRAMES {
        return Err(AudioError::BufferTooLarge { frames });
    }
    let mut index: usize = 0;
    while index < inputs.len()
        invariant
            index <= inputs@.len(),
            shapes == inputs@.map_values(|input: (AudioSourceId, &AudioBuffer<S>)| input_shape(input)),
            frames == output.spec_frames(),
            output.spec_format() == format,
            frames <= MAX_AUDIO_FRAMES,
            first_input_error(shapes, index as int, registered@.to_set(), format, frames as int) is None,
        decreases inputs@.len() - index,
    {
        let (source, buffer) = inputs[index];
        assert(shapes[index as int] == (source, buffer.spec_format(), buffer.spec_frames()));
        let mut previous: usize = 0;
        while previous < index
            invariant
                previous <= index < inputs@.len(),
                shapes == inputs@.map_values(
                    |input: (AudioSourceId, &AudioBuffer<S>)| input_shape(input),
                ),
                source == shapes[index as int].0,
                frames == output.spec_frames(),
                output.spec_format() == format,
                frames <= MAX_AUDIO_FRAMES,
                first_input_error(shapes, index as int, registered@.to_set(), format, frames as int) is None,
                forall|j: int| 0 <= j < previous ==> (#[trigger] shapes[j]).0 != source,
            decreases index - previous,
        {
            let (earlier, _) = inputs[previous];
            assert(shapes[previous as int].0 == earlier);
            if earlier == source {
                proof {
                    assert(input_error(shapes, index as int, registered@.to_set(), format, frames as int)
                        == Some(AudioError::DuplicateInput(source)));
                    lemma_first_error_stable(
                        shapes,
                        index as int + 1,
                        shapes.len() as int,
                        registered@.to_set(),
                        format,
                        frames as int,
                    );
                }
                return Err(AudioError::DuplicateInput(source));
            }
            previous = previous + 1;
        }
        let ghost no_duplicate = !exists|j: int|
            0 <= j < index && (#[trigger] shapes[j]).0 == source;
        assert(no_duplicate);
        let ghost error = input_error(shapes, index as int, registered@.to_set(), format, frames as int);
        if !contains_source(registered, source) {
            proof {
                assert(error == Some(AudioError::UnknownSource(source)));
                lemma_first_error_stable(
                    shapes,
                    index as int + 1,
                    shapes.len() as int,
                    registered@.to_set(),
                    format,
                    frames as int,
                );
            }
            return Err(AudioError::UnknownSource(source));
        }
        if buffer.format() != format {
            proof {
                assert(error == Some(
                    AudioError::FormatMismatch { expected: format, actual: buffer.spec_format() },
                ));
                lemma_first_error_stable(
                    shapes,
                    index as int + 1,
                    shapes.len() as int,
                    registered@.to_set(),
                    format,
                    frames as int,
                );
            }
            return Err(AudioError::FormatMismatch { expected: format, actual: buffer.format() });
        }
        if buffer.frames() != frames {
            proof {
                assert(error matches Some(AudioError::FrameCountMismatch { expected, actual })
                    && expected == frames && actual == buffer.spec_frames());
                lemma_first_error_stable(
                    shapes,
                    index as int + 1,
                    shapes.len() as int,
                    registered@.to_set(),
                    format,
                    frames as int,
                );
            }
            return Err(AudioError::FrameCountMismatch { expected: frames, actual: buffer.frames() });
        }
        assert(error is None);
        index = index + 1;
    }
    Ok(())
}

/// Whether `source` is among `registered`.
pub fn contains_source(registered: &[AudioSourceId], source: AudioSourceId) -> (found: bool)
    ensures
        found == registered@.contains(source),
{
    let mut i: usize = 0;
    while i < registered.len()
        invariant
            i <= registered@.len(),
            forall|j: int| 0 <= j < i ==> registered@[j] != source,
        decreases registered@.len() - i,
    {
        if registered[i] == source {
            assert(registered@[i as int] == source);
            return true;
        }
        i = i + 1;
    }
    false
}

/// Allocates the next source handle from a counter.
///
/// Returns the handle and the advanced counter, or
/// [`AudioError::SourceIdExhausted`] when the counter cannot advance.
pub fn allocate_source_id(next: u64) -> (result: Result<(AudioSourceId, u64), AudioError>)
    ensures
        match result {
            Ok((id, advanced)) => next < u64::MAX && id.0 == next && advanced == next + 1,
            Err(error) => next == u64::MAX && error == AudioError::SourceIdExhausted,
        },
{
    match next.checked_add(1) {
        Some(advanced) => Ok((AudioSourceId(next), advanced)),
        None => Err(AudioError::SourceIdExhausted),
    }
}

/// Allocates the next monitor tap handle from a counter.
///
/// Returns the handle and the advanced counter, or
/// [`AudioError::MonitorTapIdExhausted`] when the counter cannot advance.
pub fn allocate_tap_id(next: u64) -> (result: Result<(AudioMonitorTapId, u64), AudioError>)
    ensures
        match result {
            Ok((id, advanced)) => next < u64::MAX && id.0 == next && advanced == next + 1,
            Err(error) => next == u64::MAX && error == AudioError::MonitorTapIdExhausted,
        },
{
    match next.checked_add(1) {
        Some(advanced) => Ok((AudioMonitorTapId(next), advanced)),
        None => Err(AudioError::MonitorTapIdExhausted),
    }
}

/// Converts a clamped peak in thousandths to the meter's range: values at or
/// above `u16::MAX` saturate.
pub fn peak_milli_from_scaled(scaled: u32) -> (milli: u16)
    ensures
        milli == if scaled > u16::MAX {
            u16::MAX as int
        } else {
            scaled as int
        },
{
    if scaled > 65_535 {
        65_535
    } else {
        scaled as u16
    }
}

/// What the mixer keeps of one registered source besides its gain and pan.
#[derive(Clone, Copy, Debug, PartialEq, Eq, Structural)]
pub struct SourceState {
    /// The source's handle.
    pub id: AudioSourceId,
    /// Whether the source is muted.
    pub muted: bool,
    /// The latest bounded post-gain peak, in thousandths.
    pub peak_milli: u16,
}

/// Whether `keys` lists exactly the keys of `map`, in strictly increasing
/// order.
pub open spec fn keys_in_order<V>(keys: Seq<u64>, map: Map<u64, V>) -> bool {
    &&& forall|i: int, j: int| 0 <= i < j < keys.len() ==> keys[i] < keys[j]
    &&& forall|i: int| 0 <= i < keys.len() ==> map.contains_key(#[trigger] keys[i])
    &&& forall|k: u64| map.contains_key(k) ==> keys.contains(k)
}

/// The handles of the registered sources of a registry.
pub open spec fn registered_ids(sources: Map<u64, SourceState>) -> Set<AudioSourceId> {
    Set::new(|id: AudioSourceId| sources.contains_key(id.0))
}

proof fn lemma_increasing_keys(s: Seq<&u64>)
    requires
        vstd::std_specs::btree::increasing_seq(s),
    ensures
        forall|i: int, j: int| 0 <= i < j < s.len() ==> *s[i] < *s[j],
{
    broadcast use vstd::std_specs::btree::group_btree_axioms, vstd::laws_cmp::group_laws_cmp;

    assert(vstd::laws_cmp::obeys_cmp::<&u64>());
    vstd::std_specs::btree::axiom_increasing_seq_meaning::<&u64>(s);
    assert forall|i: int, j: int| 0 <= i < j < s.len() implies *s[i] < *s[j] by {
        assert(vstd::std_specs::cmp::OrdSpec::cmp_spec(&s[i], &s[j]) is Less);
    }
}

proof fn lemma_u64_keys_obey_order()
    ensures
        vstd::laws_cmp::obeys_cmp::<u64>(),
        vstd::std_specs::btree::key_obeys_cmp_spec::<u64>(),
{
    broadcast use vstd::std_specs::btree::group_btree_axioms, vstd::laws_cmp::group_laws_cmp;

    assert(vstd::laws_cmp::obeys_cmp::<u64>());
}

/// The keys of a map, in increasing order.
fn ordered_keys<V>(map: &BTreeMap<u64, V>) -> (keys: Vec<u64>)
    ensures
        keys_in_order(keys@, map@),
        keys@.len() == map@.len(),
{
    broadcast use vstd::std_specs::btree::group_btree_axioms;

    proof {
        lemma_u64_keys_obey_order();
    }
    let iter = map.keys();
    let ghost all = iter.remaining();
    proof {
        lemma_increasing_keys(all);
    }
    let mut keys: Vec<u64> = Vec::new();
    for k in it: iter
        invariant
            all == it.seq(),
            keys@ == it.seq().take(it.index() as int).map_values(|k: &u64| *k),
    {
        keys.push(*k);
        assert(keys@ =~= it.seq().take(it.index() + 1).map_values(|k: &u64| *k));
    }
    assert(keys@ =~= all.map_values(|k: &u64| *k));
    assert forall|k: u64| map@.contains_key(k) implies keys@.contains(k) by {
        assert(all.unref().to_set().contains(k));
        let i = choose|i: int| 0 <= i < all.len() && *all[i] == k;
        assert(keys@[i] == k);
    }
    assert forall|i: int| 0 <= i < keys@.len() implies map@.contains_key(#[trigger] keys@[i]) by {
        assert(all.unref()[i] == *all[i]);
        assert(all.unref().contains(*all[i]));
        assert(all.unref().to_set().contains(*all[i]));
    }
    keys
}

/// The mixer's registry of sources and monitor taps, each keyed by its
/// handle.
///
/// Handles are allocated from counters that start at one and only grow, so
/// a handle is never reused. The per-source gain and pan, and the
/// arithmetic on samples, are kept by the caller.
pub struct AudioMixerCore<T> {
    format: AudioFormat,
    sources: BTreeMap<u64, SourceState>,
    taps: BTreeMap<u64, AudioMonitorTap<T>>,
    next_source_id: u64,
    next_monitor_tap_id: u64,
}

impl<T> AudioMixerCore<T> {
    /// The mixer format.
    pub closed spec fn spec_format(&self) -> AudioFormat {
        self.format
    }

    /// The registered sources, by handle.
    pub closed spec fn spec_sources(&self) -> Map<u64, SourceState> {
        self.sources@
    }

    /// The registered taps, by handle.
    pub closed spec fn spec_taps(&self) -> Map<u64, AudioMonitorTap<T>> {
        self.taps@
    }

    /// The next source handle to be allocated.
    pub closed spec fn spec_next_source_id(&self) -> u64 {
        self.next_source_id
    }

    /// The next tap handle to be allocated.
    pub closed spec fn spec_next_tap_id(&self) -> u64 {
        self.next_monitor_tap_id
    }

    /// The registry's invariant: each source is stored under its own
    /// handle, every handle is below the next one to be allocated, and the
    /// taps are well formed.
    pub open spec fn inv(&self) -> bool {
        &&& forall|k: u64| #[trigger]
            self.spec_sources().contains_key(k) ==> self.spec_sources()[k].id.0 == k && k
                < self.spec_next_source_id()
        &&& forall|k: u64| #[trigger]
            self.spec_taps().contains_key(k) ==> k < self.spec_next_tap_id() && self.spec_taps()[k].inv()
    }

    /// Creates an empty mixer for one audio format.
    pub fn new(format: AudioFormat) -> (mixer: Self)
        ensures
            mixer.inv(),
            mixer.spec_format() == format,
            mixer.spec_sources() == Map::<u64, SourceState>::empty(),
            mixer.spec_taps() == Map::<u64, AudioMonitorTap<T>>::empty(),
            mixer.spec_next_source_id() == 1,
            mixer.spec_next_tap_id() == 1,
    {
        AudioMixerCore {
            format,
            sources: BTreeMap::new(),
            taps: BTreeMap::new(),
            next_source_id: 1,
            next_monitor_tap_id: 1,
        }
    }

    /// Returns the mixer format.
    pub fn format(&self) -> (format: AudioFormat)
        ensures
            format == self.spec_format(),
    {
        self.format
    }

    /// Returns the number of registered sources.
    pub fn source_count(&self) -> (count: usize)
        ensures
            count == self.spec_sources().len(),
    {
        broadcast use vstd::std_specs::btree::group_btree_axioms;

        proof {
            lemma_u64_keys_obey_order();
        }
        self.sources.len()
    }

    /// Returns the handles of the registered sources, in handle order.
    pub fn source_ids(&self) -> (ids: Vec<AudioSourceId>)
        requires
            self.inv(),
        ensures
            keys_in_order(ids@.map_values(|id: AudioSourceId| id.0), self.spec_sources()),
    {
        let keys = ordered_keys(&self.sources);
        let mut ids: Vec<AudioSourceId> = Vec::new();
        let mut i: usize = 0;
        while i < keys.len()
            invariant
                i <= keys@.len(),
                ids@.len() == i,
                forall|j: int| 0 <= j < i ==> (#[trigger] ids@[j]).0 == keys@[j],
            decreases keys@.len() - i,
        {
            ids.push(AudioSourceId(keys[i]));
            i = i + 1;
        }
        assert(ids@.map_values(|id: AudioSourceId| id.0) =~= keys@);
        ids
    }

    /// Whether a source is registered.
    pub fn has_source(&self, id: AudioSourceId) -> (found: bool)
        ensures
            found == self.spec_sources().contains_key(id.0),
    {
        broadcast use vstd::std_specs::btree::group_btree_axioms;

        proof {
            lemma_u64_keys_obey_order();
        }
        self.sources.contains_key(&id.0)
    }

    /// Registers a new unmuted source with no peak yet.
    ///
    /// Returns [`AudioError::SourceIdExhausted`] when no new handle is
    /// available.
    pub fn add_source(&mut self) -> (result: Result<AudioSourceId, AudioError>)
        requires
            old(self).inv(),
        ensures
            final(self).inv(),
            final(self).spec_format() == old(self).spec_format(),
            final(self).spec_taps() == old(self).spec_taps(),
            final(self).spec_next_tap_id() == old(self).spec_next_tap_id(),
            match result {
                Ok(id) => {
                    &&& old(self).spec_next_source_id() < u64::MAX
                    &&& id.0 == old(self).spec_next_source_id()
                    &&& forall|k: u64| #[trigger] old(self).spec_sources().contains_key(k) ==> k < id.0
                    &&& final(self).spec_next_source_id() == id.0 + 1
                    &&& final(self).spec_sources() == old(self).spec_sources().insert(
                        id.0,
                        SourceState { id, muted: false, peak_milli: 0 },
                    )
                },
                Err(error) => {
                    &&& old(self).spec_next_source_id() == u64::MAX
                    &&& error == AudioError::SourceIdExhausted
                    &&& final(self).spec_sources() == old(self).spec_sources()
                    &&& final(self).spec_next_source_id() == old(self).spec_next_source_id()
                },
            },
    {
        broadcast use vstd::std_specs::btree::group_btree_axioms;

        proof {
            lemma_u64_keys_obey_order();
        }
        match allocate_source_id(self.next_source_id) {
            Ok((id, next)) => {
                self.next_source_id = next;
                let ghost before = self.sources@;
                self.sources.insert(id.0, SourceState { id, muted: false, peak_milli: 0 });
                proof {
                    assert(vstd::laws_cmp::obeys_cmp::<u64>());
                    assert(self.sources@ == before.insert(id.0, SourceState { id, muted: false, peak_milli: 0 }));
                    assert forall|k: u64| #[trigger] self.sources@.contains_key(k) implies self.sources@[k].id.0
                        == k && k < self.next_source_id by {
                        if k != id.0 {
                            assert(old(self).spec_sources().contains_key(k));
                        }
                    }
                    assert(forall|k: u64| #[trigger]
                        self.spec_sources().contains_key(k) ==> self.spec_sources()[k].id.0 == k && k
                            < self.spec_next_source_id());
                    assert(self.taps@ == old(self).taps@);
                    assert(forall|k: u64| #[trigger]
                        old(self).spec_taps().contains_key(k) ==> k < old(self).spec_next_tap_id() && old(self).spec_taps()[k].inv());
                    assert(self.spec_taps() == old(self).spec_taps());
                    assert(self.spec_next_tap_id() == old(self).spec_next_tap_id());
                    assert(forall|k: u64| #[trigger]
                        self.spec_taps().contains_key(k) ==> k < self.spec_next_tap_id() && self.spec_taps()[k].inv());
                }
                Ok(id)
            },
            Err(error) => Err(error),
        }
    }

    /// Mutes or unmutes one source.
    ///
    /// Returns [`AudioError::UnknownSource`] for an unknown source.
    pub fn set_muted(&mut self, id: AudioSourceId, muted: bool) -> (result: Result<(), AudioError>)
        requires
            old(self).inv(),
        ensures
            final(self).inv(),
            final(self).spec_format() == old(self).spec_format(),
            final(self).spec_taps() == old(self).spec_taps(),
            final(self).spec_next_source_id() == old(self).spec_next_source_id(),
            final(self).spec_next_tap_id() == old(self).spec_next_tap_id(),
            if old(self).spec_sources().contains_key(id.0) {
                result is Ok && final(self).spec_sources() == old(self).spec_sources().insert(
                    id.0,
                    SourceState { muted, ..old(self).spec_sources()[id.0] },
                )
            } else {
                result == Err::<(), AudioError>(AudioError::UnknownSource(id))
                    && final(self).spec_sources() == old(self).spec_sources()
            },
    {
        broadcast use vstd::std_specs::btree::group_btree_axioms;

        proof {
            lemma_u64_keys_obey_order();
        }
        let state = match self.sources.get(&id.0) {
            Some(state) => *state,
            None => return Err(AudioError::UnknownSource(id)),
        };
        let ghost before = self.sources@;
        self.sources.insert(id.0, SourceState { muted, ..state });
        proof {
            assert(self.spec_taps() == old(self).spec_taps());
            assert(forall|k: u64| #[trigger]
                old(self).spec_taps().contains_key(k) ==> k < old(self).spec_next_tap_id()
                    && old(self).spec_taps()[k].inv());
            assert forall|k: u64| #[trigger] self.sources@.contains_key(k) implies self.sources@[k].id.0 == k
                && k < self.next_source_id by {
                assert(old(self).spec_sources().contains_key(k));
            }
        }
        Ok(())
    }

    /// Records the latest bounded peak of one source.
    ///
    /// Returns [`AudioError::UnknownSource`] for an unknown source.
    pub fn set_peak_milli(&mut self, id: AudioSourceId, peak_milli: u16) -> (result: Result<
        (),
        AudioError,
    >)
        requires
            old(self).inv(),
        ensures
            final(self).inv(),
            final(self).spec_format() == old(self).spec_format(),
            final(self).spec_taps() == old(self).spec_taps(),
            final(self).spec_next_source_id() == old(self).spec_next_source_id(),
            final(self).spec_next_tap_id() == old(self).spec_next_tap_id(),
            if old(self).spec_sources().contains_key(id.0) {
                result is Ok && final(self).spec_sources() == old(self).spec_sources().insert(
                    id.0,
                    SourceState { peak_milli, ..old(self).spec_sources()[id.0] },
                )
            } else {
                result == Err::<(), AudioError>(AudioError::UnknownSource(id))
                    && final(self).spec_sources() == old(self).spec_sources()
            },
    {
        broadcast use vstd::std_specs::btree::group_btree_axioms;

        proof {
            lemma_u64_keys_obey_order();
        }
        let state = match self.sources.get(&id.0) {
            Some(state) => *state,
            None => return Err(AudioError::UnknownSource(id)),
        };
        let ghost before = self.sources@;
        self.sources.insert(id.0, SourceState { peak_milli, ..state });
        proof {
            assert(self.spec_taps() == old(self).spec_taps());
            assert(forall|k: u64| #[trigger]
                old(self).spec_taps().contains_key(k) ==> k < old(self).spec_next_tap_id()
                    && old(self).spec_taps()[k].inv());
            assert forall|k: u64| #[trigger] self.sources@.contains_key(k) implies self.sources@[k].id.0 == k
                && k < self.next_source_id by {
                assert(old(self).spec_sources().contains_key(k));
            }
        }
        Ok(())
    }

    /// Returns one source's state.
    ///
    /// Returns [`AudioError::UnknownSource`] for an unknown source.
    pub fn source_state(&self, id: AudioSourceId) -> (result: Result<SourceState, AudioError>)
        ensures
            if self.spec_sources().contains_key(id.0) {
                result == Ok::<SourceState, AudioError>(self.spec_sources()[id.0])
            } else {
                result == Err::<SourceState, AudioError>(AudioError::UnknownSource(id))
            },
    {
        broadcast use vstd::std_specs::btree::group_btree_axioms;

        proof {
            lemma_u64_keys_obey_order();
        }
        match self.sources.get(&id.0) {
            Some(state) => Ok(*state),
            None => Err(AudioError::UnknownSource(id)),
        }
    }

    /// Returns the latest bounded post-gain peak for one source.
    ///
    /// Returns [`AudioError::UnknownSource`] for an unknown source.
    pub fn source_peak_milli(&self, id: AudioSourceId) -> (result: Result<u16, AudioError>)
        ensures
            if self.spec_sources().contains_key(id.0) {
                result == Ok::<u16, AudioError>(self.spec_sources()[id.0].peak_milli)
            } else {
                result == Err::<u16, AudioError>(AudioError::UnknownSource(id))
            },
    {
        match self.source_state(id) {
            Ok(state) => Ok(state.peak_milli),
            Err(error) => Err(error),
        }
    }

    /// Removes a source from future mixes.
    ///
    /// Returns [`AudioError::UnknownSource`] for an unknown source.
    pub fn remove_source(&mut self, id: AudioSourceId) -> (result: Result<(), AudioError>)
        requires
            old(self).inv(),
        ensures
            final(self).inv(),
            final(self).spec_format() == old(self).spec_format(),
            final(self).spec_taps() == old(self).spec_taps(),
            final(self).spec_next_source_id() == old(self).spec_next_source_id(),
            final(self).spec_next_tap_id() == old(self).spec_next_tap_id(),
            if old(self).spec_sources().contains_key(id.0) {
                result is Ok && final(self).spec_sources() == old(self).spec_sources().remove(id.0)
            } else {
                result == Err::<(), AudioError>(AudioError::UnknownSource(id))
                    && final(self).spec_sources() == old(self).spec_sources()
            },
    {
        broadcast use vstd::std_specs::btree::group_btree_axioms;

        proof {
            lemma_u64_keys_obey_order();
        }
        let ghost before = self.sources@;
        let removed = self.sources.remove(&id.0);
        proof {
            assert(self.spec_taps() == old(self).spec_taps());
            assert(forall|k: u64| #[trigger]
                old(self).spec_taps().contains_key(k) ==> k < old(self).spec_next_tap_id()
                    && old(self).spec_taps()[k].inv());
            assert forall|k: u64| #[trigger] self.sources@.contains_key(k) implies self.sources@[k].id.0 == k
                && k < self.next_source_id by {
                assert(old(self).spec_sources().contains_key(k));
            }
        }
        match removed {
            Some(_) => Ok(()),
            None => Err(AudioError::UnknownSource(id)),
        }
    }

    /// The registered monitor taps, in handle order.
    pub fn monitor_tap_ids(&self) -> (ids: Vec<AudioMonitorTapId>)
        ensures
            keys_in_order(ids@.map_values(|id: AudioMonitorTapId| id.0), self.spec_taps()),
    {
        let keys = ordered_keys(&self.taps);
        let mut ids: Vec<AudioMonitorTapId> = Vec::new();
        let mut i: usize = 0;
        while i < keys.len()
            invariant
                i <= keys@.len(),
                ids@.len() == i,
                forall|j: int| 0 <= j < i ==> (#[trigger] ids@[j]).0 == keys@[j],
            decreases keys@.len() - i,
        {
            ids.push(AudioMonitorTapId(keys[i]));
            i = i + 1;
        }
        assert(ids@.map_values(|id: AudioMonitorTapId| id.0) =~= keys@);
        ids
    }

    /// Whether any monitor tap is registered.
    pub fn has_monitor_taps(&self) -> (any: bool)
        ensures
            any == (self.spec_taps().len() > 0),
    {
        broadcast use vstd::std_specs::btree::group_btree_axioms;

        proof {
            lemma_u64_keys_obey_order();
        }
        !self.taps.is_empty()
    }

    /// Adds a bounded post-mix monitoring tap.
    ///
    /// Returns [`AudioError::ZeroMonitorCapacity`] for a zero capacity or
    /// [`AudioError::MonitorTapIdExhausted`] when no new handle is available.
    pub fn add_monitor_tap(&mut self, capacity_buffers: usize) -> (result: Result<
        AudioMonitorTapId,
        AudioError,
    >)
        requires
            old(self).inv(),
        ensures
            final(self).inv(),
            final(self).spec_format() == old(self).spec_format(),
            final(self).spec_sources() == old(self).spec_sources(),
            final(self).spec_next_source_id() == old(self).spec_next_source_id(),
            match result {
                Ok(id) => {
                    &&& capacity_buffers > 0
                    &&& old(self).spec_next_tap_id() < u64::MAX
                    &&& id.0 == old(self).spec_next_tap_id()
                    &&& forall|k: u64| #[trigger] old(self).spec_taps().contains_key(k) ==> k < id.0
                    &&& final(self).spec_next_tap_id() == id.0 + 1
                    &&& final(self).spec_taps().dom() == old(self).spec_taps().dom().insert(id.0)
                    &&& final(self).spec_taps().remove(id.0) == old(self).spec_taps()
                    &&& final(self).spec_taps()[id.0].spec_capacity() == capacity_buffers
                    &&& final(self).spec_taps()[id.0].spec_dropped() == 0
                    &&& final(self).spec_taps()[id.0].spec_buffers() == Seq::<T>::empty()
                },
                Err(error) => {
                    &&& error == if capacity_buffers == 0 {
                        AudioError::ZeroMonitorCapacity
                    } else {
                        AudioError::MonitorTapIdExhausted
                    }
                    &&& capacity_buffers > 0 ==> old(self).spec_next_tap_id() == u64::MAX
                    &&& final(self).spec_taps() == old(self).spec_taps()
                    &&& final(self).spec_next_tap_id() == old(self).spec_next_tap_id()
                },
            },
    {
        broadcast use vstd::std_specs::btree::group_btree_axioms;

        proof {
            lemma_u64_keys_obey_order();
        }
        let tap = match AudioMonitorTap::new(capacity_buffers) {
            Ok(tap) => tap,
            Err(error) => return Err(error),
        };
        match allocate_tap_id(self.next_monitor_tap_id) {
            Ok((id, next)) => {
                let ghost before = self.taps@;
                self.next_monitor_tap_id = next;
                self.taps.insert(id.0, tap);
                proof {
                    assert(self.spec_sources() == old(self).spec_sources());
                    assert(forall|k: u64| #[trigger]
                        old(self).spec_sources().contains_key(k) ==> old(self).spec_sources()[k].id.0 == k && k
                            < old(self).spec_next_source_id());
                    assert(forall|k: u64| #[trigger]
                        old(self).spec_taps().contains_key(k) ==> k < old(self).spec_next_tap_id()
                            && old(self).spec_taps()[k].inv());
                    if before.contains_key(id.0) {
                        assert(old(self).spec_taps().contains_key(id.0));
                    }
                    assert(self.taps@.remove(id.0) =~= before);
                    assert forall|k: u64| #[trigger] self.taps@.contains_key(k) implies k
                        < self.next_monitor_tap_id && self.taps@[k].inv() by {
                        if k != id.0 {
                            assert(old(self).spec_taps().contains_key(k));
                        }
                    }
                }
                Ok(id)
            },
            Err(error) => Err(error),
        }
    }

    /// Removes a monitoring tap and returns it with its retained buffers.
    ///
    /// Returns [`AudioError::UnknownMonitorTap`] for an unknown tap.
    pub fn remove_monitor_tap(&mut self, id: AudioMonitorTapId) -> (result: Result<
        AudioMonitorTap<T>,
        AudioError,
    >)
        requires
            old(self).inv(),
        ensures
            final(self).inv(),
            final(self).spec_format() == old(self).spec_format(),
            final(self).spec_sources() == old(self).spec_sources(),
            final(self).spec_next_source_id() == old(self).spec_next_source_id(),
            final(self).spec_next_tap_id() == old(self).spec_next_tap_id(),
            if old(self).spec_taps().contains_key(id.0) {
                &&& result == Ok::<AudioMonitorTap<T>, AudioError>(old(self).spec_taps()[id.0])
                &&& final(self).spec_taps() == old(self).spec_taps().remove(id.0)
            } else {
                &&& result == Err::<AudioMonitorTap<T>, AudioError>(AudioError::UnknownMonitorTap(id))
                &&& final(self).spec_taps() == old(self).spec_taps()
            },
    {
        broadcast use vstd::std_specs::btree::group_btree_axioms;

        proof {
            lemma_u64_keys_obey_order();
        }
        let removed = self.taps.remove(&id.0);
        proof {
            assert(self.spec_sources() == old(self).spec_sources());
            assert(forall|k: u64| #[trigger]
                old(self).spec_sources().contains_key(k) ==> old(self).spec_sources()[k].id.0 == k && k
                    < old(self).spec_next_source_id());
            assert(forall|k: u64| #[trigger]
                old(self).spec_taps().contains_key(k) ==> k < old(self).spec_next_tap_id()
                    && old(self).spec_taps()[k].inv());
            assert forall|k: u64| #[trigger] self.taps@.contains_key(k) implies k < self.next_monitor_tap_id
                && self.taps@[k].inv() by {
                assert(old(self).spec_taps().contains_key(k));
            }
        }
        match removed {
            Some(tap) => Ok(tap),
            None => Err(AudioError::UnknownMonitorTap(id)),
        }
    }

    /// Removes the oldest buffer from one monitoring tap.
    ///
    /// Returns [`AudioError::UnknownMonitorTap`] for an unknown tap.
    pub fn pop_monitor_buffer(&mut self, id: AudioMonitorTapId) -> (result: Result<
        Option<T>,
        AudioError,
    >)
        requires
            old(self).inv(),
        ensures
            final(self).inv(),
            final(self).spec_format() == old(self).spec_format(),
            final(self).spec_sources() == old(self).spec_sources(),
            final(self).spec_next_source_id() == old(self).spec_next_source_id(),
            final(self).spec_next_tap_id() == old(self).spec_next_tap_id(),
            if old(self).spec_taps().contains_key(id.0) {
                let before = old(self).spec_taps()[id.0];
                let after = final(self).spec_taps()[id.0];
                &&& final(self).spec_taps().dom() == old(self).spec_taps().dom()
                &&& final(self).spec_taps().remove(id.0) == old(self).spec_taps().remove(id.0)
                &&& after.spec_capacity() == before.spec_capacity()
                &&& after.spec_dropped() == before.spec_dropped()
                &&& if before.spec_buffers().len() == 0 {
                    &&& result == Ok::<Option<T>, AudioError>(None)
                    &&& after.spec_buffers() == before.spec_buffers()
                } else {
                    &&& result == Ok::<Option<T>, AudioError>(Some(before.spec_buffers()[0]))
                    &&& after.spec_buffers() == before.spec_buffers().skip(1)
                }
            } else {
                &&& result == Err::<Option<T>, AudioError>(AudioError::UnknownMonitorTap(id))
                &&& final(self).spec_taps() == old(self).spec_taps()
            },
    {
        broadcast use vstd::std_specs::btree::group_btree_axioms;

        proof {
            lemma_u64_keys_obey_order();
        }
        let ghost before = self.taps@;
        proof {
            assert(self.spec_sources() == old(self).spec_sources());
            assert(forall|k: u64| #[trigger]
                old(self).spec_sources().contains_key(k) ==> old(self).spec_sources()[k].id.0 == k && k
                    < old(self).spec_next_source_id());
            assert(forall|k: u64| #[trigger]
                old(self).spec_taps().contains_key(k) ==> k < old(self).spec_next_tap_id()
                    && old(self).spec_taps()[k].inv());
        }
        match self.taps.remove(&id.0) {
            Some(tap) => {
                let mut tap = tap;
                proof {
                    assert(old(self).spec_taps().contains_key(id.0));
                }
                let item = tap.pop();
                self.taps.insert(id.0, tap);
                proof {
                    assert(self.taps@.remove(id.0) =~= before.remove(id.0));
                    assert(self.taps@.dom() =~= before.dom());
                    assert forall|k: u64| #[trigger] self.taps@.contains_key(k) implies k
                        < self.next_monitor_tap_id && self.taps@[k].inv() by {
                        if k != id.0 {
                            assert(old(self).spec_taps().contains_key(k));
                        }
                    }
                }
                Ok(item)
            },
            None => {
                proof {
                    assert(self.taps@ =~= before);
                    assert(self.spec_taps() == old(self).spec_taps());
                }
                Err(AudioError::UnknownMonitorTap(id))
            },
        }
    }

    /// Returns the number of buffers dropped by one monitoring tap.
    ///
    /// Returns [`AudioError::UnknownMonitorTap`] for an unknown tap.
    pub fn monitor_dropped_buffers(&self, id: AudioMonitorTapId) -> (result: Result<u64, AudioError>)
        ensures
            if self.spec_taps().contains_key(id.0) {
                result == Ok::<u64, AudioError>(self.spec_taps()[id.0].spec_dropped())
            } else {
                result == Err::<u64, AudioError>(AudioError::UnknownMonitorTap(id))
            },
    {
        broadcast use vstd::std_specs::btree::group_btree_axioms;

        proof {
            lemma_u64_keys_obey_order();
        }
        match self.taps.get(&id.0) {
            Some(tap) => Ok(tap.dropped_buffers()),
            None => Err(AudioError::UnknownMonitorTap(id)),
        }
    }

    /// Hands one mixed snapshot to every monitor tap, each tap retaining its
    /// own clone of it.
    pub fn observe_all(&mut self, snapshot: &T)
        where
            T: Clone,
        requires
            old(self).inv(),
        ensures
            final(self).inv(),
            final(self).spec_format() == old(self).spec_format(),
            final(self).spec_sources() == old(self).spec_sources(),
            final(self).spec_next_source_id() == old(self).spec_next_source_id(),
            final(self).spec_next_tap_id() == old(self).spec_next_tap_id(),
            final(self).spec_taps().dom() == old(self).spec_taps().dom(),
            forall|k: u64|
                #[trigger] old(self).spec_taps().contains_key(k) ==> {
                    let after = final(self).spec_taps()[k];
                    &&& crate::monitor::tap_observed(old(self).spec_taps()[k], after, after.spec_buffers().last())
                    &&& cloned(*snapshot, after.spec_buffers().last())
                },
    {
        broadcast use vstd::std_specs::btree::group_btree_axioms;

        proof {
            lemma_u64_keys_obey_order();
        }
        let keys = ordered_keys(&self.taps);
        let ghost taps = self.taps@;
        let ghost start = *self;
        proof {
            assert forall|k: u64| #[trigger] self.taps@.contains_key(k) implies self.taps@[k].inv() by {
                assert(old(self).spec_taps().contains_key(k));
            }
            assert(self.spec_sources() == old(self).spec_sources());
            assert(forall|k: u64| #[trigger]
                old(self).spec_sources().contains_key(k) ==> old(self).spec_sources()[k].id.0 == k && k
                    < old(self).spec_next_source_id());
            assert(forall|k: u64| #[trigger]
                old(self).spec_taps().contains_key(k) ==> k < old(self).spec_next_tap_id()
                    && old(self).spec_taps()[k].inv());
        }
        let mut i: usize = 0;
        while i < keys.len()
            invariant
                i <= keys@.len(),
                keys_in_order(keys@, taps),
                start.inv(),
                start.taps@ == taps,
                self.format == start.format,
                self.sources@ == start.sources@,
                self.next_source_id == start.next_source_id,
                self.next_monitor_tap_id == start.next_monitor_tap_id,
                self.taps@.dom() == taps.dom(),
                vstd::laws_cmp::obeys_cmp::<u64>(),
                forall|k: u64| #[trigger] self.taps@.contains_key(k) ==> self.taps@[k].inv(),
                forall|j: int| i <= j < keys@.len() ==> self.taps@[#[trigger] keys@[j]] == taps[keys@[j]],
                forall|j: int|
                    0 <= j < i ==> {
                        let after = #[trigger] self.taps@[keys@[j]];
                        &&& crate::monitor::tap_observed(taps[keys@[j]], after, after.spec_buffers().last())
                        &&& cloned(*snapshot, after.spec_buffers().last())
                    },
            decreases keys@.len() - i,
        {
            let key = keys[i];
            let copy = snapshot.clone();
            let ghost before = self.taps@;
            match self.taps.remove(&key) {
                Some(tap) => {
                    let mut tap = tap;
                    tap.observe(copy);
                    self.taps.insert(key, tap);
                },
                None => {},
            }
            proof {
                assert(self.taps@.dom() =~= taps.dom());
                assert forall|j: int| 0 <= j < keys@.len() && j != i implies self.taps@[keys@[j]] == before[keys@[j]] by {
                    assert(keys@[j] != key);
                }
            }
            i = i + 1;
        }
        proof {
            assert forall|k: u64| #[trigger] taps.contains_key(k) implies {
                let after = self.taps@[k];
                &&& crate::monitor::tap_observed(taps[k], after, after.spec_buffers().last())
                &&& cloned(*snapshot, after.spec_buffers().last())
            } by {
                assert(keys@.contains(k));
                let j = choose|j: int| 0 <= j < keys@.len() && keys@[j] == k;
                assert(self.taps@[keys@[j]] == self.taps@[k]);
            }
            assert forall|k: u64| #[trigger] self.taps@.contains_key(k) implies k < self.next_monitor_tap_id
                && self.taps@[k].inv() by {
                assert(old(self).spec_taps().contains_key(k));
            }
            assert forall|k: u64| #[trigger] self.sources@.contains_key(k) implies self.sources@[k].id.0 == k
                && k < self.next_source_id by {
                assert(old(self).spec_sources().contains_key(k));
            }
        }
    }

    /// Checks a mix request against the registered sources before any
    /// sample is written; see [`validate_mix`].
    pub fn validate<S: Copy>(
        &self,
        output: &AudioBuffer<S>,
        inputs: &[(AudioSourceId, &AudioBuffer<S>)],
    ) -> (result: Result<(), AudioError>)
        requires
            self.inv(),
        ensures
            ({
                let shapes = inputs@.map_values(|input: (AudioSourceId, &AudioBuffer<S>)| input_shape(input));
                if output.spec_format() != self.spec_format() {
                    result == Err::<(), AudioError>(
                        AudioError::FormatMismatch { expected: self.spec_format(), actual: output.spec_format() },
                    )
                } else if output.spec_frames() > MAX_AUDIO_FRAMES {
                    result matches Err(AudioError::BufferTooLarge { frames })
                        && frames == output.spec_frames()
                } else {
                    match first_input_error(
                        shapes,
                        shapes.len() as int,
                        registered_ids(self.spec_sources()),
                        self.spec_format(),
                        output.spec_frames(),
                    ) {
                        Some(error) => result == Err::<(), AudioError>(error),
                        None => result is Ok,
                    }
                }
            }),
    {
        let registered = self.source_ids();
        proof {
            let keys = registered@.map_values(|id: AudioSourceId| id.0);
            assert forall|id: AudioSourceId| registered@.to_set().contains(id) == registered_ids(
                self.spec_sources(),
            ).contains(id) by {
                if registered@.contains(id) {
                    let i = choose|i: int| 0 <= i < registered@.len() && registered@[i] == id;
                    assert(keys[i] == id.0);
                }
                if self.spec_sources().contains_key(id.0) {
                    assert(keys.contains(id.0));
                    let i = choose|i: int| 0 <= i < keys.len() && keys[i] == id.0;
                    assert(registered@[i] == id);
                }
            }
            assert(registered@.to_set() =~= registered_ids(self.spec_sources()));
        }
        validate_mix(self.format, output, inputs, registered.as_slice())
    }
}

} // verus!
