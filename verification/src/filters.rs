//! Bounded, ordered audio filter descriptions for live source processing.
//!
//! The descriptions and their validation live here; the sample arithmetic
//! that applies a filter to a block is done where the sample type is known.
use vstd::prelude::*;

use crate::error::AudioError;

verus! {

/// Maximum number of ordered filters on one audio source.
pub const MAX_AUDIO_FILTERS: usize = 32;

/// Lower bound of the OBS Gain filter in thousandths of a decibel.
pub const MIN_GAIN_DB_MILLI: i32 = -30_000;

/// Upper bound of the OBS Gain filter in thousandths of a decibel.
pub const MAX_GAIN_DB_MILLI: i32 = 30_000;

/// A validated OBS-compatible audio gain value.
#[derive(Clone, Copy, Debug, PartialEq, Eq, Structural)]
pub struct AudioGain {
    milli_db: i32,
}

impl AudioGain {
    /// The gain in thousandths of a decibel.
    pub closed spec fn spec_milli_db(self) -> i32 {
        self.milli_db
    }

    /// Creates a gain in thousandths of a decibel.
    ///
    /// Returns [`AudioError::InvalidFilterGain`] outside the bounded range
    /// exposed by OBS's Gain filter.
    pub fn new(milli_db: i32) -> (result: Result<Self, AudioError>)
        ensures
            match result {
                Ok(gain) => MIN_GAIN_DB_MILLI <= milli_db <= MAX_GAIN_DB_MILLI
                    && gain.spec_milli_db() == milli_db,
                Err(error) => !(MIN_GAIN_DB_MILLI <= milli_db <= MAX_GAIN_DB_MILLI) && error
                    == AudioError::InvalidFilterGain { milli_db },
            },
    {
        if milli_db < MIN_GAIN_DB_MILLI || milli_db > MAX_GAIN_DB_MILLI {
            return Err(AudioError::InvalidFilterGain { milli_db });
        }
        Ok(AudioGain { milli_db })
    }

    /// Returns the gain in thousandths of a decibel.
    pub fn milli_db(self) -> (milli_db: i32)
        ensures
            milli_db == self.spec_milli_db(),
            MIN_GAIN_DB_MILLI <= milli_db <= MAX_GAIN_DB_MILLI,
    {
        proof {
            use_type_invariant(&self);
        }
        self.milli_db
    }

    /// A gain is determined by its value: two gains of the same
    /// thousandths of a decibel are equal.
    pub proof fn lemma_same_value_same_gain(self, other: AudioGain)
        requires
            self.spec_milli_db() == other.spec_milli_db(),
        ensures
            self == other,
    {
    }

    #[verifier::type_invariant]
    closed spec fn in_range(self) -> bool {
        MIN_GAIN_DB_MILLI <= self.milli_db <= MAX_GAIN_DB_MILLI
    }
}

/// One audio filter operation.
#[derive(Clone, Copy, Debug, PartialEq, Eq, Structural)]
pub enum AudioFilter {
    /// Multiplies every channel by the same OBS dB gain.
    Gain(AudioGain),
    /// Inverts the polarity of every channel without changing its magnitude.
    InvertPolarity,
}

impl AudioFilter {
    /// Creates a bounded Gain filter from thousandths of a decibel.
    ///
    /// Returns [`AudioError::InvalidFilterGain`] outside the supported range.
    pub fn gain_db_milli(milli_db: i32) -> (result: Result<Self, AudioError>)
        ensures
            match result {
                Ok(filter) => MIN_GAIN_DB_MILLI <= milli_db <= MAX_GAIN_DB_MILLI && filter is Gain
                    && filter->Gain_0.spec_milli_db() == milli_db,
                Err(error) => !(MIN_GAIN_DB_MILLI <= milli_db <= MAX_GAIN_DB_MILLI) && error
                    == AudioError::InvalidFilterGain { milli_db },
            },
    {
        match AudioGain::new(milli_db) {
            Ok(gain) => Ok(AudioFilter::Gain(gain)),
            Err(error) => Err(error),
        }
    }
}

/// A fixed-capacity ordered chain of audio filters.
#[derive(Debug, PartialEq, Eq)]
pub struct AudioFilterChain {
    filters: Vec<AudioFilter>,
}

impl Clone for AudioFilterChain {
    fn clone(&self) -> (copy: Self)
        ensures
            copy.spec_filters() == self.spec_filters(),
    {
        proof {
            use_type_invariant(self);
        }
        let mut filters: Vec<AudioFilter> = Vec::new();
        let mut i: usize = 0;
        while i < self.filters.len()
            invariant
                i <= self.filters@.len(),
                filters@ == self.filters@.take(i as int),
            decreases self.filters@.len() - i,
        {
            filters.push(self.filters[i]);
            i = i + 1;
            assert(filters@ =~= self.filters@.take(i as int));
        }
        assert(filters@ =~= self.filters@);
        AudioFilterChain { filters }
    }
}

impl Default for AudioFilterChain {
    fn default() -> (chain: Self)
        ensures
            chain.spec_filters() == Seq::<AudioFilter>::empty(),
    {
        AudioFilterChain::new()
    }
}

impl AudioFilterChain {
    /// The filters in processing order.
    pub closed spec fn spec_filters(&self) -> Seq<AudioFilter> {
        self.filters@
    }

    #[verifier::type_invariant]
    closed spec fn bounded(&self) -> bool {
        self.filters@.len() <= MAX_AUDIO_FILTERS
    }

    /// Creates an empty chain.
    pub fn new() -> (chain: Self)
        ensures
            chain.spec_filters() == Seq::<AudioFilter>::empty(),
    {
        AudioFilterChain { filters: Vec::new() }
    }

    /// Appends one filter in processing order.
    ///
    /// Returns [`AudioError::FilterChainFull`], leaving the chain unchanged,
    /// when the fixed chain capacity is reached.
    pub fn try_push(&mut self, filter: AudioFilter) -> (result: Result<(), AudioError>)
        ensures
            if old(self).spec_filters().len() < MAX_AUDIO_FILTERS {
                &&& result is Ok
                &&& final(self).spec_filters() == old(self).spec_filters().push(filter)
            } else {
                &&& result == Err::<(), AudioError>(AudioError::FilterChainFull { max: MAX_AUDIO_FILTERS })
                &&& final(self).spec_filters() == old(self).spec_filters()
            },
    {
        proof {
            use_type_invariant(&*self);
        }
        if self.filters.len() >= MAX_AUDIO_FILTERS {
            return Err(AudioError::FilterChainFull { max: MAX_AUDIO_FILTERS });
        }
        let mut filters = Vec::new();
        std::mem::swap(&mut filters, &mut self.filters);
        filters.push(filter);
        self.filters = filters;
        Ok(())
    }

    /// Removes every filter.
    pub fn clear(&mut self)
        ensures
            final(self).spec_filters() == Seq::<AudioFilter>::empty(),
    {
        self.filters = Vec::new();
    }

    /// Returns the current ordered filters.
    pub fn filters(&self) -> (filters: &[AudioFilter])
        ensures
            filters@ == self.spec_filters(),
    {
        self.filters.as_slice()
    }

    /// Returns the number of filters in the chain.
    pub fn len(&self) -> (len: usize)
        ensures
            len == self.spec_filters().len(),
            len <= MAX_AUDIO_FILTERS,
    {
        proof {
            use_type_invariant(self);
        }
        self.filters.len()
    }

    /// Returns whether the chain has no filters.
    pub fn is_empty(&self) -> (empty: bool)
        ensures
            empty <==> self.spec_filters().len() == 0,
    {
        self.filters.len() == 0
    }
}

} // verus!
