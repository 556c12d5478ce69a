//! The WASAPI provider's answers on a host without Windows audio.
//!
//! On Windows the provider opens shared-mode endpoints through the host's
//! audio stack; elsewhere every request is answered with a typed
//! unavailability error, which is what this module states.
use vstd::prelude::*;

use crate::device::{AudioDeviceError, AudioDeviceInfo};

verus! {

/// A Windows shared-mode audio provider.
#[derive(Clone, Copy, Debug, Default, PartialEq, Eq, Structural)]
pub struct WasapiAudioProvider;

impl WasapiAudioProvider {
    /// Creates a provider that discovers the current WASAPI device snapshot.
    pub fn new() -> (provider: Self)
        ensures
            provider == WasapiAudioProvider,
    {
        WasapiAudioProvider
    }

    /// The error for any input request on a host without WASAPI.
    pub fn input_unavailable(&self) -> (error: AudioDeviceError)
        ensures
            error matches AudioDeviceError::Unavailable(reason) && reason@
                == "WASAPI input requires Windows"@,
    {
        AudioDeviceError::Unavailable("WASAPI input requires Windows".to_owned())
    }

    /// The error for any output request on a host without WASAPI.
    pub fn output_unavailable(&self) -> (error: AudioDeviceError)
        ensures
            error matches AudioDeviceError::Unavailable(reason) && reason@
                == "WASAPI output requires Windows"@,
    {
        AudioDeviceError::Unavailable("WASAPI output requires Windows".to_owned())
    }

    /// Input discovery on a host without WASAPI: always unavailable.
    pub fn discover(&self) -> (result: Result<Vec<AudioDeviceInfo>, AudioDeviceError>)
        ensures
            result matches Err(AudioDeviceError::Unavailable(reason)) && reason@
                == "WASAPI input requires Windows"@,
    {
        Err(self.input_unavailable())
    }

    /// Output discovery on a host without WASAPI: always unavailable.
    pub fn discover_outputs(&self) -> (result: Result<Vec<AudioDeviceInfo>, AudioDeviceError>)
        ensures
            result matches Err(AudioDeviceError::Unavailable(reason)) && reason@
                == "WASAPI output requires Windows"@,
    {
        Err(self.output_unavailable())
    }
}

} // verus!
