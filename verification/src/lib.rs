//! Verified audio timing, queueing and device-boundary logic for OBS-RS.
use vstd::prelude::*;

pub mod acceptance;
pub mod benchmark;
pub mod benchmark_report;
pub mod buffer;
pub mod callback_clock;
pub mod capture;
pub mod cancel;
pub mod delay;
pub mod device;
pub mod error;
pub mod filters;
pub mod glyphs;
pub mod mixer;
pub mod monitor;
pub mod output_worker;
pub mod pipewire;
pub mod production;
pub mod pacing;
pub mod queue;
pub mod resampler;
pub mod setup_choice;
pub mod sync;
pub mod text;
pub mod timestamp;
pub mod types;
pub mod wasapi;
pub mod wasapi_stream;
pub mod web;
pub mod windows_discovery;
pub mod worker;

verus! {
} // verus!
