# obs_rs

The audio, capture-boundary and benchmark logic of OBS-RS, written in Verus
and proved against its contracts.

- `src/` is the verified library: sample buffers and formats, the bounded
  queues and monitor taps, the mixer's source registry, the resampler's
  channel plan and interpolation schedule, block pacing and A/V sync, the
  output worker's state machine, the device and endpoint models of the
  PipeWire, WASAPI and capture-helper backends, the benchmark's ranking and
  report schemas, and the request checks of the web frontend.
- `app/` is ordinary Rust around it: `f32` sample arithmetic, the monotonic
  clock, child processes, threads and file reads. It calls the library for
  every decision.
- `tests/` runs the library on concrete values.
