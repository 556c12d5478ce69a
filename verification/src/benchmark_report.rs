//! The benchmark's report: the measurements of one run and their text and
//! JSON forms.
//!
//! The measurements come from the render engine, the paced video worker
//! and the process; here they are plain counts, and this module holds the
//! report's schemas and the metrics a setup candidate is ranked by.
use vstd::prelude::*;

use crate::benchmark::{percentile, spec_percentile, RenderLatency, SetupCandidateMetrics};
use crate::text::{
    chars_of, line_ranges, parse_unsigned, push_decimal, push_str, range_starts_with,
    spec_decimal, spec_lines, spec_parse_int, spec_starts_with, spec_trim, string_from_chars,
    trim_range,
};

verus! {

/// What the paced video worker reports of a run.
#[derive(Clone, Copy, Debug, PartialEq, Eq, Structural)]
pub struct VideoWorkerReport {
    pub requested_frames: u64,
    pub processed_frames: u64,
    pub cancelled: u64,
    pub empty_frames: u64,
    pub dropped_oldest: u64,
    pub dropped_newest: u64,
    pub missed_deadlines: u64,
    pub total_lateness_nanos: u64,
    pub max_lateness_nanos: u64,
    pub total_wait_nanos: u64,
    pub total_render_nanos: u64,
    pub produced_bytes: u64,
    pub peak_queued_bytes: u64,
    pub remaining_queue: u64,
}

/// What the compositor counts while rendering.
#[derive(Clone, Copy, Debug, PartialEq, Eq, Structural)]
pub struct CompositorMetrics {
    pub render_calls: u64,
    pub source_requests: u64,
    pub source_frames: u64,
    pub empty_sources: u64,
    pub transformed_frames: u64,
    pub filtered_frames: u64,
    pub blended_layers: u64,
}

/// What a multi-worker soak reports.
#[derive(Clone, Copy, Debug, PartialEq, Eq, Structural)]
pub struct MultiWorkerSoakReport {
    pub workers: u64,
    pub requested_frames: u64,
    pub processed_frames: u64,
    pub missed_deadlines: u64,
    pub total_lateness_nanos: u64,
    pub produced_bytes: u64,
    pub peak_queued_bytes: u64,
    pub elapsed_nanos: u64,
}

/// Frame-buffer allocation counters.
#[derive(Clone, Copy, Debug, PartialEq, Eq, Structural)]
pub struct FrameMemoryMetrics {
    pub owned_buffers: u64,
    pub owned_bytes: u64,
    pub shared_clones: u64,
    pub copy_on_write_buffers: u64,
    pub copy_on_write_bytes: u64,
}

/// The measurements of one benchmark run.
#[derive(Clone, Copy, Debug, PartialEq, Eq, Structural)]
pub struct BenchmarkOutput {
    pub report: VideoWorkerReport,
    pub compositor: CompositorMetrics,
    pub elapsed_millis: u128,
    pub multi_worker: MultiWorkerSoakReport,
    pub render_latency: RenderLatency,
    pub frame_memory: FrameMemoryMetrics,
    pub rss_before_kib: Option<u64>,
    pub rss_after_kib: Option<u64>,
}

/// The text of a measurement that may be missing, with `missing` for it.
pub open spec fn spec_optional(value: Option<u64>, missing: Seq<char>) -> Seq<char> {
    match value {
        Some(v) => spec_decimal(v as nat),
        None => missing,
    }
}

/// A possibly missing measurement in the text report.
pub open spec fn spec_optional_text(value: Option<u64>) -> Seq<char> {
    spec_optional(value, "unavailable"@)
}

/// A possibly missing measurement in the JSON report.
pub open spec fn spec_json_optional(value: Option<u64>) -> Seq<char> {
    spec_optional(value, "null"@)
}

fn push_optional(out: &mut Vec<char>, value: Option<u64>, missing: &str)
    ensures
        final(out)@ == old(out)@ + spec_optional(value, missing@),
{
    match value {
        Some(v) => push_decimal(out, v as u128),
        None => push_str(out, missing),
    }
}

/// The one-line text report of a run.
pub open spec fn spec_legacy_text(o: BenchmarkOutput) -> Seq<char> {
    "obs-rs benchmark: render_samples="@ + spec_decimal(o.render_latency.samples as nat)
        + " render_p50_ns="@ + spec_decimal(o.render_latency.p50_nanos as nat)
        + " render_p95_ns="@ + spec_decimal(o.render_latency.p95_nanos as nat)
        + " render_p99_ns="@ + spec_decimal(o.render_latency.p99_nanos as nat)
        + " render_max_ns="@ + spec_decimal(o.render_latency.max_nanos as nat)
        + " frame_owned_buffers="@ + spec_decimal(o.frame_memory.owned_buffers as nat)
        + " frame_owned_bytes="@ + spec_decimal(o.frame_memory.owned_bytes as nat)
        + " frame_shared_clones="@ + spec_decimal(o.frame_memory.shared_clones as nat)
        + " frame_cow_buffers="@ + spec_decimal(o.frame_memory.copy_on_write_buffers as nat)
        + " frame_copied_bytes="@ + spec_decimal(o.frame_memory.copy_on_write_bytes as nat)
        + " rss_before_kib="@ + spec_optional_text(o.rss_before_kib)
        + " rss_after_kib="@ + spec_optional_text(o.rss_after_kib)
        + " requested="@ + spec_decimal(o.report.requested_frames as nat)
        + " processed="@ + spec_decimal(o.report.processed_frames as nat)
        + " cancelled="@ + spec_decimal(o.report.cancelled as nat)
        + " empty="@ + spec_decimal(o.report.empty_frames as nat)
        + " dropped_oldest="@ + spec_decimal(o.report.dropped_oldest as nat)
        + " dropped_newest="@ + spec_decimal(o.report.dropped_newest as nat)
        + " missed="@ + spec_decimal(o.report.missed_deadlines as nat)
        + " lateness_ns="@ + spec_decimal(o.report.total_lateness_nanos as nat)
        + " max_lateness_ns="@ + spec_decimal(o.report.max_lateness_nanos as nat)
        + " wait_ns="@ + spec_decimal(o.report.total_wait_nanos as nat)
        + " paced_render_ns="@ + spec_decimal(o.report.total_render_nanos as nat)
        + " produced_bytes="@ + spec_decimal(o.report.produced_bytes as nat)
        + " peak_queued_bytes="@ + spec_decimal(o.report.peak_queued_bytes as nat)
        + " remaining="@ + spec_decimal(o.report.remaining_queue as nat)
        + " renders="@ + spec_decimal(o.compositor.render_calls as nat)
        + " source_requests="@ + spec_decimal(o.compositor.source_requests as nat)
        + " source_frames="@ + spec_decimal(o.compositor.source_frames as nat)
        + " empty_sources="@ + spec_decimal(o.compositor.empty_sources as nat)
        + " transformed="@ + spec_decimal(o.compositor.transformed_frames as nat)
        + " filtered="@ + spec_decimal(o.compositor.filtered_frames as nat)
        + " blends="@ + spec_decimal(o.compositor.blended_layers as nat)
        + " elapsed_ms="@ + spec_decimal(o.elapsed_millis as nat)
        + " multi_workers="@ + spec_decimal(o.multi_worker.workers as nat)
        + " multi_requested="@ + spec_decimal(o.multi_worker.requested_frames as nat)
        + " multi_processed="@ + spec_decimal(o.multi_worker.processed_frames as nat)
        + " multi_missed="@ + spec_decimal(o.multi_worker.missed_deadlines as nat)
        + " multi_lateness_ns="@ + spec_decimal(o.multi_worker.total_lateness_nanos as nat)
        + " multi_produced_bytes="@ + spec_decimal(o.multi_worker.produced_bytes as nat)
        + " multi_peak_queued_bytes="@ + spec_decimal(o.multi_worker.peak_queued_bytes as nat)
        + " multi_elapsed_ns="@ + spec_decimal(o.multi_worker.elapsed_nanos as nat)
}

/// Formats a run in the one-line text schema.
pub fn legacy_text(output: &BenchmarkOutput) -> (text: String)
    ensures
        text@ == spec_legacy_text(*output),
{
    proof {
        reveal_strlit("unavailable");
    }
    let mut out: Vec<char> = Vec::new();
    push_str(&mut out, "obs-rs benchmark: render_samples=");
    push_decimal(&mut out, output.render_latency.samples as u128);
    push_str(&mut out, " render_p50_ns=");
    push_decimal(&mut out, output.render_latency.p50_nanos as u128);
    push_str(&mut out, " render_p95_ns=");
    push_decimal(&mut out, output.render_latency.p95_nanos as u128);
    push_str(&mut out, " render_p99_ns=");
    push_decimal(&mut out, output.render_latency.p99_nanos as u128);
    push_str(&mut out, " render_max_ns=");
    push_decimal(&mut out, output.render_latency.max_nanos as u128);
    push_str(&mut out, " frame_owned_buffers=");
    push_decimal(&mut out, output.frame_memory.owned_buffers as u128);
    push_str(&mut out, " frame_owned_bytes=");
    push_decimal(&mut out, output.frame_memory.owned_bytes as u128);
    push_str(&mut out, " frame_shared_clones=");
    push_decimal(&mut out, output.frame_memory.shared_clones as u128);
    push_str(&mut out, " frame_cow_buffers=");
    push_decimal(&mut out, output.frame_memory.copy_on_write_buffers as u128);
    push_str(&mut out, " frame_copied_bytes=");
    push_decimal(&mut out, output.frame_memory.copy_on_write_bytes as u128);
    push_str(&mut out, " rss_before_kib=");
    push_optional(&mut out, output.rss_before_kib, "unavailable");
    push_str(&mut out, " rss_after_kib=");
    push_optional(&mut out, output.rss_after_kib, "unavailable");
    push_str(&mut out, " requested=");
    push_decimal(&mut out, output.report.requested_frames as u128);
    push_str(&mut out, " processed=");
    push_decimal(&mut out, output.report.processed_frames as u128);
    push_str(&mut out, " cancelled=");
    push_decimal(&mut out, output.report.cancelled as u128);
    push_str(&mut out, " empty=");
    push_decimal(&mut out, output.report.empty_frames as u128);
    push_str(&mut out, " dropped_oldest=");
    push_decimal(&mut out, output.report.dropped_oldest as u128);
    push_str(&mut out, " dropped_newest=");
    push_decimal(&mut out, output.report.dropped_newest as u128);
    push_str(&mut out, " missed=");
    push_decimal(&mut out, output.report.missed_deadlines as u128);
    push_str(&mut out, " lateness_ns=");
    push_decimal(&mut out, output.report.total_lateness_nanos as u128);
    push_str(&mut out, " max_lateness_ns=");
    push_decimal(&mut out, output.report.max_lateness_nanos as u128);
    push_str(&mut out, " wait_ns=");
    push_decimal(&mut out, output.report.total_wait_nanos as u128);
    push_str(&mut out, " paced_render_ns=");
    push_decimal(&mut out, output.report.total_render_nanos as u128);
    push_str(&mut out, " produced_bytes=");
    push_decimal(&mut out, output.report.produced_bytes as u128);
    push_str(&mut out, " peak_queued_bytes=");
    push_decimal(&mut out, output.report.peak_queued_bytes as u128);
    push_str(&mut out, " remaining=");
    push_decimal(&mut out, output.report.remaining_queue as u128);
    push_str(&mut out, " renders=");
    push_decimal(&mut out, output.compositor.render_calls as u128);
    push_str(&mut out, " source_requests=");
    push_decimal(&mut out, output.compositor.source_requests as u128);
    push_str(&mut out, " source_frames=");
    push_decimal(&mut out, output.compositor.source_frames as u128);
    push_str(&mut out, " empty_sources=");
    push_decimal(&mut out, output.compositor.empty_sources as u128);
    push_str(&mut out, " transformed=");
    push_decimal(&mut out, output.compositor.transformed_frames as u128);
    push_str(&mut out, " filtered=");
    push_decimal(&mut out, output.compositor.filtered_frames as u128);
    push_str(&mut out, " blends=");
    push_decimal(&mut out, output.compositor.blended_layers as u128);
    push_str(&mut out, " elapsed_ms=");
    push_decimal(&mut out, output.elapsed_millis as u128);
    push_str(&mut out, " multi_workers=");
    push_decimal(&mut out, output.multi_worker.workers as u128);
    push_str(&mut out, " multi_requested=");
    push_decimal(&mut out, output.multi_worker.requested_frames as u128);
    push_str(&mut out, " multi_processed=");
    push_decimal(&mut out, output.multi_worker.processed_frames as u128);
    push_str(&mut out, " multi_missed=");
    push_decimal(&mut out, output.multi_worker.missed_deadlines as u128);
    push_str(&mut out, " multi_lateness_ns=");
    push_decimal(&mut out, output.multi_worker.total_lateness_nanos as u128);
    push_str(&mut out, " multi_produced_bytes=");
    push_decimal(&mut out, output.multi_worker.produced_bytes as u128);
    push_str(&mut out, " multi_peak_queued_bytes=");
    push_decimal(&mut out, output.multi_worker.peak_queued_bytes as u128);
    push_str(&mut out, " multi_elapsed_ns=");
    push_decimal(&mut out, output.multi_worker.elapsed_nanos as u128);
    string_from_chars(out)
}

/// The JSON report of a run.
pub open spec fn spec_legacy_json(o: BenchmarkOutput) -> Seq<char> {
    "{\"schema_version\":1,\"render_latency\":{\"samples\":"@ + spec_decimal(o.render_latency.samples as nat)
        + ",\"p50_ns\":"@ + spec_decimal(o.render_latency.p50_nanos as nat)
        + ",\"p95_ns\":"@ + spec_decimal(o.render_latency.p95_nanos as nat)
        + ",\"p99_ns\":"@ + spec_decimal(o.render_latency.p99_nanos as nat)
        + ",\"max_ns\":"@ + spec_decimal(o.render_latency.max_nanos as nat)
        + "},\"frame_memory\":{\"owned_buffers\":"@ + spec_decimal(o.frame_memory.owned_buffers as nat)
        + ",\"owned_bytes\":"@ + spec_decimal(o.frame_memory.owned_bytes as nat)
        + ",\"shared_clones\":"@ + spec_decimal(o.frame_memory.shared_clones as nat)
        + ",\"copy_on_write_buffers\":"@ + spec_decimal(o.frame_memory.copy_on_write_buffers as nat)
        + ",\"copied_bytes\":"@ + spec_decimal(o.frame_memory.copy_on_write_bytes as nat)
        + "},\"process_memory\":{\"rss_before_kib\":"@ + spec_json_optional(o.rss_before_kib)
        + ",\"rss_after_kib\":"@ + spec_json_optional(o.rss_after_kib)
        + "},\"paced_worker\":{\"requested\":"@ + spec_decimal(o.report.requested_frames as nat)
        + ",\"processed\":"@ + spec_decimal(o.report.processed_frames as nat)
        + ",\"cancelled\":"@ + spec_decimal(o.report.cancelled as nat)
        + ",\"empty\":"@ + spec_decimal(o.report.empty_frames as nat)
        + ",\"dropped_oldest\":"@ + spec_decimal(o.report.dropped_oldest as nat)
        + ",\"dropped_newest\":"@ + spec_decimal(o.report.dropped_newest as nat)
        + ",\"missed_deadlines\":"@ + spec_decimal(o.report.missed_deadlines as nat)
        + ",\"total_lateness_ns\":"@ + spec_decimal(o.report.total_lateness_nanos as nat)
        + ",\"max_lateness_ns\":"@ + spec_decimal(o.report.max_lateness_nanos as nat)
        + ",\"wait_ns\":"@ + spec_decimal(o.report.total_wait_nanos as nat)
        + ",\"render_ns\":"@ + spec_decimal(o.report.total_render_nanos as nat)
        + ",\"produced_bytes\":"@ + spec_decimal(o.report.produced_bytes as nat)
        + ",\"peak_queued_bytes\":"@ + spec_decimal(o.report.peak_queued_bytes as nat)
        + ",\"remaining_queue\":"@ + spec_decimal(o.report.remaining_queue as nat)
        + ",\"elapsed_ms\":"@ + spec_decimal(o.elapsed_millis as nat)
        + "},\"compositor\":{\"renders\":"@ + spec_decimal(o.compositor.render_calls as nat)
        + ",\"source_requests\":"@ + spec_decimal(o.compositor.source_requests as nat)
        + ",\"source_frames\":"@ + spec_decimal(o.compositor.source_frames as nat)
        + ",\"empty_sources\":"@ + spec_decimal(o.compositor.empty_sources as nat)
        + ",\"transformed\":"@ + spec_decimal(o.compositor.transformed_frames as nat)
        + ",\"filtered\":"@ + spec_decimal(o.compositor.filtered_frames as nat)
        + ",\"blends\":"@ + spec_decimal(o.compositor.blended_layers as nat)
        + "},\"multi_worker\":{\"workers\":"@ + spec_decimal(o.multi_worker.workers as nat)
        + ",\"requested\":"@ + spec_decimal(o.multi_worker.requested_frames as nat)
        + ",\"processed\":"@ + spec_decimal(o.multi_worker.processed_frames as nat)
        + ",\"missed_deadlines\":"@ + spec_decimal(o.multi_worker.missed_deadlines as nat)
        + ",\"total_lateness_ns\":"@ + spec_decimal(o.multi_worker.total_lateness_nanos as nat)
        + ",\"produced_bytes\":"@ + spec_decimal(o.multi_worker.produced_bytes as nat)
        + ",\"peak_queued_bytes\":"@ + spec_decimal(o.multi_worker.peak_queued_bytes as nat)
        + ",\"elapsed_ns\":"@ + spec_decimal(o.multi_worker.elapsed_nanos as nat)
        + "}}"@
}

/// Formats a run in the stable JSON schema.
pub fn legacy_json(output: &BenchmarkOutput) -> (text: String)
    ensures
        text@ == spec_legacy_json(*output),
{
    proof {
        reveal_strlit("null");
    }
    let mut out: Vec<char> = Vec::new();
    push_str(&mut out, "{\"schema_version\":1,\"render_latency\":{\"samples\":");
    push_decimal(&mut out, output.render_latency.samples as u128);
    push_str(&mut out, ",\"p50_ns\":");
    push_decimal(&mut out, output.render_latency.p50_nanos as u128);
    push_str(&mut out, ",\"p95_ns\":");
    push_decimal(&mut out, output.render_latency.p95_nanos as u128);
    push_str(&mut out, ",\"p99_ns\":");
    push_decimal(&mut out, output.render_latency.p99_nanos as u128);
    push_str(&mut out, ",\"max_ns\":");
    push_decimal(&mut out, output.render_latency.max_nanos as u128);
    push_str(&mut out, "},\"frame_memory\":{\"owned_buffers\":");
    push_decimal(&mut out, output.frame_memory.owned_buffers as u128);
    push_str(&mut out, ",\"owned_bytes\":");
    push_decimal(&mut out, output.frame_memory.owned_bytes as u128);
    push_str(&mut out, ",\"shared_clones\":");
    push_decimal(&mut out, output.frame_memory.shared_clones as u128);
    push_str(&mut out, ",\"copy_on_write_buffers\":");
    push_decimal(&mut out, output.frame_memory.copy_on_write_buffers as u128);
    push_str(&mut out, ",\"copied_bytes\":");
    push_decimal(&mut out, output.frame_memory.copy_on_write_bytes as u128);
    push_str(&mut out, "},\"process_memory\":{\"rss_before_kib\":");
    push_optional(&mut out, output.rss_before_kib, "null");
    push_str(&mut out, ",\"rss_after_kib\":");
    push_optional(&mut out, output.rss_after_kib, "null");
    push_str(&mut out, "},\"paced_worker\":{\"requested\":");
    push_decimal(&mut out, output.report.requested_frames as u128);
    push_str(&mut out, ",\"processed\":");
    push_decimal(&mut out, output.report.processed_frames as u128);
    push_str(&mut out, ",\"cancelled\":");
    push_decimal(&mut out, output.report.cancelled as u128);
    push_str(&mut out, ",\"empty\":");
    push_decimal(&mut out, output.report.empty_frames as u128);
    push_str(&mut out, ",\"dropped_oldest\":");
    push_decimal(&mut out, output.report.dropped_oldest as u128);
    push_str(&mut out, ",\"dropped_newest\":");
    push_decimal(&mut out, output.report.dropped_newest as u128);
    push_str(&mut out, ",\"missed_deadlines\":");
    push_decimal(&mut out, output.report.missed_deadlines as u128);
    push_str(&mut out, ",\"total_lateness_ns\":");
    push_decimal(&mut out, output.report.total_lateness_nanos as u128);
    push_str(&mut out, ",\"max_lateness_ns\":");
    push_decimal(&mut out, output.report.max_lateness_nanos as u128);
    push_str(&mut out, ",\"wait_ns\":");
    push_decimal(&mut out, output.report.total_wait_nanos as u128);
    push_str(&mut out, ",\"render_ns\":");
    push_decimal(&mut out, output.report.total_render_nanos as u128);
    push_str(&mut out, ",\"produced_bytes\":");
    push_decimal(&mut out, output.report.produced_bytes as u128);
    push_str(&mut out, ",\"peak_queued_bytes\":");
    push_decimal(&mut out, output.report.peak_queued_bytes as u128);
    push_str(&mut out, ",\"remaining_queue\":");
    push_decimal(&mut out, output.report.remaining_queue as u128);
    push_str(&mut out, ",\"elapsed_ms\":");
    push_decimal(&mut out, output.elapsed_millis as u128);
    push_str(&mut out, "},\"compositor\":{\"renders\":");
    push_decimal(&mut out, output.compositor.render_calls as u128);
    push_str(&mut out, ",\"source_requests\":");
    push_decimal(&mut out, output.compositor.source_requests as u128);
    push_str(&mut out, ",\"source_frames\":");
    push_decimal(&mut out, output.compositor.source_frames as u128);
    push_str(&mut out, ",\"empty_sources\":");
    push_decimal(&mut out, output.compositor.empty_sources as u128);
    push_str(&mut out, ",\"transformed\":");
    push_decimal(&mut out, output.compositor.transformed_frames as u128);
    push_str(&mut out, ",\"filtered\":");
    push_decimal(&mut out, output.compositor.filtered_frames as u128);
    push_str(&mut out, ",\"blends\":");
    push_decimal(&mut out, output.compositor.blended_layers as u128);
    push_str(&mut out, "},\"multi_worker\":{\"workers\":");
    push_decimal(&mut out, output.multi_worker.workers as u128);
    push_str(&mut out, ",\"requested\":");
    push_decimal(&mut out, output.multi_worker.requested_frames as u128);
    push_str(&mut out, ",\"processed\":");
    push_decimal(&mut out, output.multi_worker.processed_frames as u128);
    push_str(&mut out, ",\"missed_deadlines\":");
    push_decimal(&mut out, output.multi_worker.missed_deadlines as u128);
    push_str(&mut out, ",\"total_lateness_ns\":");
    push_decimal(&mut out, output.multi_worker.total_lateness_nanos as u128);
    push_str(&mut out, ",\"produced_bytes\":");
    push_decimal(&mut out, output.multi_worker.produced_bytes as u128);
    push_str(&mut out, ",\"peak_queued_bytes\":");
    push_decimal(&mut out, output.multi_worker.peak_queued_bytes as u128);
    push_str(&mut out, ",\"elapsed_ns\":");
    push_decimal(&mut out, output.multi_worker.elapsed_nanos as u128);
    push_str(&mut out, "}}");
    string_from_chars(out)
}

/// The metrics a setup candidate is ranked by. A missed deadline counts
/// only when the slowest render reached the frame budget (`period_nanos`,
/// one nanosecond when unknown); wake-up jitter alone is queue age.
pub fn setup_metrics(period_nanos: Option<u64>, output: &BenchmarkOutput) -> (metrics: SetupCandidateMetrics)
    requires
        output.report.dropped_oldest + output.report.dropped_newest <= u64::MAX,
    ensures
        ({
            let budget = match period_nanos {
                Some(p) => p as int,
                None => 1,
            };
            &&& metrics.render_p95_nanos == output.render_latency.p95_nanos
            &&& metrics.render_p99_nanos == output.render_latency.p99_nanos
            &&& metrics.render_max_nanos == output.render_latency.max_nanos
            &&& metrics.requested_frames == output.report.requested_frames
            &&& metrics.processed_frames == output.report.processed_frames
            &&& metrics.missed_deadlines == if output.render_latency.max_nanos >= budget {
                output.report.missed_deadlines
            } else {
                0
            }
            &&& metrics.dropped_frames == output.report.dropped_oldest + output.report.dropped_newest
            &&& metrics.max_queue_age_nanos == output.report.max_lateness_nanos
            &&& metrics.elapsed_millis == output.elapsed_millis
        }),
{
    let budget: u128 = match period_nanos {
        Some(p) => p as u128,
        None => 1,
    };
    let missed_deadlines = if output.render_latency.max_nanos >= budget {
        output.report.missed_deadlines
    } else {
        0
    };
    SetupCandidateMetrics {
        render_p95_nanos: output.render_latency.p95_nanos,
        render_p99_nanos: output.render_latency.p99_nanos,
        render_max_nanos: output.render_latency.max_nanos,
        requested_frames: output.report.requested_frames,
        processed_frames: output.report.processed_frames,
        missed_deadlines,
        dropped_frames: output.report.dropped_oldest + output.report.dropped_newest,
        max_queue_age_nanos: output.report.max_lateness_nanos,
        elapsed_millis: output.elapsed_millis,
    }
}

/// Whether a character is ASCII whitespace as `u8::is_ascii_whitespace`
/// defines it.
pub open spec fn is_ascii_whitespace(c: char) -> bool {
    c == ' ' || c == '\t' || c == '\n' || c == '\x0C' || c == '\r'
}

/// The number of leading characters of `s` that are not ASCII whitespace.
pub open spec fn first_token_len(s: Seq<char>) -> nat
    decreases s.len(),
{
    if s.len() == 0 || is_ascii_whitespace(s[0]) {
        0
    } else {
        1 + first_token_len(s.skip(1))
    }
}

/// The resident memory that one status line states: the first token after
/// `VmRSS:`, as a `u64`.
pub open spec fn spec_rss_line(line: Seq<char>) -> Option<u64> {
    if spec_starts_with(line, "VmRSS:"@) {
        let value = spec_trim(line.skip(6));
        let token = value.take(first_token_len(value) as int);
        if token.len() == 0 {
            None
        } else {
            match spec_parse_int(token, 0, u64::MAX as int) {
                Ok(v) => Some(v as u64),
                Err(_) => None,
            }
        }
    } else {
        None
    }
}

/// The resident memory stated by the first of `lines[i..]` that states it.
pub open spec fn spec_first_rss(lines: Seq<Seq<char>>, i: int) -> Option<u64>
    decreases lines.len() - i,
{
    if i >= lines.len() {
        None
    } else {
        match spec_rss_line(lines[i]) {
            Some(v) => Some(v),
            None => spec_first_rss(lines, i + 1),
        }
    }
}

proof fn lemma_first_token_len(s: Seq<char>)
    ensures
        first_token_len(s) <= s.len(),
        forall|j: int| 0 <= j < first_token_len(s) ==> !is_ascii_whitespace(#[trigger] s[j]),
        first_token_len(s) < s.len() ==> is_ascii_whitespace(s[first_token_len(s) as int]),
    decreases s.len(),
{
    if s.len() > 0 && !is_ascii_whitespace(s[0]) {
        lemma_first_token_len(s.skip(1));
        assert forall|j: int| 0 <= j < first_token_len(s) implies !is_ascii_whitespace(#[trigger] s[j]) by {
            if j > 0 {
                assert(s[j] == s.skip(1)[j - 1]);
            }
        }
    }
}

/// Reads the resident memory, in KiB, from the text of the process status.
pub fn parse_resident_memory_kib(status: &str) -> (kib: Option<u64>)
    ensures
        kib == spec_first_rss(spec_lines(status@), 0),
{
    let s = chars_of(status);
    let lines = line_ranges(s.as_slice());
    let ghost all = spec_lines(s@);
    let mut k: usize = 0;
    while k < lines.len()
        invariant
            k <= lines@.len(),
            s@ == status@,
            all == spec_lines(s@),
            lines@.len() == all.len(),
            forall|i: int|
                0 <= i < lines@.len() ==> {
                    let (a, b) = #[trigger] lines@[i];
                    &&& a <= b <= s@.len()
                    &&& s@.subrange(a as int, b as int) == all[i]
                },
            spec_first_rss(all, 0) == spec_first_rss(all, k as int),
        decreases lines@.len() - k,
    {
        let (a, b) = lines[k];
        let ghost line = s@.subrange(a as int, b as int);
        assert(line == all[k as int]);
        proof {
            reveal_strlit("VmRSS:");
        }
        if range_starts_with(s.as_slice(), a, b, "VmRSS:") {
            assert(line.skip(6) =~= s@.subrange(a + 6, b as int));
            let (ta, tb) = trim_range(s.as_slice(), a + 6, b);
            let ghost value = s@.subrange(ta as int, tb as int);
            proof {
                lemma_first_token_len(value);
            }
            let mut end = ta;
            while end < tb && !(s[end] == ' ' || s[end] == '\t' || s[end] == '\n' || s[end] == '\x0C'
                || s[end] == '\r')
                invariant
                    ta <= end <= tb <= s@.len(),
                    value == s@.subrange(ta as int, tb as int),
                    end - ta <= first_token_len(value) <= value.len(),
                    forall|j: int|
                        0 <= j < first_token_len(value) ==> !is_ascii_whitespace(#[trigger] value[j]),
                    first_token_len(value) < value.len() ==> is_ascii_whitespace(
                        value[first_token_len(value) as int],
                    ),
                decreases tb - end,
            {
                assert(value[end - ta] == s@[end as int]);
                end = end + 1;
            }
            assert(end == tb || value[end - ta] == s@[end as int]);
            assert(end - ta == first_token_len(value));
            assert(value.take((end - ta) as int) =~= s@.subrange(ta as int, end as int));
            if end > ta {
                proof {
                    crate::text::lemma_parse_int_bounds(s@.subrange(ta as int, end as int), 0, u64::MAX as int);
                }
                match parse_unsigned(s.as_slice(), ta, end, u64::MAX) {
                    Ok(v) => {
                        return Some(v);
                    },
                    Err(_) => {},
                }
            }
        }
        k = k + 1;
    }
    None
}

/// Whether a sequence is in ascending order.
pub open spec fn ascending(s: Seq<u128>) -> bool {
    forall|i: int, j: int| 0 <= i <= j < s.len() ==> s[i] <= s[j]
}

proof fn lemma_swap_keeps_multiset(s: Seq<u128>, i: int, j: int)
    requires
        0 <= i < s.len(),
        0 <= j < s.len(),
        i != j,
    ensures
        s.update(i, s[j]).update(j, s[i]).to_multiset() == s.to_multiset(),
{
    broadcast use vstd::multiset::group_multiset_axioms;
    let m = s.to_multiset();
    let first = s.update(i, s[j]);
    vstd::seq_lib::to_multiset_update(s, i, s[j]);
    vstd::seq_lib::to_multiset_update(first, j, s[i]);
    s.to_multiset_ensures();
    assert(s.contains(s[i]));
    assert(first.update(j, s[i]).to_multiset() =~= m);
}

/// Sorts render timings in ascending order.
pub fn sort_timings(samples: Vec<u128>) -> (sorted: Vec<u128>)
    ensures
        ascending(sorted@),
        sorted@.to_multiset() == samples@.to_multiset(),
{
    let mut sorted = samples;
    let ghost initial = sorted@;
    let mut i: usize = 1;
    if sorted.len() == 0 {
        return sorted;
    }
    while i < sorted.len()
        invariant
            1 <= i <= sorted@.len(),
            sorted@.len() == initial.len(),
            ascending(sorted@.take(i as int)),
            sorted@.to_multiset() == initial.to_multiset(),
        decreases sorted@.len() - i,
    {
        let mut j = i;
        proof {
            assert forall|a: int, b: int| 0 <= a <= b <= i && a != j && b != j implies sorted@[a]
                <= sorted@[b] by {
                assert(sorted@.take(i as int)[a] == sorted@[a]);
                assert(sorted@.take(i as int)[b] == sorted@[b]);
            }
        }
        while j > 0 && sorted[j - 1] > sorted[j]
            invariant
                0 <= j <= i < sorted@.len(),
                sorted@.len() == initial.len(),
                sorted@.to_multiset() == initial.to_multiset(),
                forall|a: int, b: int| 0 <= a <= b <= i && a != j && b != j ==> sorted@[a] <= sorted@[b],
                forall|b: int| j < b <= i ==> sorted@[j as int] <= sorted@[b],
            decreases j,
        {
            let ghost before = sorted@;
            let left = sorted[j - 1];
            let right = sorted[j];
            sorted.set(j - 1, right);
            sorted.set(j, left);
            proof {
                assert(sorted@ =~= before.update(j - 1, right).update(j as int, left));
                lemma_swap_keeps_multiset(before, (j - 1) as int, j as int);
                assert forall|a: int, b: int|
                    0 <= a <= b <= i && a != j - 1 && b != j - 1 implies sorted@[a] <= sorted@[b] by {
                    if a == j && b > j {
                        assert(before[j - 1] <= before[b]);
                    } else if b == j && a < j - 1 {
                        assert(before[a] <= before[j - 1]);
                    }
                }
                assert forall|b: int| j - 1 < b <= i implies sorted@[j - 1] <= #[trigger] sorted@[b] by {
                    if b > j {
                        assert(before[j as int] <= before[b]);
                    }
                }
            }
            j = j - 1;
        }
        proof {
            assert forall|a: int, b: int| 0 <= a <= b < i + 1 implies #[trigger] sorted@.take(i + 1)[a]
                <= #[trigger] sorted@.take(i + 1)[b] by {
                if b == j && a < j {
                    assert(sorted@[a] <= sorted@[j - 1]);
                }
            }
        }
        i = i + 1;
    }
    assert(sorted@.take(sorted@.len() as int) =~= sorted@);
    sorted
}

/// The percentile timings of a run: the count, the 50th, 95th and 99th
/// percentile ranks and the maximum of the samples in ascending order.
pub fn render_latency(samples: Vec<u128>) -> (latency: RenderLatency)
    requires
        samples@.len() * 100 <= usize::MAX,
    ensures
        exists|sorted: Seq<u128>|
            ascending(sorted) && sorted.to_multiset() == samples@.to_multiset() && {
                &&& latency.samples == samples@.len()
                &&& latency.p50_nanos == spec_percentile(sorted, 50)
                &&& latency.p95_nanos == spec_percentile(sorted, 95)
                &&& latency.p99_nanos == spec_percentile(sorted, 99)
                &&& latency.max_nanos == if sorted.len() == 0 {
                    0
                } else {
                    sorted.last()
                }
            },
{
    let ghost initial = samples@;
    let sorted = sort_timings(samples);
    proof {
        assert(sorted@.len() == initial.len()) by {
            sorted@.to_multiset_ensures();
            initial.to_multiset_ensures();
        }
    }
    let n = sorted.len();
    proof {
        if n > 0 {
            assert((n - 1) * 99 <= n * 100) by (nonlinear_arith)
                requires
                    n > 0,
            ;
            assert((n - 1) * 99 / 100 < n) by (nonlinear_arith)
                requires
                    n > 0,
            ;
            assert((n - 1) * 95 / 100 < n) by (nonlinear_arith)
                requires
                    n > 0,
            ;
            assert((n - 1) * 50 / 100 < n) by (nonlinear_arith)
                requires
                    n > 0,
            ;
        }
    }
    let max = if n == 0 {
        0
    } else {
        sorted[n - 1]
    };
    RenderLatency {
        samples: n,
        p50_nanos: percentile(sorted.as_slice(), 50),
        p95_nanos: percentile(sorted.as_slice(), 95),
        p99_nanos: percentile(sorted.as_slice(), 99),
        max_nanos: max,
    }
}

} // verus!
