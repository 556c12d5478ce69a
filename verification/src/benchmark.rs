//! The setup benchmark's ranking, selection and summary.
//!
//! The benchmark itself renders a scene and measures wall-clock timings;
//! this module holds what is decided from those measurements: percentile
//! ranks, the acceptance policy for a candidate, the order in which
//! candidates are preferred, the recommendation, and the bounded summary.
use vstd::prelude::*;

use crate::text::{push_decimal, push_str, spec_decimal, string_from_chars};

verus! {

/// Number of samples used by the command-line benchmark.
pub const LEGACY_BENCHMARK_FRAMES: u64 = 120;

/// Number of frames used for one setup candidate.
pub const SETUP_BENCHMARK_FRAMES: u64 = 60;

/// The longest summary, in UTF-8 bytes.
pub const MAX_SUMMARY_BYTES: usize = 4096;

/// Percentile render timings collected by a benchmark.
#[derive(Clone, Copy, Debug, PartialEq, Eq, Structural)]
pub struct RenderLatency {
    pub samples: usize,
    pub p50_nanos: u128,
    pub p95_nanos: u128,
    pub p99_nanos: u128,
    pub max_nanos: u128,
}

/// The compact metrics needed to rank a setup candidate.
#[derive(Clone, Copy, Debug, PartialEq, Eq, Structural)]
pub struct SetupCandidateMetrics {
    pub render_p95_nanos: u128,
    pub render_p99_nanos: u128,
    pub render_max_nanos: u128,
    pub requested_frames: u64,
    pub processed_frames: u64,
    pub missed_deadlines: u64,
    pub dropped_frames: u64,
    pub max_queue_age_nanos: u64,
    pub elapsed_millis: u128,
}

/// A bounded candidate that the setup wizard compares.
#[derive(Clone, Debug)]
pub struct SetupCandidate {
    pub label: String,
    pub width: u32,
    pub height: u32,
    pub fps: u32,
    pub tier: u8,
    pub score: u64,
    pub result: Option<SetupCandidateMetrics>,
    pub error: Option<String>,
}

/// Results shown by the first-run wizard.
#[derive(Clone, Debug)]
pub struct SetupBenchmarkReport {
    pub candidates: Vec<SetupCandidate>,
    pub recommended: Option<usize>,
    pub elapsed_millis: u128,
}

/// The sample at rank `percentile` of sorted samples, or zero when there
/// are none.
pub open spec fn spec_percentile(sorted: Seq<u128>, percentile: int) -> u128 {
    if sorted.len() == 0 {
        0
    } else {
        sorted[(sorted.len() - 1) * percentile / 100]
    }
}

/// Returns the sample at rank `rank` (in percent) of sorted samples: the
/// one at index `(len - 1) * rank / 100`, or zero when there are none.
pub fn percentile(sorted_samples: &[u128], rank: usize) -> (value: u128)
    requires
        sorted_samples@.len() > 0 ==> (sorted_samples@.len() - 1) * rank <= usize::MAX,
        sorted_samples@.len() > 0 ==> (sorted_samples@.len() - 1) * rank / 100
            < sorted_samples@.len(),
    ensures
        value == spec_percentile(sorted_samples@, rank as int),
{
    if sorted_samples.len() == 0 {
        return 0;
    }
    let index = (sorted_samples.len() - 1) * rank / 100;
    sorted_samples[index]
}

/// The largest value of a `u128`, for saturating products.
pub open spec fn saturating_mul_u128(a: int, b: int) -> int {
    if a * b > u128::MAX {
        u128::MAX as int
    } else {
        a * b
    }
}

/// Whether a candidate's measurements meet the acceptance policy: every
/// requested frame processed, no missed deadline or dropped frame, the 95th
/// percentile within 80% of the frame budget, the 99th within it, the queue
/// age within it and the worst render within twice it.
pub open spec fn spec_stable(metrics: SetupCandidateMetrics, budget: int) -> bool {
    &&& metrics.requested_frames > 0
    &&& metrics.processed_frames == metrics.requested_frames
    &&& metrics.missed_deadlines == 0
    &&& metrics.dropped_frames == 0
    &&& metrics.render_p95_nanos <= saturating_mul_u128(budget, 80) / 100
    &&& metrics.render_p99_nanos < budget
    &&& metrics.max_queue_age_nanos <= budget
    &&& metrics.render_max_nanos <= saturating_mul_u128(budget, 2)
}


/// A candidate is rated stable only after a clean run: it processed every
/// requested frame, missed no deadline and dropped no frame, and its 99th
/// percentile stayed within the frame budget. A run that missed a deadline,
/// dropped a frame or lost a frame is never stable, whatever its timings.
pub proof fn lemma_stable_needs_clean_run(metrics: SetupCandidateMetrics, budget: int)
    requires
        budget >= 0,
    ensures
        spec_stable(metrics, budget) ==> {
            &&& metrics.requested_frames > 0
            &&& metrics.processed_frames == metrics.requested_frames
            &&& metrics.missed_deadlines == 0
            &&& metrics.dropped_frames == 0
            &&& metrics.render_p99_nanos < budget
            &&& metrics.max_queue_age_nanos <= budget
        },
        metrics.missed_deadlines > 0 || metrics.dropped_frames > 0 || metrics.processed_frames
            != metrics.requested_frames ==> !spec_stable(metrics, budget),
{
}

/// Stability only improves with a larger frame budget, and with faster
/// timings for the same frame counts.
pub proof fn lemma_stable_monotone(
    metrics: SetupCandidateMetrics,
    faster: SetupCandidateMetrics,
    budget: int,
    larger: int,
)
    requires
        0 <= budget <= larger,
        faster.requested_frames == metrics.requested_frames,
        faster.processed_frames == metrics.processed_frames,
        faster.missed_deadlines == metrics.missed_deadlines,
        faster.dropped_frames == metrics.dropped_frames,
        faster.render_p95_nanos <= metrics.render_p95_nanos,
        faster.render_p99_nanos <= metrics.render_p99_nanos,
        faster.render_max_nanos <= metrics.render_max_nanos,
        faster.max_queue_age_nanos <= metrics.max_queue_age_nanos,
    ensures
        spec_stable(metrics, budget) ==> spec_stable(metrics, larger),
        spec_stable(metrics, budget) ==> spec_stable(faster, budget),
{
    assert(saturating_mul_u128(budget, 80) <= saturating_mul_u128(larger, 80)) by (nonlinear_arith)
        requires
            0 <= budget <= larger,
    ;
    assert(saturating_mul_u128(budget, 2) <= saturating_mul_u128(larger, 2)) by (nonlinear_arith)
        requires
            0 <= budget <= larger,
    ;
    assert(saturating_mul_u128(budget, 80) / 100 <= saturating_mul_u128(larger, 80) / 100) by (nonlinear_arith)
        requires
            saturating_mul_u128(budget, 80) <= saturating_mul_u128(larger, 80),
            0 <= saturating_mul_u128(budget, 80),
    ;
}

/// The frame budget of a candidate: its frame period, one nanosecond when
/// unknown.
pub open spec fn spec_budget(period_nanos: Option<u64>) -> int {
    match period_nanos {
        Some(p) => p as int,
        None => 1,
    }
}

/// The tier a candidate is ranked at: 2 when stable within its budget, else
/// 0.
pub open spec fn spec_tier(metrics: SetupCandidateMetrics, period_nanos: Option<u64>) -> u8 {
    if spec_stable(metrics, spec_budget(period_nanos)) {
        2
    } else {
        0
    }
}

/// A ranked candidate is in a tier above zero only after a clean run
/// within its frame budget: every requested frame processed, no missed
/// deadline, no dropped frame, the 99th percentile under the budget.
pub proof fn lemma_tier_needs_clean_run(metrics: SetupCandidateMetrics, period_nanos: Option<u64>)
    ensures
        spec_tier(metrics, period_nanos) == 0 || spec_tier(metrics, period_nanos) == 2,
        spec_tier(metrics, period_nanos) > 0 ==> {
            &&& metrics.requested_frames > 0
            &&& metrics.processed_frames == metrics.requested_frames
            &&& metrics.missed_deadlines == 0
            &&& metrics.dropped_frames == 0
            &&& metrics.render_p99_nanos < spec_budget(period_nanos)
        },
        metrics.missed_deadlines > 0 || metrics.dropped_frames > 0 || metrics.processed_frames
            != metrics.requested_frames ==> spec_tier(metrics, period_nanos) == 0,
{
    lemma_stable_needs_clean_run(metrics, spec_budget(period_nanos));
}

/// The throughput score of a format: pixels per frame times frames per
/// second, each product saturating.
pub open spec fn spec_score(width: u32, height: u32, numerator: u32, denominator: u32) -> int {
    let pixels = if width * height > u64::MAX {
        u64::MAX as int
    } else {
        width * height
    };
    let scaled = if pixels * numerator > u64::MAX {
        u64::MAX as int
    } else {
        pixels * numerator
    };
    scaled / if denominator > 0 {
        denominator as int
    } else {
        1
    }
}

/// Applies the setup acceptance policy to one candidate of the given frame
/// size and rate, whose frame period is `period_nanos` (one nanosecond when
/// unknown): the tier is 2 for a stable candidate and 0 otherwise, and the
/// score is its throughput.
pub fn rank_setup_candidate(
    width: u32,
    height: u32,
    fps_numerator: u32,
    fps_denominator: u32,
    period_nanos: Option<u64>,
    metrics: SetupCandidateMetrics,
) -> (rank: (u8, u64))
    ensures
        rank.0 == spec_tier(metrics, period_nanos),
        rank.1 == spec_score(width, height, fps_numerator, fps_denominator),
{
    let budget: u128 = match period_nanos {
        Some(p) => p as u128,
        None => 1,
    };
    let budget_80 = match budget.checked_mul(80) {
        Some(v) => v,
        None => u128::MAX,
    };
    let budget_2 = match budget.checked_mul(2) {
        Some(v) => v,
        None => u128::MAX,
    };
    let stable = metrics.requested_frames > 0 && metrics.processed_frames == metrics.requested_frames
        && metrics.missed_deadlines == 0 && metrics.dropped_frames == 0 && metrics.render_p95_nanos
        <= budget_80 / 100 && metrics.render_p99_nanos < budget && (metrics.max_queue_age_nanos
        as u128) <= budget && metrics.render_max_nanos <= budget_2;
    let tier: u8 = if stable {
        2
    } else {
        0
    };
    let pixels = match (width as u64).checked_mul(height as u64) {
        Some(v) => v,
        None => u64::MAX,
    };
    let scaled = match pixels.checked_mul(fps_numerator as u64) {
        Some(v) => v,
        None => u64::MAX,
    };
    let divisor: u64 = if fps_denominator > 0 {
        fps_denominator as u64
    } else {
        1
    };
    (tier, scaled / divisor)
}

/// The labels and formats of the setup matrix: width, height and frames
/// per second, from lightest to heaviest.
pub fn candidate_formats() -> (formats: Vec<(&'static str, u32, u32, u32)>)
    ensures
        formats@.len() == 4,
        formats@[0].1 == 1_280 && formats@[0].2 == 720 && formats@[0].3 == 30,
        formats@[1].1 == 1_280 && formats@[1].2 == 720 && formats@[1].3 == 60,
        formats@[2].1 == 1_920 && formats@[2].2 == 1_080 && formats@[2].3 == 30,
        formats@[3].1 == 1_920 && formats@[3].2 == 1_080 && formats@[3].3 == 60,
        formats@[0].0@ == "720p30"@,
        formats@[1].0@ == "720p60"@,
        formats@[2].0@ == "1080p30"@,
        formats@[3].0@ == "1080p60"@,
{
    let mut formats: Vec<(&'static str, u32, u32, u32)> = Vec::new();
    formats.push(("720p30", 1_280, 720, 30));
    formats.push(("720p60", 1_280, 720, 60));
    formats.push(("1080p30", 1_920, 1_080, 30));
    formats.push(("1080p60", 1_920, 1_080, 60));
    formats
}

/// Builds the candidate for one format of the matrix from the outcome of
/// its measurement: a measured candidate is ranked by
/// [`rank_setup_candidate`]; one whose run failed keeps the error, with
/// tier and score zero. The frames per second are the whole part of the
/// frame rate.
pub fn measured_candidate(
    label: &str,
    width: u32,
    height: u32,
    fps_numerator: u32,
    fps_denominator: u32,
    period_nanos: Option<u64>,
    outcome: Result<SetupCandidateMetrics, String>,
) -> (candidate: SetupCandidate)
    requires
        fps_denominator > 0,
    ensures
        candidate.label@ == label@,
        candidate.width == width,
        candidate.height == height,
        candidate.fps == fps_numerator / fps_denominator,
        match outcome {
            Ok(metrics) => {
                let budget = match period_nanos {
                    Some(p) => p as int,
                    None => 1,
                };
                &&& candidate.result == Some(metrics)
                &&& candidate.error is None
                &&& candidate.tier == if spec_stable(metrics, budget) {
                    2u8
                } else {
                    0u8
                }
                &&& candidate.score == spec_score(width, height, fps_numerator, fps_denominator)
            },
            Err(message) => {
                &&& candidate.result is None
                &&& candidate.error matches Some(e) && e@ == message@
                &&& candidate.tier == 0
                &&& candidate.score == 0
            },
        },
{
    let fps = fps_numerator / fps_denominator;
    match outcome {
        Ok(metrics) => {
            let (tier, score) = rank_setup_candidate(
                width,
                height,
                fps_numerator,
                fps_denominator,
                period_nanos,
                metrics,
            );
            SetupCandidate {
                label: label.to_owned(),
                width,
                height,
                fps,
                tier,
                score,
                result: Some(metrics),
                error: None,
            }
        },
        Err(message) => SetupCandidate {
            label: label.to_owned(),
            width,
            height,
            fps,
            tier: 0,
            score: 0,
            result: None,
            error: Some(message),
        },
    }
}

/// The text of a measurement that may be unavailable.
pub fn display_optional(value: Option<u64>) -> (text: String)
    ensures
        text@ == match value {
            Some(v) => spec_decimal(v as nat),
            None => "unavailable"@,
        },
{
    match value {
        Some(v) => {
            let mut out: Vec<char> = Vec::new();
            push_decimal(&mut out, v as u128);
            string_from_chars(out)
        },
        None => "unavailable".to_owned(),
    }
}

/// The number of bytes that UTF-8 uses for a character.
pub open spec fn utf8_width(c: char) -> nat {
    if (c as u32) < 0x80 {
        1
    } else if (c as u32) < 0x800 {
        2
    } else if (c as u32) < 0x10000 {
        3
    } else {
        4
    }
}

/// The number of leading characters of `s` that fit in `max` UTF-8 bytes.
pub open spec fn byte_prefix(s: Seq<char>, max: int) -> nat
    decreases s.len(),
{
    if s.len() == 0 || utf8_width(s[0]) > max {
        0
    } else {
        1 + byte_prefix(s.skip(1), max - utf8_width(s[0]))
    }
}

/// Whether cutting `s` at byte `max` falls between two characters (or past
/// the end), as `String::truncate` requires.
pub open spec fn cut_on_boundary(s: Seq<char>, max: int) -> bool
    decreases s.len(),
{
    if s.len() == 0 {
        true
    } else if utf8_width(s[0]) > max {
        max == 0
    } else {
        cut_on_boundary(s.skip(1), max - utf8_width(s[0]))
    }
}

/// One candidate's part of the summary.
pub open spec fn spec_candidate_summary(candidate: SetupCandidate) -> Seq<char> {
    let (p95, p99, missed, dropped) = match candidate.result {
        Some(m) => (
            m.render_p95_nanos as nat,
            m.render_p99_nanos as nat,
            m.missed_deadlines as nat,
            m.dropped_frames as nat,
        ),
        None => (0nat, 0nat, 0nat, 0nat),
    };
    " | "@ + candidate.label@ + ":tier="@ + spec_decimal(candidate.tier as nat) + ",score="@
        + spec_decimal(candidate.score as nat) + ",p95_ns="@ + spec_decimal(p95) + ",p99_ns="@
        + spec_decimal(p99) + ",missed="@ + spec_decimal(missed) + ",dropped="@ + spec_decimal(
        dropped,
    )
}

/// The parts of the first `n` candidates.
pub open spec fn candidate_summaries(candidates: Seq<SetupCandidate>, n: int) -> Seq<char>
    decreases n,
{
    if n <= 0 {
        seq![]
    } else {
        candidate_summaries(candidates, n - 1) + spec_candidate_summary(candidates[n - 1])
    }
}

/// The whole summary before it is bounded.
pub open spec fn spec_summary_text(report: SetupBenchmarkReport) -> Seq<char> {
    let candidates = report.candidates@;
    let recommendation = match report.recommended {
        Some(i) => if i < candidates.len() {
            candidates[i as int].label@
        } else {
            "none"@
        },
        None => "none"@,
    };
    "recommended="@ + recommendation + "; candidates="@ + spec_decimal(candidates.len()) + "; elapsed_ms="@
        + spec_decimal(report.elapsed_millis as nat) + candidate_summaries(
        candidates,
        candidates.len() as int,
    )
}

/// The number of UTF-8 bytes of a character.
fn char_width(c: char) -> (width: usize)
    ensures
        width == utf8_width(c),
{
    let u = c as u32;
    if u < 0x80 {
        1
    } else if u < 0x800 {
        2
    } else if u < 0x10000 {
        3
    } else {
        4
    }
}

fn push_candidate_summary(out: &mut Vec<char>, candidate: &SetupCandidate)
    ensures
        final(out)@ == old(out)@ + spec_candidate_summary(*candidate),
{
    let (p95, p99, missed, dropped): (u128, u128, u64, u64) = match candidate.result {
        Some(m) => (m.render_p95_nanos, m.render_p99_nanos, m.missed_deadlines, m.dropped_frames),
        None => (0, 0, 0, 0),
    };
    push_str(out, " | ");
    push_str(out, candidate.label.as_str());
    push_str(out, ":tier=");
    push_decimal(out, candidate.tier as u128);
    push_str(out, ",score=");
    push_decimal(out, candidate.score as u128);
    push_str(out, ",p95_ns=");
    push_decimal(out, p95);
    push_str(out, ",p99_ns=");
    push_decimal(out, p99);
    push_str(out, ",missed=");
    push_decimal(out, missed as u128);
    push_str(out, ",dropped=");
    push_decimal(out, dropped as u128);
    assert(out@ =~= old(out)@ + spec_candidate_summary(*candidate));
}

impl SetupBenchmarkReport {
    /// Returns a human-readable summary bounded to [`MAX_SUMMARY_BYTES`]
    /// UTF-8 bytes: the recommendation, the candidate count, the elapsed
    /// time and each candidate's tier, score and timings.
    pub fn summary(&self) -> (summary: String)
        requires
            cut_on_boundary(spec_summary_text(*self), MAX_SUMMARY_BYTES as int),
        ensures
            summary@ == spec_summary_text(*self).take(
                byte_prefix(spec_summary_text(*self), MAX_SUMMARY_BYTES as int) as int,
            ),
    {
        let mut out: Vec<char> = Vec::new();
        push_str(&mut out, "recommended=");
        match self.recommended {
            Some(i) => {
                if i < self.candidates.len() {
                    push_str(&mut out, self.candidates[i].label.as_str());
                } else {
                    push_str(&mut out, "none");
                }
            },
            None => push_str(&mut out, "none"),
        }
        push_str(&mut out, "; candidates=");
        push_decimal(&mut out, self.candidates.len() as u128);
        push_str(&mut out, "; elapsed_ms=");
        push_decimal(&mut out, self.elapsed_millis);
        let ghost head = out@;
        let mut k: usize = 0;
        while k < self.candidates.len()
            invariant
                k <= self.candidates@.len(),
                out@ == head + candidate_summaries(self.candidates@, k as int),
            decreases self.candidates@.len() - k,
        {
            push_candidate_summary(&mut out, &self.candidates[k]);
            k = k + 1;
            assert(out@ =~= head + candidate_summaries(self.candidates@, k as int));
        }
        assert(out@ =~= spec_summary_text(*self));
        let ghost text = out@;
        let mut kept: Vec<char> = Vec::new();
        let mut budget: usize = MAX_SUMMARY_BYTES;
        let mut j: usize = 0;
        assert(text.skip(0) =~= text);
        while j < out.len() && char_width(out[j]) <= budget
            invariant
                j <= out@.len(),
                out@ == text,
                budget <= MAX_SUMMARY_BYTES,
                kept@ == text.take(j as int),
                byte_prefix(text, MAX_SUMMARY_BYTES as int) == j + byte_prefix(
                    text.skip(j as int),
                    budget as int,
                ),
            decreases out@.len() - j,
        {
            let w = char_width(out[j]);
            assert(text.skip(j as int)[0] == text[j as int]);
            assert(text.skip(j as int).skip(1) =~= text.skip(j + 1));
            kept.push(out[j]);
            budget = budget - w;
            j = j + 1;
            assert(kept@ =~= text.take(j as int));
        }
        if j < out.len() {
            assert(text.skip(j as int)[0] == text[j as int]);
        }
        string_from_chars(kept)
    }
}

} // verus!
