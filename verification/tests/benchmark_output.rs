use obs_rs::benchmark::RenderLatency;
use obs_rs::benchmark_report::{
    legacy_json, legacy_text, parse_resident_memory_kib, render_latency, setup_metrics,
    sort_timings, BenchmarkOutput, CompositorMetrics, FrameMemoryMetrics, MultiWorkerSoakReport,
    VideoWorkerReport,
};

fn small_output() -> BenchmarkOutput {
    BenchmarkOutput {
        report: VideoWorkerReport {
            requested_frames: 10,
            processed_frames: 9,
            cancelled: 0,
            empty_frames: 1,
            dropped_oldest: 2,
            dropped_newest: 3,
            missed_deadlines: 4,
            total_lateness_nanos: 500,
            max_lateness_nanos: 200,
            total_wait_nanos: 700,
            total_render_nanos: 800,
            produced_bytes: 4096,
            peak_queued_bytes: 1024,
            remaining_queue: 0,
        },
        compositor: CompositorMetrics {
            render_calls: 11,
            source_requests: 12,
            source_frames: 13,
            empty_sources: 0,
            transformed_frames: 5,
            filtered_frames: 6,
            blended_layers: 7,
        },
        elapsed_millis: 42,
        multi_worker: MultiWorkerSoakReport {
            workers: 4,
            requested_frames: 40,
            processed_frames: 40,
            missed_deadlines: 0,
            total_lateness_nanos: 9,
            produced_bytes: 16384,
            peak_queued_bytes: 2048,
            elapsed_nanos: 123456,
        },
        render_latency: RenderLatency {
            samples: 3,
            p50_nanos: 100,
            p95_nanos: 150,
            p99_nanos: 160,
            max_nanos: 170,
        },
        frame_memory: FrameMemoryMetrics {
            owned_buffers: 1,
            owned_bytes: 64,
            shared_clones: 2,
            copy_on_write_buffers: 0,
            copy_on_write_bytes: 0,
        },
        rss_before_kib: Some(1000),
        rss_after_kib: None,
    }
}

#[test]
fn text_report_keeps_the_one_line_schema() {
    let text = legacy_text(&small_output());
    assert_eq!(
        text,
        "obs-rs benchmark: render_samples=3 render_p50_ns=100 render_p95_ns=150 \
render_p99_ns=160 render_max_ns=170 frame_owned_buffers=1 frame_owned_bytes=64 \
frame_shared_clones=2 frame_cow_buffers=0 frame_copied_bytes=0 rss_before_kib=1000 \
rss_after_kib=unavailable requested=10 processed=9 cancelled=0 empty=1 dropped_oldest=2 \
dropped_newest=3 missed=4 lateness_ns=500 max_lateness_ns=200 wait_ns=700 \
paced_render_ns=800 produced_bytes=4096 peak_queued_bytes=1024 remaining=0 renders=11 \
source_requests=12 source_frames=13 empty_sources=0 transformed=5 filtered=6 blends=7 \
elapsed_ms=42 multi_workers=4 multi_requested=40 multi_processed=40 multi_missed=0 \
multi_lateness_ns=9 multi_produced_bytes=16384 multi_peak_queued_bytes=2048 \
multi_elapsed_ns=123456"
    );
}

#[test]
fn json_report_keeps_the_versioned_schema() {
    let json = legacy_json(&small_output());
    assert_eq!(
        json,
        "{\"schema_version\":1,\"render_latency\":{\"samples\":3,\"p50_ns\":100,\"p95_ns\":150,\
\"p99_ns\":160,\"max_ns\":170},\"frame_memory\":{\"owned_buffers\":1,\"owned_bytes\":64,\
\"shared_clones\":2,\"copy_on_write_buffers\":0,\"copied_bytes\":0},\"process_memory\":\
{\"rss_before_kib\":1000,\"rss_after_kib\":null},\"paced_worker\":{\"requested\":10,\
\"processed\":9,\"cancelled\":0,\"empty\":1,\"dropped_oldest\":2,\"dropped_newest\":3,\
\"missed_deadlines\":4,\"total_lateness_ns\":500,\"max_lateness_ns\":200,\"wait_ns\":700,\
\"render_ns\":800,\"produced_bytes\":4096,\"peak_queued_bytes\":1024,\"remaining_queue\":0,\
\"elapsed_ms\":42},\"compositor\":{\"renders\":11,\"source_requests\":12,\"source_frames\":13,\
\"empty_sources\":0,\"transformed\":5,\"filtered\":6,\"blends\":7},\"multi_worker\":\
{\"workers\":4,\"requested\":40,\"processed\":40,\"missed_deadlines\":0,\
\"total_lateness_ns\":9,\"produced_bytes\":16384,\"peak_queued_bytes\":2048,\
\"elapsed_ns\":123456}}"
    );
}

#[test]
fn setup_metrics_count_missed_deadlines_only_past_the_budget() {
    let output = small_output();
    let within = setup_metrics(Some(1_000), &output);
    assert_eq!(within.missed_deadlines, 0);
    assert_eq!(within.dropped_frames, 5);
    assert_eq!(within.render_p95_nanos, 150);
    assert_eq!(within.render_p99_nanos, 160);
    assert_eq!(within.render_max_nanos, 170);
    assert_eq!(within.max_queue_age_nanos, 200);
    assert_eq!(within.elapsed_millis, 42);
    let past = setup_metrics(Some(170), &output);
    assert_eq!(past.missed_deadlines, 4);
    let unknown = setup_metrics(None, &output);
    assert_eq!(unknown.missed_deadlines, 4);
}

#[test]
fn resident_memory_is_read_from_the_status_text() {
    let status = "Name:\tobs-rs\nVmPeak:\t  9000 kB\nVmRSS:\t    1234 kB\nThreads:\t4\n";
    assert_eq!(parse_resident_memory_kib(status), Some(1234));
    assert_eq!(parse_resident_memory_kib("Name:\tobs-rs\n"), None);
    assert_eq!(parse_resident_memory_kib("VmRSS:\n"), None);
    assert_eq!(parse_resident_memory_kib("VmRSS:\tmany kB\nVmRSS: 7 kB\n"), Some(7));
    assert_eq!(parse_resident_memory_kib(""), None);
}

#[test]
fn timings_are_sorted_ascending() {
    assert_eq!(sort_timings(vec![5, 1, 4, 1, 3]), vec![1, 1, 3, 4, 5]);
    assert_eq!(sort_timings(Vec::new()), Vec::<u128>::new());
}

#[test]
fn render_latency_reads_ranks_of_the_sorted_samples() {
    let latency = render_latency(vec![40, 10, 30, 20, 50]);
    assert_eq!(latency.samples, 5);
    assert_eq!(latency.p50_nanos, 30);
    assert_eq!(latency.p95_nanos, 40);
    assert_eq!(latency.p99_nanos, 40);
    assert_eq!(latency.max_nanos, 50);
    let empty = render_latency(Vec::new());
    assert_eq!(empty.samples, 0);
    assert_eq!(empty.max_nanos, 0);
}
