use codex_policy::tui::throughput::{
    ThroughputDisplay, ThroughputTracker, MINIMUM_SAMPLE_NANOS, WINDOW_NANOS,
};

const FOUR_TOKENS_IN_UTF8_BYTES: usize = 16;
const TWENTY_TOKENS_IN_UTF8_BYTES: usize = 80;
const SECOND: u64 = 1_000_000_000;
const MILLISECOND: u64 = 1_000_000;

/// What the status line shows, with estimates in tokens per second.
#[derive(Debug, PartialEq)]
enum Shown {
    Waiting,
    Approximate(f64),
    Exact(f64),
}

fn shown(display: Option<ThroughputDisplay>) -> Option<Shown> {
    display.map(|d| match d {
        ThroughputDisplay::Waiting => Shown::Waiting,
        ThroughputDisplay::Approximate { bytes, window_nanos } => {
            if window_nanos == 0 {
                Shown::Approximate(0.0)
            } else {
                Shown::Approximate((bytes as f64 / 4.0) / (window_nanos as f64 / 1e9))
            }
        }
        ThroughputDisplay::Exact { tokens_per_second_bits } => {
            Shown::Exact(f64::from_bits(tokens_per_second_bits))
        }
    })
}

fn start_tracker() -> (ThroughputTracker, u64) {
    let start = 1_000 * SECOND;
    let mut tracker = ThroughputTracker::new();
    tracker.begin_sampling(start);
    (tracker, start)
}

#[test]
fn excludes_pre_delta_waiting_time_from_the_live_estimate() {
    let (mut tracker, start) = start_tracker();
    let first_delta_at = start + 10 * SECOND;
    tracker.record_utf8_bytes(FOUR_TOKENS_IN_UTF8_BYTES, first_delta_at);

    assert_eq!(shown(tracker.display(first_delta_at)), Some(Shown::Waiting));
    assert_eq!(
        shown(tracker.display(first_delta_at + MINIMUM_SAMPLE_NANOS - MILLISECOND)),
        Some(Shown::Waiting)
    );
    assert_eq!(
        shown(tracker.display(first_delta_at + MINIMUM_SAMPLE_NANOS)),
        Some(Shown::Approximate(8.0))
    );
}

#[test]
fn evicts_output_after_the_five_second_window() {
    let (mut tracker, start) = start_tracker();
    tracker.record_utf8_bytes(TWENTY_TOKENS_IN_UTF8_BYTES, start);
    assert_eq!(
        shown(tracker.display(start + WINDOW_NANOS)),
        Some(Shown::Approximate(0.0))
    );
}

#[test]
fn freezes_an_approximation_when_the_server_has_no_final_measurement() {
    let (mut tracker, start) = start_tracker();
    tracker.record_utf8_bytes(TWENTY_TOKENS_IN_UTF8_BYTES, start);
    let measured_at = start + MINIMUM_SAMPLE_NANOS;

    tracker.finish_sampling(None, measured_at);
    tracker.record_utf8_bytes(TWENTY_TOKENS_IN_UTF8_BYTES, measured_at + SECOND);

    assert_eq!(
        shown(tracker.display(measured_at + WINDOW_NANOS)),
        Some(Shown::Approximate(40.0))
    );
}

#[test]
fn freezes_an_approximation_when_a_turn_is_aborted() {
    let (mut tracker, start) = start_tracker();
    tracker.record_utf8_bytes(TWENTY_TOKENS_IN_UTF8_BYTES, start);
    let frozen_at = start + MINIMUM_SAMPLE_NANOS;

    tracker.freeze(frozen_at);
    tracker.record_utf8_bytes(TWENTY_TOKENS_IN_UTF8_BYTES, frozen_at + SECOND);

    assert_eq!(
        shown(tracker.display(frozen_at + WINDOW_NANOS)),
        Some(Shown::Approximate(40.0))
    );
}

#[test]
fn prefers_the_exact_server_measurement_after_sampling_finishes() {
    let (mut tracker, start) = start_tracker();
    tracker.record_utf8_bytes(TWENTY_TOKENS_IN_UTF8_BYTES, start);

    tracker.finish_sampling(Some(12.34f64.to_bits()), start + MINIMUM_SAMPLE_NANOS);

    assert_eq!(shown(tracker.display(start + WINDOW_NANOS)), Some(Shown::Exact(12.34)));
}

#[test]
fn new_sampling_replaces_a_previous_exact_measurement() {
    let (mut tracker, start) = start_tracker();
    tracker.finish_sampling(Some(12.34f64.to_bits()), start);

    tracker.begin_sampling(start + SECOND);

    assert_eq!(shown(tracker.display(start + SECOND)), Some(Shown::Waiting));
}

#[test]
fn reset_clears_values_and_replay_has_no_active_sample() {
    let (mut tracker, start) = start_tracker();
    tracker.record_utf8_bytes(TWENTY_TOKENS_IN_UTF8_BYTES, start);
    tracker.reset();
    tracker.record_utf8_bytes(TWENTY_TOKENS_IN_UTF8_BYTES, start + SECOND);

    assert_eq!(shown(tracker.display(start + SECOND)), None);
}

#[test]
fn little_output_never_gives_an_estimate() {
    let (mut tracker, start) = start_tracker();
    tracker.record_utf8_bytes(15, start);
    assert_eq!(shown(tracker.display(start + 2 * SECOND)), Some(Shown::Waiting));
    tracker.record_utf8_bytes(1, start + 2 * SECOND);
    // 16 bytes over the 2.5 s since the first output.
    assert_eq!(
        tracker.display(start + 2 * SECOND + 500 * MILLISECOND),
        Some(ThroughputDisplay::Approximate { bytes: 16, window_nanos: 2_500_000_000 })
    );
}

#[test]
fn window_caps_at_five_seconds_and_drops_old_buckets() {
    let (mut tracker, start) = start_tracker();
    tracker.record_utf8_bytes(40, start);
    tracker.record_utf8_bytes(40, start + 3 * SECOND);
    // At 6 s the first bucket has left the window; the window is capped.
    assert_eq!(
        tracker.display(start + 6 * SECOND),
        Some(ThroughputDisplay::Approximate { bytes: 40, window_nanos: WINDOW_NANOS })
    );
}

#[test]
fn exact_measurement_survives_later_output() {
    let (mut tracker, start) = start_tracker();
    tracker.finish_sampling(Some(3.5f64.to_bits()), start);
    tracker.record_utf8_bytes(80, start + SECOND);
    assert!(!tracker.advance(start + 2 * SECOND));
    assert_eq!(shown(tracker.display(start + 9 * SECOND)), Some(Shown::Exact(3.5)));
    assert_eq!(tracker.next_update_after(start + 9 * SECOND), None);
}
