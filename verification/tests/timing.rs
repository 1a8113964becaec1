use rtk_tracking::timing::{recorded_millis, track_at, track_passthrough_at};
use rtk_tracking::{track, Percent, TimedExecution, Timestamp, Tracker};

fn at(millis: i64) -> Timestamp {
    Timestamp::from_millis(millis).expect("instant in range")
}

fn percent(p: Percent) -> f64 {
    p.micros() as f64 / 1_000_000.0
}

const T0: i64 = 1_705_314_600_000;

#[test]
fn test_timed_execution_records_time() {
    let timer = TimedExecution::start();
    let mut tracker = Tracker::new();
    timer.track(&mut tracker, "test cmd", "rtk test", "raw input data", "filtered");

    let recent = tracker.get_recent(5);
    assert!(recent.iter().any(|r| r.rtk_cmd == "rtk test"));
}

#[test]
fn test_timed_execution_passthrough() {
    let timer = TimedExecution::start();
    let mut tracker = Tracker::new();
    timer.track_passthrough(&mut tracker, "git tag", "rtk git tag (passthrough)");

    let recent = tracker.get_recent(5);

    let pt = recent
        .iter()
        .find(|r| r.rtk_cmd.contains("passthrough"))
        .expect("Passthrough record not found");

    // savings_pct should be 0 for passthrough
    assert_eq!(percent(pt.savings_pct), 0.0);
    assert_eq!(pt.saved_tokens, 0);
}

#[test]
fn track_estimates_tokens_from_the_texts() {
    let mut tracker = Tracker::new();
    // 14 characters: 4 tokens; 8 characters: 2 tokens
    track_at(&mut tracker, "test cmd", "rtk test", "raw input data", "filtered", 25, at(T0));
    let summary = tracker.get_summary();
    assert_eq!(summary.total_commands, 1);
    assert_eq!(summary.total_input, 4);
    assert_eq!(summary.total_output, 2);
    assert_eq!(summary.total_saved, 2);
    assert_eq!(summary.avg_savings_pct.micros(), 50_000_000);
    assert_eq!(summary.total_time_ms, 25);
    let feed = tracker.get_recent(1);
    assert_eq!(feed[0].timestamp.millis(), T0);
    assert_eq!(feed[0].rtk_cmd, "rtk test");
}

#[test]
fn passthrough_adds_time_and_no_tokens() {
    let mut tracker = Tracker::new();
    track_at(&mut tracker, "a", "rtk a", "0123456789012345", "0123", 10, at(T0));
    track_passthrough_at(&mut tracker, "git tag", "rtk git tag (passthrough)", 90, at(T0 + 1));
    let summary = tracker.get_summary();
    assert_eq!(summary.total_commands, 2);
    assert_eq!(summary.total_input, 4);
    assert_eq!(summary.total_output, 1);
    assert_eq!(summary.total_saved, 3);
    // the passthrough does not dilute the overall percentage
    assert_eq!(summary.avg_savings_pct.micros(), 75_000_000);
    assert_eq!(summary.total_time_ms, 100);
    assert_eq!(summary.avg_time_ms, 50);
}

#[test]
fn track_swallows_the_refusal_of_the_store() {
    let mut tracker = Tracker::new();
    tracker.record_at("slow", "rtk slow", 0, 0, u64::MAX, at(T0)).unwrap();
    track_at(&mut tracker, "a", "rtk a", "abcd", "", 1, at(T0 + 1));
    track_passthrough_at(&mut tracker, "b", "rtk b", 1, at(T0 + 2));
    assert_eq!(tracker.len(), 1);
    track_passthrough_at(&mut tracker, "b", "rtk b", 0, at(T0 + 3));
    assert_eq!(tracker.len(), 2);
}

#[test]
fn timer_measures_elapsed_time() {
    let timer = TimedExecution::start();
    let first = timer.elapsed_ms();
    let mut spin: u64 = 0;
    for i in 0..200_000u64 {
        spin = spin.wrapping_add(i * i);
    }
    assert!(spin > 0);
    let second = timer.elapsed_ms();
    assert!(second >= first);
    // well below a minute
    assert!(second < 60_000);
}

#[test]
fn untimed_track_records_no_time() {
    let mut tracker = Tracker::new();
    track(&mut tracker, "git diff", "rtk git diff", "12345678", "1234");
    let summary = tracker.get_summary();
    assert_eq!(summary.total_commands, 1);
    assert_eq!(summary.total_input, 2);
    assert_eq!(summary.total_output, 1);
    assert_eq!(summary.total_time_ms, 0);
    let feed = tracker.get_recent(1);
    assert_eq!(feed[0].rtk_cmd, "rtk git diff");
    assert_eq!(feed[0].saved_tokens, 1);
    assert_eq!(percent(feed[0].savings_pct), 50.0);
}

#[test]
fn timed_track_stamps_the_current_time() {
    let timer = TimedExecution::start();
    let mut tracker = Tracker::new();
    timer.track(&mut tracker, "test cmd", "rtk test", "raw input data", "filtered");
    let feed = tracker.get_recent(1);
    assert_eq!(feed[0].saved_tokens, 2);
    // later than 2020-01-01
    assert!(feed[0].timestamp.millis() > 1_577_836_800_000);
    assert!(tracker.get_summary().total_time_ms < 60_000);
}

#[test]
fn recorded_span_in_milliseconds() {
    assert_eq!(recorded_millis(0), 0);
    assert_eq!(recorded_millis(25), 25);
    assert_eq!(recorded_millis(u64::MAX as u128), u64::MAX);
    // beyond 64 bits only the low 64 bits are kept
    assert_eq!(recorded_millis(u64::MAX as u128 + 1), 0);
    assert_eq!(recorded_millis(u64::MAX as u128 + 6), 5);
    assert_eq!(recorded_millis(u128::MAX), u64::MAX);
}
