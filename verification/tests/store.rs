use rtk_tracking::time::MILLIS_PER_DAY;
use rtk_tracking::{Execution, Percent, StoreError, Timestamp, Tracker};

fn at(millis: i64) -> Timestamp {
    Timestamp::from_millis(millis).expect("instant in range")
}

fn percent(p: Percent) -> f64 {
    p.micros() as f64 / 1_000_000.0
}

// 2024-01-15T10:30:00Z
const T0: i64 = 1_705_314_600_000;

#[test]
fn test_tracker_record_and_recent() {
    let mut tracker = Tracker::new();
    let test_cmd = format!("rtk git status test_{}", 4711);

    tracker.record("git status", &test_cmd, 100, 20, 50).expect("Failed to record");

    let recent = tracker.get_recent(10);
    let test_record = recent
        .iter()
        .find(|r| r.rtk_cmd == test_cmd)
        .expect("Test record not found in recent commands");

    assert_eq!(test_record.saved_tokens, 80);
    assert_eq!(percent(test_record.savings_pct), 80.0);
}

#[test]
fn test_track_passthrough_no_dilution() {
    let mut tracker = Tracker::new();
    let cmd1 = format!("rtk cmd1_test_{}", 4711);
    let cmd2 = format!("rtk cmd2_passthrough_test_{}", 4711);

    tracker.record("cmd1", &cmd1, 1000, 200, 10).expect("Failed to record cmd1");
    tracker.record("cmd2", &cmd2, 0, 0, 5).expect("Failed to record passthrough");

    let recent = tracker.get_recent(20);
    let record1 = recent.iter().find(|r| r.rtk_cmd == cmd1).expect("cmd1 record not found");
    let record2 = recent.iter().find(|r| r.rtk_cmd == cmd2).expect("passthrough record not found");

    assert_eq!(record1.saved_tokens, 800);
    assert_eq!(percent(record1.savings_pct), 80.0);

    assert_eq!(record2.saved_tokens, 0);
    assert_eq!(percent(record2.savings_pct), 0.0);

    // the passthrough adds to the count and the time, not to the token sums
    let summary = tracker.get_summary();
    assert_eq!(summary.total_commands, 2);
    assert_eq!(summary.total_input, 1000);
    assert_eq!(summary.total_saved, 800);
    assert_eq!(percent(summary.avg_savings_pct), 80.0);
    assert_eq!(summary.total_time_ms, 15);
}

#[test]
fn new_store_is_empty() {
    let tracker = Tracker::new();
    assert_eq!(tracker.len(), 0);
    assert!(tracker.get_recent(10).is_empty());
    assert!(tracker.get_all_days().is_empty());
    assert!(tracker.get_by_week().is_empty());
    assert!(tracker.get_by_month().is_empty());
    assert!(tracker.get_by_command().is_empty());
    assert!(tracker.get_by_day().is_empty());
    let summary = tracker.get_summary();
    assert_eq!(summary.total_commands, 0);
    assert_eq!(summary.total_input, 0);
    assert_eq!(summary.total_output, 0);
    assert_eq!(summary.total_saved, 0);
    assert_eq!(summary.avg_savings_pct.micros(), 0);
    assert_eq!(summary.total_time_ms, 0);
    assert_eq!(summary.avg_time_ms, 0);
    assert!(summary.by_command.is_empty());
    assert!(summary.by_day.is_empty());
}

#[test]
fn record_derives_saving_and_percentage() {
    let mut tracker = Tracker::new();
    tracker.record_at("git status", "rtk git status", 100, 20, 50, at(T0)).unwrap();
    assert_eq!(tracker.len(), 1);
    let feed = tracker.get_recent(1);
    assert_eq!(feed.len(), 1);
    assert_eq!(feed[0].timestamp.millis(), T0);
    assert_eq!(feed[0].rtk_cmd, "rtk git status");
    assert_eq!(feed[0].saved_tokens, 80);
    assert_eq!(feed[0].savings_pct.micros(), 80_000_000);
}

#[test]
fn record_where_output_exceeds_input_saves_nothing() {
    let mut tracker = Tracker::new();
    tracker.record_at("ls", "rtk ls", 20, 100, 1, at(T0)).unwrap();
    let feed = tracker.get_recent(1);
    assert_eq!(feed[0].saved_tokens, 0);
    assert_eq!(feed[0].savings_pct.micros(), 0);
    let summary = tracker.get_summary();
    assert_eq!(summary.total_input, 20);
    assert_eq!(summary.total_output, 100);
    assert_eq!(summary.total_saved, 0);
}

#[test]
fn record_prunes_what_left_the_window() {
    let mut tracker = Tracker::new();
    tracker.record_at("old", "rtk old", 100, 10, 1, at(T0)).unwrap();
    tracker.record_at("edge", "rtk edge", 100, 10, 1, at(T0 + MILLIS_PER_DAY)).unwrap();
    assert_eq!(tracker.len(), 2);

    // 91 days after the first row, exactly 90 days after the second
    let later = T0 + 91 * MILLIS_PER_DAY;
    tracker.record_at("new", "rtk new", 50, 10, 1, at(later)).unwrap();

    assert_eq!(tracker.len(), 2);
    let feed = tracker.get_recent(10);
    assert_eq!(feed.len(), 2);
    assert!(feed.iter().all(|r| r.rtk_cmd != "rtk old"));
    assert_eq!(feed[0].rtk_cmd, "rtk new");
    assert_eq!(feed[1].rtk_cmd, "rtk edge");

    let summary = tracker.get_summary();
    assert_eq!(summary.total_commands, 2);
    assert_eq!(summary.total_input, 150);
    assert!(summary.by_command.iter().all(|c| c.0 != "rtk old"));
    assert!(summary.by_day.iter().all(|d| d.0 != "2024-01-15"));

    assert!(tracker.get_all_days().iter().all(|d| d.date != "2024-01-15"));
    // the week of the pruned row still holds the second row, and only that
    let weeks = tracker.get_by_week();
    assert_eq!(weeks[0].week_start, "2024-01-15");
    assert_eq!(weeks[0].commands, 1);
    assert_eq!(weeks[0].input_tokens, 100);
    assert_eq!(tracker.get_by_month().iter().map(|m| m.commands).sum::<usize>(), 2);
}

#[test]
fn pruning_waits_for_the_next_record() {
    let mut tracker = Tracker::new();
    tracker.record_at("old", "rtk old", 100, 10, 1, at(T0)).unwrap();
    // reading does not prune
    assert_eq!(tracker.get_recent(10).len(), 1);
    assert_eq!(tracker.get_summary().total_commands, 1);
    // a record made with an earlier clock prunes nothing either
    tracker.record_at("older", "rtk older", 1, 1, 1, at(T0 - 200 * MILLIS_PER_DAY)).unwrap();
    assert_eq!(tracker.len(), 2);
}

#[test]
fn record_is_turned_down_where_a_sum_would_not_fit() {
    let mut tracker = Tracker::new();
    tracker.record_at("big", "rtk big", usize::MAX, 0, 1, at(T0)).unwrap();
    let res = tracker.record_at("more", "rtk more", 1, 0, 1, at(T0 + 1));
    assert_eq!(res, Err(StoreError::TotalsOverflow));
    // nothing changed
    assert_eq!(tracker.len(), 1);
    assert_eq!(tracker.get_summary().total_input, usize::MAX);
    // no input tokens: fits
    assert_eq!(tracker.record_at("free", "rtk free", 0, 0, 1, at(T0 + 2)), Ok(()));
    assert_eq!(tracker.len(), 2);
    // the time sum is bounded too
    assert_eq!(
        tracker.record_at("slow", "rtk slow", 0, 0, u64::MAX, at(T0 + 3)),
        Err(StoreError::TotalsOverflow)
    );
    // and the output sum
    assert_eq!(tracker.record_at("loud", "rtk loud", 0, usize::MAX, 0, at(T0 + 4)), Ok(()));
    assert_eq!(
        tracker.record_at("loud", "rtk loud", 0, 1, 0, at(T0 + 5)),
        Err(StoreError::TotalsOverflow)
    );
    assert_eq!(tracker.len(), 3);
}

#[test]
fn turned_down_record_prunes_nothing() {
    let mut tracker = Tracker::new();
    tracker.record_at("old", "rtk old", 1, 0, 1, at(T0)).unwrap();
    tracker.record_at("big", "rtk big", usize::MAX - 1, 0, 1, at(T0 + 80 * MILLIS_PER_DAY)).unwrap();
    // would prune the first row, but does not fit beside the second
    let res = tracker.record_at("more", "rtk more", 2, 0, 1, at(T0 + 100 * MILLIS_PER_DAY));
    assert_eq!(res, Err(StoreError::TotalsOverflow));
    assert_eq!(tracker.len(), 2);
    // fits once the first row has left the window
    let res = tracker.record_at("more", "rtk more", 1, 0, 1, at(T0 + 100 * MILLIS_PER_DAY));
    assert_eq!(res, Ok(()));
    assert_eq!(tracker.len(), 2);
    assert_eq!(tracker.get_summary().total_input, usize::MAX);
}

#[test]
fn store_from_rows() {
    let rows = vec![
        Execution::new(at(T0), "a", "rtk a", 10, 5, 1),
        Execution::new(at(T0 + 1), "b", "rtk b", 20, 5, 2),
    ];
    let tracker = Tracker::from_rows(rows).expect("sums fit");
    assert_eq!(tracker.len(), 2);
    assert_eq!(tracker.get_summary().total_saved, 20);

    let too_much = vec![
        Execution::new(at(T0), "a", "rtk a", usize::MAX, 0, 1),
        Execution::new(at(T0 + 1), "b", "rtk b", 1, 0, 2),
    ];
    assert!(matches!(Tracker::from_rows(too_much), Err(StoreError::TotalsOverflow)));
    assert!(Tracker::from_rows(Vec::new()).is_ok());
}

#[test]
fn execution_record_figures() {
    let row = Execution::new(at(T0), "git log", "rtk git log", 1000, 200, 12);
    assert_eq!(row.timestamp.millis(), T0);
    assert_eq!(row.original_cmd, "git log");
    assert_eq!(row.rtk_cmd, "rtk git log");
    assert_eq!(row.saved_tokens(), 800);
    assert_eq!(row.savings_pct().micros(), 80_000_000);
    let copy = row.duplicate();
    assert_eq!(copy.rtk_cmd, "rtk git log");
    assert_eq!(copy.input_tokens, 1000);
    assert_eq!(copy.output_tokens, 200);
    assert_eq!(copy.exec_time_ms, 12);
    assert_eq!(copy.timestamp, row.timestamp);
}

#[test]
fn recent_is_newest_first() {
    let mut tracker = Tracker::new();
    // recorded out of order of their timestamps
    tracker.record_at("b", "rtk b", 10, 1, 1, at(T0 + 2000)).unwrap();
    tracker.record_at("a", "rtk a", 10, 2, 1, at(T0 + 1000)).unwrap();
    tracker.record_at("d", "rtk d", 10, 3, 1, at(T0 + 4000)).unwrap();
    tracker.record_at("c", "rtk c", 10, 4, 1, at(T0 + 3000)).unwrap();

    let feed = tracker.get_recent(10);
    let labels: Vec<&str> = feed.iter().map(|r| r.rtk_cmd.as_str()).collect();
    assert_eq!(labels, vec!["rtk d", "rtk c", "rtk b", "rtk a"]);
    for pair in feed.windows(2) {
        assert!(pair[0].timestamp.millis() > pair[1].timestamp.millis());
    }
}

#[test]
fn recent_is_cut_to_the_limit() {
    let mut tracker = Tracker::new();
    for i in 0..5 {
        tracker.record_at("x", &format!("rtk {}", i), 10, 1, 1, at(T0 + i)).unwrap();
    }
    assert_eq!(tracker.get_recent(0).len(), 0);
    let three = tracker.get_recent(3);
    let labels: Vec<&str> = three.iter().map(|r| r.rtk_cmd.as_str()).collect();
    assert_eq!(labels, vec!["rtk 4", "rtk 3", "rtk 2"]);
    assert_eq!(tracker.get_recent(5).len(), 5);
    assert_eq!(tracker.get_recent(usize::MAX).len(), 5);
}

#[test]
fn recent_puts_the_later_record_first_among_equal_timestamps() {
    let mut tracker = Tracker::new();
    tracker.record_at("x", "rtk first", 10, 1, 1, at(T0)).unwrap();
    tracker.record_at("x", "rtk second", 10, 1, 1, at(T0)).unwrap();
    tracker.record_at("x", "rtk third", 10, 1, 1, at(T0)).unwrap();
    tracker.record_at("x", "rtk early", 10, 1, 1, at(T0 - 1)).unwrap();
    let feed = tracker.get_recent(3);
    let labels: Vec<&str> = feed.iter().map(|r| r.rtk_cmd.as_str()).collect();
    assert_eq!(labels, vec!["rtk third", "rtk second", "rtk first"]);
}
