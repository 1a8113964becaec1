use rtk_tracking::model::TOP_COMMANDS;
use rtk_tracking::reports::SUMMARY_DAYS;
use rtk_tracking::time::MILLIS_PER_DAY;
use rtk_tracking::{Timestamp, Tracker};

fn at(millis: i64) -> Timestamp {
    Timestamp::from_millis(millis).expect("instant in range")
}

// 2024-01-15T10:30:00Z, a Monday
const T0: i64 = 1_705_314_600_000;

fn sample() -> Tracker {
    let mut tracker = Tracker::new();
    // Monday 2024-01-15
    tracker.record_at("git status", "rtk git status", 100, 20, 50, at(T0)).unwrap();
    tracker.record_at("git log", "rtk git log", 1000, 200, 30, at(T0 + 1000)).unwrap();
    // Sunday 2024-01-21, the same week
    tracker.record_at("git status", "rtk git status", 300, 0, 25, at(T0 + 6 * MILLIS_PER_DAY)).unwrap();
    // Monday 2024-01-22, the next week
    tracker.record_at("ls", "rtk ls", 0, 0, 7, at(T0 + 7 * MILLIS_PER_DAY)).unwrap();
    // Thursday 2024-02-01, the next month
    tracker.record_at("git log", "rtk git log", 10, 30, 4, at(T0 + 17 * MILLIS_PER_DAY)).unwrap();
    tracker
}

#[test]
fn summary_adds_up_the_history() {
    let summary = sample().get_summary();
    assert_eq!(summary.total_commands, 5);
    assert_eq!(summary.total_input, 1410);
    assert_eq!(summary.total_output, 250);
    assert_eq!(summary.total_saved, 80 + 800 + 300);
    // 1180 / 1410 = 83.687943...%
    assert_eq!(summary.avg_savings_pct.micros(), 83_687_943);
    assert_eq!(summary.total_time_ms, 116);
    // 116 / 5, rounded down
    assert_eq!(summary.avg_time_ms, 23);
    assert_eq!(summary.by_command.len(), 3);
    assert_eq!(summary.by_day.len(), 4);
}

#[test]
fn days_in_ascending_order() {
    let days = sample().get_all_days();
    let dates: Vec<&str> = days.iter().map(|d| d.date.as_str()).collect();
    assert_eq!(dates, vec!["2024-01-15", "2024-01-21", "2024-01-22", "2024-02-01"]);

    assert_eq!(days[0].commands, 2);
    assert_eq!(days[0].input_tokens, 1100);
    assert_eq!(days[0].output_tokens, 220);
    assert_eq!(days[0].saved_tokens, 880);
    assert_eq!(days[0].savings_pct.micros(), 80_000_000);
    assert_eq!(days[0].total_time_ms, 80);
    assert_eq!(days[0].avg_time_ms, 40);

    assert_eq!(days[1].commands, 1);
    assert_eq!(days[1].saved_tokens, 300);
    assert_eq!(days[1].savings_pct.micros(), 100_000_000);

    // a passthrough: counted and timed, no tokens
    assert_eq!(days[2].commands, 1);
    assert_eq!(days[2].input_tokens, 0);
    assert_eq!(days[2].saved_tokens, 0);
    assert_eq!(days[2].savings_pct.micros(), 0);
    assert_eq!(days[2].total_time_ms, 7);
    assert_eq!(days[2].avg_time_ms, 7);

    // more output than input
    assert_eq!(days[3].input_tokens, 10);
    assert_eq!(days[3].output_tokens, 30);
    assert_eq!(days[3].saved_tokens, 0);
    assert_eq!(days[3].savings_pct.micros(), 0);
}

#[test]
fn days_do_not_depend_on_the_order_of_recording() {
    let mut tracker = Tracker::new();
    tracker.record_at("c", "rtk c", 30, 0, 1, at(T0 + 2 * MILLIS_PER_DAY)).unwrap();
    tracker.record_at("a", "rtk a", 10, 0, 1, at(T0)).unwrap();
    tracker.record_at("b", "rtk b", 20, 0, 1, at(T0 + MILLIS_PER_DAY)).unwrap();
    tracker.record_at("a", "rtk a", 5, 0, 1, at(T0 + 60_000)).unwrap();
    let days = tracker.get_all_days();
    let seen: Vec<(&str, usize)> = days.iter().map(|d| (d.date.as_str(), d.saved_tokens)).collect();
    assert_eq!(seen, vec![("2024-01-15", 15), ("2024-01-16", 20), ("2024-01-17", 30)]);
}

#[test]
fn weeks_run_from_monday_to_sunday() {
    let weeks = sample().get_by_week();
    assert_eq!(weeks.len(), 3);
    assert_eq!(weeks[0].week_start, "2024-01-15");
    assert_eq!(weeks[0].week_end, "2024-01-21");
    assert_eq!(weeks[0].commands, 3);
    assert_eq!(weeks[0].input_tokens, 1400);
    assert_eq!(weeks[0].output_tokens, 220);
    assert_eq!(weeks[0].saved_tokens, 1180);
    // 1180 / 1400 = 84.285714...%
    assert_eq!(weeks[0].savings_pct.micros(), 84_285_714);
    assert_eq!(weeks[0].total_time_ms, 105);
    assert_eq!(weeks[0].avg_time_ms, 35);

    assert_eq!(weeks[1].week_start, "2024-01-22");
    assert_eq!(weeks[1].week_end, "2024-01-28");
    assert_eq!(weeks[1].commands, 1);

    assert_eq!(weeks[2].week_start, "2024-01-29");
    assert_eq!(weeks[2].week_end, "2024-02-04");
    assert_eq!(weeks[2].commands, 1);
}

#[test]
fn week_of_a_sunday_ends_on_it() {
    let mut tracker = Tracker::new();
    // Sunday 2024-01-14
    tracker.record_at("a", "rtk a", 10, 0, 1, at(T0 - MILLIS_PER_DAY)).unwrap();
    let weeks = tracker.get_by_week();
    assert_eq!(weeks.len(), 1);
    assert_eq!(weeks[0].week_start, "2024-01-08");
    assert_eq!(weeks[0].week_end, "2024-01-14");
}

#[test]
fn months_in_ascending_order() {
    let months = sample().get_by_month();
    assert_eq!(months.len(), 2);
    assert_eq!(months[0].month, "2024-01");
    assert_eq!(months[0].commands, 4);
    assert_eq!(months[0].input_tokens, 1400);
    assert_eq!(months[0].output_tokens, 220);
    assert_eq!(months[0].saved_tokens, 1180);
    assert_eq!(months[0].total_time_ms, 112);
    assert_eq!(months[0].avg_time_ms, 28);
    assert_eq!(months[1].month, "2024-02");
    assert_eq!(months[1].commands, 1);
    assert_eq!(months[1].saved_tokens, 0);
    assert_eq!(months[1].savings_pct.micros(), 0);
    assert_eq!(months[1].avg_time_ms, 4);
}

#[test]
fn months_across_a_year() {
    let mut tracker = Tracker::new();
    // 2023-12-31T23:59:59.999Z and the next millisecond
    let new_year = 1_704_067_200_000;
    tracker.record_at("a", "rtk a", 10, 0, 1, at(new_year)).unwrap();
    tracker.record_at("b", "rtk b", 20, 0, 1, at(new_year - 1)).unwrap();
    let months = tracker.get_by_month();
    let seen: Vec<(&str, usize)> = months.iter().map(|m| (m.month.as_str(), m.saved_tokens)).collect();
    assert_eq!(seen, vec![("2023-12", 20), ("2024-01", 10)]);
    let days = tracker.get_all_days();
    let dates: Vec<&str> = days.iter().map(|d| d.date.as_str()).collect();
    assert_eq!(dates, vec!["2023-12-31", "2024-01-01"]);
}

#[test]
fn buckets_add_up_to_the_summary() {
    let tracker = sample();
    let summary = tracker.get_summary();
    let days = tracker.get_all_days();
    let weeks = tracker.get_by_week();
    let months = tracker.get_by_month();
    assert_eq!(days.iter().map(|d| d.saved_tokens).sum::<usize>(), summary.total_saved);
    assert_eq!(weeks.iter().map(|w| w.saved_tokens).sum::<usize>(), summary.total_saved);
    assert_eq!(months.iter().map(|m| m.saved_tokens).sum::<usize>(), summary.total_saved);
    assert_eq!(days.iter().map(|d| d.commands).sum::<usize>(), summary.total_commands);
    assert_eq!(days.iter().map(|d| d.input_tokens).sum::<usize>(), summary.total_input);
    assert_eq!(days.iter().map(|d| d.output_tokens).sum::<usize>(), summary.total_output);
    assert_eq!(days.iter().map(|d| d.total_time_ms).sum::<u64>(), summary.total_time_ms);
    assert_eq!(summary.by_day.iter().map(|d| d.1).sum::<usize>(), summary.total_saved);
}

#[test]
fn day_series_holds_the_latest_thirty_days() {
    assert_eq!(SUMMARY_DAYS, 30);
    let mut tracker = Tracker::new();
    for i in 0..35 {
        tracker
            .record_at("x", "rtk x", 100 + i as usize, 0, 1, at(T0 + i * MILLIS_PER_DAY))
            .unwrap();
    }
    assert_eq!(tracker.get_all_days().len(), 35);
    let series = tracker.get_by_day();
    assert_eq!(series.len(), 30);
    // days 5 to 34, oldest first
    assert_eq!(series[0], ("2024-01-20".to_string(), 105));
    assert_eq!(series[29], ("2024-02-18".to_string(), 134));
    for pair in series.windows(2) {
        assert!(pair[0].0 < pair[1].0);
    }
    let summary = tracker.get_summary();
    assert_eq!(summary.by_day, series);
    // the capped series no longer adds up to the total
    assert!(summary.by_day.iter().map(|d| d.1).sum::<usize>() < summary.total_saved);
}

#[test]
fn day_series_of_a_short_history() {
    let series = sample().get_by_day();
    assert_eq!(
        series,
        vec![
            ("2024-01-15".to_string(), 880),
            ("2024-01-21".to_string(), 300),
            ("2024-01-22".to_string(), 0),
            ("2024-02-01".to_string(), 0),
        ]
    );
}

#[test]
fn leaderboard_ranks_by_tokens_saved() {
    let board = sample().get_by_command();
    assert_eq!(board.len(), 3);
    // rtk git log: rows of 80 % and 0 %, 800 tokens saved
    assert_eq!(board[0].0, "rtk git log");
    assert_eq!(board[0].1, 2);
    assert_eq!(board[0].2, 800);
    assert_eq!(board[0].3.micros(), 40_000_000);
    assert_eq!(board[0].4, 17);
    // rtk git status: rows of 80 % and 100 %, 380 tokens saved
    assert_eq!(board[1].0, "rtk git status");
    assert_eq!(board[1].1, 2);
    assert_eq!(board[1].2, 380);
    assert_eq!(board[1].3.micros(), 90_000_000);
    // (50 + 25) / 2, rounded down
    assert_eq!(board[1].4, 37);
    assert_eq!(board[2].0, "rtk ls");
    assert_eq!(board[2].1, 1);
    assert_eq!(board[2].2, 0);
    assert_eq!(board[2].3.micros(), 0);
    assert_eq!(board[2].4, 7);
}

#[test]
fn leaderboard_mean_is_not_the_overall_percentage() {
    let mut tracker = Tracker::new();
    tracker.record_at("a", "rtk a", 100, 50, 1, at(T0)).unwrap();
    tracker.record_at("a", "rtk a", 300, 0, 1, at(T0 + 1)).unwrap();
    let board = tracker.get_by_command();
    // mean of 50 % and 100 %
    assert_eq!(board[0].3.micros(), 75_000_000);
    // 350 of 400
    assert_eq!(tracker.get_summary().avg_savings_pct.micros(), 87_500_000);
}

#[test]
fn leaderboard_holds_the_top_ten() {
    assert_eq!(TOP_COMMANDS, 10);
    let mut tracker = Tracker::new();
    for i in 0..12usize {
        tracker.record_at("x", &format!("rtk {}", i), 100 + i, 100 - i, 1, at(T0 + i as i64)).unwrap();
    }
    let board = tracker.get_by_command();
    assert_eq!(board.len(), 10);
    assert_eq!(board[0].0, "rtk 11");
    assert_eq!(board[0].2, 22);
    assert_eq!(board[9].0, "rtk 2");
    assert_eq!(board[9].2, 4);
    for pair in board.windows(2) {
        assert!(pair[0].2 >= pair[1].2);
    }
    assert_eq!(tracker.get_summary().by_command, board);
}

#[test]
fn leaderboard_puts_the_earlier_command_first_among_equals() {
    let mut tracker = Tracker::new();
    tracker.record_at("x", "rtk zebra", 10, 0, 1, at(T0)).unwrap();
    tracker.record_at("x", "rtk apple", 10, 0, 1, at(T0 + 1)).unwrap();
    tracker.record_at("x", "rtk best", 11, 0, 1, at(T0 + 2)).unwrap();
    tracker.record_at("x", "rtk mango", 10, 0, 1, at(T0 + 3)).unwrap();
    let board = tracker.get_by_command();
    let labels: Vec<&str> = board.iter().map(|c| c.0.as_str()).collect();
    assert_eq!(labels, vec!["rtk best", "rtk zebra", "rtk apple", "rtk mango"]);
}

#[test]
fn leaderboard_groups_by_the_issued_command() {
    let mut tracker = Tracker::new();
    tracker.record_at("git status", "rtk git status", 10, 0, 1, at(T0)).unwrap();
    tracker.record_at("git status --short", "rtk git status", 20, 0, 3, at(T0 + 1)).unwrap();
    tracker.record_at("git status", "rtk git status ", 5, 0, 1, at(T0 + 2)).unwrap();
    let board = tracker.get_by_command();
    assert_eq!(board.len(), 2);
    assert_eq!(board[0].0, "rtk git status");
    assert_eq!(board[0].1, 2);
    assert_eq!(board[0].2, 30);
    assert_eq!(board[0].4, 2);
    assert_eq!(board[1].0, "rtk git status ");
}

#[test]
fn leaderboard_mean_is_rounded_down() {
    let mut tracker = Tracker::new();
    // 100 %, 0 % and 0 %: a mean of 33.333333... %
    tracker.record_at("a", "rtk a", 10, 0, 1, at(T0)).unwrap();
    tracker.record_at("a", "rtk a", 10, 10, 1, at(T0 + 1)).unwrap();
    tracker.record_at("a", "rtk a", 0, 0, 2, at(T0 + 2)).unwrap();
    let board = tracker.get_by_command();
    assert_eq!(board[0].1, 3);
    assert_eq!(board[0].3.micros(), 33_333_333);
    // 4 ms over 3 records
    assert_eq!(board[0].4, 1);
}
