//! The shapes in which the store reports on its history.

use crate::model::{leaderboard, period_starts, period_totals, totals, CommandTotals, Totals};
use crate::record::ExecutionView;
use crate::savings::Percent;
use crate::time::{date_text, month_text, Period, Timestamp};
use vstd::prelude::*;

verus! {

/// The figures that a report gives over a set of records.
pub struct Figures {
    /// How many records.
    pub commands: nat,
    /// The sum of their unwrapped costs.
    pub input_tokens: nat,
    /// The sum of their wrapped costs.
    pub output_tokens: nat,
    /// The sum of their saved tokens.
    pub saved_tokens: nat,
    /// The summed saving as a share of the summed unwrapped cost, in
    /// millionths of a percent; zero where that cost is zero.
    pub savings_micros: nat,
    /// The sum of their execution times.
    pub total_time_ms: nat,
    /// Their mean execution time, rounded down; zero over no record.
    pub avg_time_ms: nat,
}

/// The figures that are reported of records with the sums `sums`.
pub open spec fn figures_of(sums: Totals) -> Figures {
    Figures {
        commands: sums.commands,
        input_tokens: sums.input_tokens,
        output_tokens: sums.output_tokens,
        saved_tokens: sums.saved_tokens,
        savings_micros: sums.savings_micros(),
        total_time_ms: sums.time_ms,
        avg_time_ms: sums.avg_time_ms(),
    }
}

/// The figures of one calendar day.
#[derive(Debug)]
pub struct DayStats {
    /// The day, as `YYYY-MM-DD`.
    pub date: String,
    pub commands: usize,
    pub input_tokens: usize,
    pub output_tokens: usize,
    pub saved_tokens: usize,
    pub savings_pct: Percent,
    pub total_time_ms: u64,
    pub avg_time_ms: u64,
}

impl DayStats {
    /// The figures that this report gives.
    pub open spec fn figures(&self) -> Figures {
        Figures {
            commands: self.commands as nat,
            input_tokens: self.input_tokens as nat,
            output_tokens: self.output_tokens as nat,
            saved_tokens: self.saved_tokens as nat,
            savings_micros: self.savings_pct@,
            total_time_ms: self.total_time_ms as nat,
            avg_time_ms: self.avg_time_ms as nat,
        }
    }

    /// Whether this is the report on the day `day` of the history `rows`:
    /// it names that day and gives the figures of the records made on it.
    pub open spec fn reports(&self, rows: Seq<ExecutionView>, day: int) -> bool {
        &&& self.date@ == date_text(day)
        &&& self.figures() == figures_of(period_totals(rows, Period::Day, day))
    }
}

/// The figures of one week, Monday to Sunday.
#[derive(Debug)]
pub struct WeekStats {
    /// The week's Monday, as `YYYY-MM-DD`.
    pub week_start: String,
    /// The week's Sunday, as `YYYY-MM-DD`.
    pub week_end: String,
    pub commands: usize,
    pub input_tokens: usize,
    pub output_tokens: usize,
    pub saved_tokens: usize,
    pub savings_pct: Percent,
    pub total_time_ms: u64,
    pub avg_time_ms: u64,
}

impl WeekStats {
    /// The figures that this report gives.
    pub open spec fn figures(&self) -> Figures {
        Figures {
            commands: self.commands as nat,
            input_tokens: self.input_tokens as nat,
            output_tokens: self.output_tokens as nat,
            saved_tokens: self.saved_tokens as nat,
            savings_micros: self.savings_pct@,
            total_time_ms: self.total_time_ms as nat,
            avg_time_ms: self.avg_time_ms as nat,
        }
    }

    /// Whether this is the report on the week of the history `rows` that
    /// starts on the Monday `monday`: it names that Monday and the Sunday
    /// six days later, and gives the figures of the records made between.
    pub open spec fn reports(&self, rows: Seq<ExecutionView>, monday: int) -> bool {
        &&& self.week_start@ == date_text(monday)
        &&& self.week_end@ == date_text(monday + 6)
        &&& self.figures() == figures_of(period_totals(rows, Period::Week, monday))
    }
}

/// The figures of one calendar month.
#[derive(Debug)]
pub struct MonthStats {
    /// The month, as `YYYY-MM`.
    pub month: String,
    pub commands: usize,
    pub input_tokens: usize,
    pub output_tokens: usize,
    pub saved_tokens: usize,
    pub savings_pct: Percent,
    pub total_time_ms: u64,
    pub avg_time_ms: u64,
}

impl MonthStats {
    /// The figures that this report gives.
    pub open spec fn figures(&self) -> Figures {
        Figures {
            commands: self.commands as nat,
            input_tokens: self.input_tokens as nat,
            output_tokens: self.output_tokens as nat,
            saved_tokens: self.saved_tokens as nat,
            savings_micros: self.savings_pct@,
            total_time_ms: self.total_time_ms as nat,
            avg_time_ms: self.avg_time_ms as nat,
        }
    }

    /// Whether this is the report on the month of the history `rows` whose
    /// first day is `first`: it names that month and gives the figures of
    /// the records made in it.
    pub open spec fn reports(&self, rows: Seq<ExecutionView>, first: int) -> bool {
        &&& self.month@ == month_text(first)
        &&& self.figures() == figures_of(period_totals(rows, Period::Month, first))
    }
}

/// How many days the day series of the summary reaches back.
pub const SUMMARY_DAYS: usize = 30;

/// The last `limit` entries of `starts`, or all of them where there are fewer.
pub open spec fn trailing(starts: Seq<int>, limit: nat) -> Seq<int> {
    if starts.len() > limit {
        starts.skip(starts.len() - limit)
    } else {
        starts
    }
}

/// Whether `days` is the day series of the history `rows`: for each of the
/// most recent days on which there is a record, at most `SUMMARY_DAYS` of
/// them and the oldest first, the day as `YYYY-MM-DD` and the tokens saved
/// on it.
pub open spec fn is_day_series(days: Seq<(String, usize)>, rows: Seq<ExecutionView>) -> bool {
    let recent_days = trailing(period_starts(rows, Period::Day), SUMMARY_DAYS as nat);
    &&& days.len() == recent_days.len()
    &&& forall|j: int|
        0 <= j < days.len() ==> {
            &&& (#[trigger] days[j]).0@ == date_text(recent_days[j])
            &&& days[j].1 == period_totals(rows, Period::Day, recent_days[j]).saved_tokens
        }
}

/// Whether `entry` is the leaderboard entry of the command with the sums
/// `group`: its label, how often it ran, the tokens it saved in total, the
/// mean of its records' savings percentages, and its mean execution time.
pub open spec fn ranks(entry: (String, usize, usize, Percent, u64), group: CommandTotals) -> bool {
    &&& entry.0@ == group.label
    &&& entry.1 == group.sums.commands
    &&& entry.2 == group.sums.saved_tokens
    &&& entry.3@ == group.sums.mean_savings_micros()
    &&& entry.4 == group.sums.avg_time_ms()
}

/// Whether `board` is the leaderboard of the history `rows`.
pub open spec fn is_leaderboard(
    board: Seq<(String, usize, usize, Percent, u64)>,
    rows: Seq<ExecutionView>,
) -> bool {
    &&& board.len() == leaderboard(rows).len()
    &&& forall|k: int| 0 <= k < board.len() ==> ranks(#[trigger] board[k], leaderboard(rows)[k])
}

/// The summary of the whole history.
#[derive(Debug)]
pub struct GainSummary {
    pub total_commands: usize,
    pub total_input: usize,
    pub total_output: usize,
    pub total_saved: usize,
    /// The tokens saved in total as a percentage of the total unwrapped
    /// cost: not a mean of the records' own percentages.
    pub avg_savings_pct: Percent,
    pub total_time_ms: u64,
    pub avg_time_ms: u64,
    /// The leaderboard: per command its label, how often it ran, the tokens
    /// it saved, the mean of its records' savings percentages, and its mean
    /// execution time.
    pub by_command: Vec<(String, usize, usize, Percent, u64)>,
    /// The day series: per day its date and the tokens saved on it.
    pub by_day: Vec<(String, usize)>,
}

impl GainSummary {
    /// The figures that this summary gives over the whole history.
    pub open spec fn figures(&self) -> Figures {
        Figures {
            commands: self.total_commands as nat,
            input_tokens: self.total_input as nat,
            output_tokens: self.total_output as nat,
            saved_tokens: self.total_saved as nat,
            savings_micros: self.avg_savings_pct@,
            total_time_ms: self.total_time_ms as nat,
            avg_time_ms: self.avg_time_ms as nat,
        }
    }

    /// Whether this is the summary of the history `rows`: the figures over
    /// all its records, its leaderboard and its day series.
    pub open spec fn summarizes(&self, rows: Seq<ExecutionView>) -> bool {
        &&& self.figures() == figures_of(totals(rows))
        &&& is_leaderboard(self.by_command@, rows)
        &&& is_day_series(self.by_day@, rows)
    }
}

/// One entry of the recent-activity feed.
#[derive(Debug)]
pub struct CommandRecord {
    /// The instant of recording.
    pub timestamp: Timestamp,
    /// The command that was issued.
    pub rtk_cmd: String,
    /// The tokens it saved.
    pub saved_tokens: usize,
    /// The saving as a percentage of the unwrapped cost.
    pub savings_pct: Percent,
}

impl CommandRecord {
    /// Whether this entry shows the record `row`: its instant, its command
    /// label, the tokens it saved and its savings percentage.
    pub open spec fn shows(&self, row: ExecutionView) -> bool {
        &&& self.timestamp@ == row.timestamp
        &&& self.rtk_cmd@ == row.rtk_cmd
        &&& self.saved_tokens == row.saved_tokens()
        &&& self.savings_pct@ == row.savings_micros()
    }
}

} // verus!
