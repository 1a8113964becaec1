//! The summary of the whole history.

use crate::model::lemma_totals_bounds;
use crate::record::views;
use crate::reports::GainSummary;
use crate::rollup::reported;
use crate::sums::sum_all;
use crate::tracker::Tracker;
use vstd::prelude::*;

verus! {

impl Tracker {
    /// The summary of the whole history: how many records there are, the
    /// sums of their unwrapped costs, wrapped costs, saved tokens and
    /// execution times, the overall savings percentage and the mean
    /// execution time, together with the leaderboard and the day series.
    ///
    /// The overall savings percentage is the tokens saved in total over
    /// the total unwrapped cost, and 0 % where that cost is zero. The mean
    /// execution time is rounded down, and zero where there is no record.
    pub fn get_summary(&self) -> (summary: GainSummary)
        ensures
            summary.summarizes(self@),
    {
        let rows = self.rows();
        proof {
            lemma_totals_bounds(views(rows@));
        }
        let sums = sum_all(rows);
        let shown = reported(&sums);
        let by_command = self.get_by_command();
        let by_day = self.get_by_day();
        GainSummary {
            total_commands: shown.commands,
            total_input: shown.input_tokens,
            total_output: shown.output_tokens,
            total_saved: shown.saved_tokens,
            avg_savings_pct: shown.savings_pct,
            total_time_ms: shown.total_time_ms,
            avg_time_ms: shown.avg_time_ms,
            by_command,
            by_day,
        }
    }
}

} // verus!
