//! Rollups of the history by calendar day, week and month.

use crate::model::{in_period, lemma_period_starts_unique, lemma_totals_bounds, lists_starts, occurs, period_starts, period_totals, start_of, totals};
use crate::record::{views, Execution, ExecutionView};
use crate::reports::{figures_of, is_day_series, trailing, DayStats, Figures, MonthStats, WeekStats, SUMMARY_DAYS};
use crate::savings::Percent;
use crate::sums::{sum_selected, Sums};
use crate::time::{date_label, date_text, month_label, start_day_range, Period};
use crate::tracker::Tracker;
use vstd::prelude::*;

verus! {

/// The sums of one period of a rollup, under the period's first day.
pub(crate) struct PeriodSums {
    pub start: i64,
    pub sums: Sums,
}

/// Whether `buckets` is the rollup of `rows` by periods of kind `period`: one
/// entry for each period in which there is a record, oldest first, with the
/// sums over the records made in it.
pub(crate) open spec fn rolls_up(buckets: Seq<PeriodSums>, rows: Seq<ExecutionView>, period: Period) -> bool {
    &&& buckets.len() == period_starts(rows, period).len()
    &&& forall|j: int|
        0 <= j < buckets.len() ==> {
            &&& (#[trigger] buckets[j]).start == period_starts(rows, period)[j]
            &&& buckets[j].sums@ == period_totals(rows, period, buckets[j].start as int)
            &&& start_day_range(buckets[j].start as int)
        }
}

/// For each record of `rows`, the first day of the period of kind `period`
/// in which it was made.
fn starts_of_rows(rows: &Vec<Execution>, period: Period) -> (starts: Vec<i64>)
    ensures
        starts.len() == rows.len(),
        forall|k: int|
            0 <= k < rows.len() ==> #[trigger] starts[k] == start_of(period, rows[k]@) && start_day_range(
                starts[k] as int,
            ),
{
    let mut starts: Vec<i64> = Vec::new();
    let mut i: usize = 0;
    while i < rows.len()
        invariant
            i <= rows.len(),
            starts.len() == i,
            forall|k: int|
                0 <= k < i ==> #[trigger] starts[k] == start_of(period, rows[k]@) && start_day_range(
                    starts[k] as int,
                ),
        decreases rows.len() - i,
    {
        let start: i64 = period.start_day(rows[i].timestamp);
        starts.push(start);
        i = i + 1;
    }
    starts
}

/// The values of `values`, each once, in ascending order.
fn distinct_ascending(values: &Vec<i64>) -> (out: Vec<i64>)
    ensures
        forall|a: int, b: int| 0 <= a < b < out.len() ==> out[a] < out[b],
        forall|j: int| 0 <= j < out.len() ==> values@.contains(#[trigger] out[j]),
        forall|k: int| 0 <= k < values.len() ==> out@.contains(#[trigger] values[k]),
{
    let mut out: Vec<i64> = Vec::new();
    let mut i: usize = 0;
    while i < values.len()
        invariant
            i <= values.len(),
            forall|a: int, b: int| 0 <= a < b < out.len() ==> out[a] < out[b],
            forall|j: int| 0 <= j < out.len() ==> values@.contains(#[trigger] out[j]),
            forall|k: int| 0 <= k < i ==> out@.contains(#[trigger] values[k]),
        decreases values.len() - i,
    {
        let value: i64 = values[i];
        let mut at: usize = 0;
        while at < out.len() && out[at] < value
            invariant
                at <= out.len(),
                forall|a: int| 0 <= a < at ==> out[a] < value,
            decreases out.len() - at,
        {
            at = at + 1;
        }
        if at < out.len() && out[at] == value {
            assert(out@.contains(values[i as int]));
        } else {
            let ghost before = out@;
            out.insert(at, value);
            proof {
                assert(out@[at as int] == value);
                assert(out@.contains(values[i as int]));
                assert forall|k: int| 0 <= k < i implies out@.contains(#[trigger] values[k]) by {
                    assert(before.contains(values[k]));
                    let j = choose|j: int| 0 <= j < before.len() && before[j] == values[k];
                    if j < at {
                        assert(out@[j] == values[k]);
                    } else {
                        assert(out@[j + 1] == values[k]);
                    }
                }
                assert forall|j: int| 0 <= j < out.len() implies values@.contains(#[trigger] out[j]) by {
                    if j < at {
                        assert(out@[j] == before[j]);
                    } else if j == at {
                        assert(values@[i as int] == value);
                    } else {
                        assert(out@[j] == before[j - 1]);
                    }
                }
            }
        }
        i = i + 1;
    }
    out
}

/// A mask over `values` that marks the places that hold `wanted`.
fn mark_equal(values: &Vec<i64>, wanted: i64) -> (picked: Vec<bool>)
    ensures
        picked.len() == values.len(),
        forall|k: int| 0 <= k < values.len() ==> #[trigger] picked[k] == (values[k] == wanted),
{
    let mut picked: Vec<bool> = Vec::new();
    let mut i: usize = 0;
    while i < values.len()
        invariant
            i <= values.len(),
            picked.len() == i,
            forall|k: int| 0 <= k < i ==> #[trigger] picked[k] == (values[k] == wanted),
        decreases values.len() - i,
    {
        picked.push(values[i] == wanted);
        i = i + 1;
    }
    picked
}

/// The rollup of `rows` by periods of kind `period`: one entry for each
/// period in which there is a record, oldest first, with the sums over the
/// records made in it.
pub(crate) fn rollup(rows: &Vec<Execution>, period: Period) -> (out: Vec<PeriodSums>)
    requires
        totals(views(rows@)).fits(),
    ensures
        rolls_up(out@, views(rows@), period),
{
    let ghost all = views(rows@);
    let row_starts = starts_of_rows(rows, period);
    let keys = distinct_ascending(&row_starts);
    proof {
        let listed = Seq::new(keys.len() as nat, |j: int| keys[j] as int);
        assert forall|j: int| 0 <= j < listed.len() implies occurs(all, period, #[trigger] listed[j]) by {
            assert(row_starts@.contains(keys[j]));
            let k = choose|k: int| 0 <= k < row_starts.len() && row_starts[k] == keys[j];
            assert(start_of(period, all[k]) == listed[j]);
        }
        assert forall|k: int| 0 <= k < all.len() implies listed.contains(
            #[trigger] start_of(period, all[k]),
        ) by {
            assert(keys@.contains(row_starts[k]));
            let j = choose|j: int| 0 <= j < keys.len() && keys[j] == row_starts[k];
            assert(listed[j] == start_of(period, all[k]));
        }
        assert(lists_starts(all, period, listed));
        lemma_period_starts_unique(all, period, listed);
    }
    let mut out: Vec<PeriodSums> = Vec::new();
    let mut j: usize = 0;
    while j < keys.len()
        invariant
            j <= keys.len(),
            out.len() == j,
            all == views(rows@),
            totals(all).fits(),
            row_starts.len() == rows.len(),
            forall|k: int|
                0 <= k < rows.len() ==> #[trigger] row_starts[k] == start_of(period, rows[k]@)
                    && start_day_range(row_starts[k] as int),
            forall|a: int| 0 <= a < keys.len() ==> row_starts@.contains(#[trigger] keys[a]),
            period_starts(all, period) == Seq::new(keys.len() as nat, |a: int| keys[a] as int),
            forall|a: int|
                0 <= a < j ==> {
                    &&& (#[trigger] out[a]).start == keys[a]
                    &&& out[a].sums@ == period_totals(all, period, out[a].start as int)
                    &&& start_day_range(out[a].start as int)
                },
        decreases keys.len() - j,
    {
        let start: i64 = keys[j];
        let picked = mark_equal(&row_starts, start);
        let ghost pick = in_period(period, start as int);
        proof {
            assert(row_starts@.contains(keys[j as int]));
        }
        let sums = sum_selected(rows, &picked, Ghost(pick));
        out.push(PeriodSums { start, sums });
        j = j + 1;
    }
    out
}

/// The figures of records with the sums `sums`.
pub(crate) struct Reported {
    pub commands: usize,
    pub input_tokens: usize,
    pub output_tokens: usize,
    pub saved_tokens: usize,
    pub savings_pct: Percent,
    pub total_time_ms: u64,
    pub avg_time_ms: u64,
}

impl Reported {
    pub(crate) open spec fn figures(&self) -> Figures {
        Figures {
            commands: self.commands as nat,
            input_tokens: self.input_tokens as nat,
            output_tokens: self.output_tokens as nat,
            saved_tokens: self.saved_tokens as nat,
            savings_micros: self.savings_pct@,
            total_time_ms: self.total_time_ms as nat,
            avg_time_ms: self.avg_time_ms as nat,
        }
    }
}

/// Derives the reported figures from sums: the savings percentage from the
/// summed saving and cost, the mean time from the summed time and the count.
pub(crate) fn reported(sums: &Sums) -> (shown: Reported)
    requires
        sums.saved_tokens <= sums.input_tokens,
    ensures
        shown.figures() == figures_of(sums@),
{
    let avg_time_ms: u64 = if sums.commands > 0 {
        sums.time_ms / (sums.commands as u64)
    } else {
        0
    };
    Reported {
        commands: sums.commands,
        input_tokens: sums.input_tokens,
        output_tokens: sums.output_tokens,
        saved_tokens: sums.saved_tokens,
        savings_pct: Percent::of(sums.saved_tokens, sums.input_tokens),
        total_time_ms: sums.time_ms,
        avg_time_ms,
    }
}

impl Tracker {
    /// The figures of every calendar day on which there is a record, oldest
    /// day first.
    pub fn get_all_days(&self) -> (days: Vec<DayStats>)
        ensures
            days.len() == period_starts(self@, Period::Day).len(),
            forall|j: int|
                0 <= j < days.len() ==> (#[trigger] days[j]).reports(
                    self@,
                    period_starts(self@, Period::Day)[j],
                ),
    {
        let rows = self.rows();
        let buckets = rollup(rows, Period::Day);
        let mut days: Vec<DayStats> = Vec::new();
        let mut j: usize = 0;
        while j < buckets.len()
            invariant
                j <= buckets.len(),
                days.len() == j,
                rolls_up(buckets@, self@, Period::Day),
                forall|a: int|
                    0 <= a < j ==> (#[trigger] days[a]).reports(
                        self@,
                        period_starts(self@, Period::Day)[a],
                    ),
            decreases buckets.len() - j,
        {
            let bucket = &buckets[j];
            proof {
                lemma_totals_bounds(self@.filter(in_period(Period::Day, bucket.start as int)));
            }
            let shown = reported(&bucket.sums);
            days.push(
                DayStats {
                    date: date_label(bucket.start),
                    commands: shown.commands,
                    input_tokens: shown.input_tokens,
                    output_tokens: shown.output_tokens,
                    saved_tokens: shown.saved_tokens,
                    savings_pct: shown.savings_pct,
                    total_time_ms: shown.total_time_ms,
                    avg_time_ms: shown.avg_time_ms,
                },
            );
            j = j + 1;
        }
        days
    }

    /// The figures of every week in which there is a record, oldest week
    /// first. A week runs from a Monday to the Sunday after it.
    pub fn get_by_week(&self) -> (weeks: Vec<WeekStats>)
        ensures
            weeks.len() == period_starts(self@, Period::Week).len(),
            forall|j: int|
                0 <= j < weeks.len() ==> (#[trigger] weeks[j]).reports(
                    self@,
                    period_starts(self@, Period::Week)[j],
                ),
    {
        let rows = self.rows();
        let buckets = rollup(rows, Period::Week);
        let mut weeks: Vec<WeekStats> = Vec::new();
        let mut j: usize = 0;
        while j < buckets.len()
            invariant
                j <= buckets.len(),
                weeks.len() == j,
                rolls_up(buckets@, self@, Period::Week),
                forall|a: int|
                    0 <= a < j ==> (#[trigger] weeks[a]).reports(
                        self@,
                        period_starts(self@, Period::Week)[a],
                    ),
            decreases buckets.len() - j,
        {
            let bucket = &buckets[j];
            proof {
                lemma_totals_bounds(self@.filter(in_period(Period::Week, bucket.start as int)));
            }
            let shown = reported(&bucket.sums);
            weeks.push(
                WeekStats {
                    week_start: date_label(bucket.start),
                    week_end: date_label(bucket.start + 6),
                    commands: shown.commands,
                    input_tokens: shown.input_tokens,
                    output_tokens: shown.output_tokens,
                    saved_tokens: shown.saved_tokens,
                    savings_pct: shown.savings_pct,
                    total_time_ms: shown.total_time_ms,
                    avg_time_ms: shown.avg_time_ms,
                },
            );
            j = j + 1;
        }
        weeks
    }

    /// The figures of every calendar month in which there is a record,
    /// oldest month first.
    pub fn get_by_month(&self) -> (months: Vec<MonthStats>)
        ensures
            months.len() == period_starts(self@, Period::Month).len(),
            forall|j: int|
                0 <= j < months.len() ==> (#[trigger] months[j]).reports(
                    self@,
                    period_starts(self@, Period::Month)[j],
                ),
    {
        let rows = self.rows();
        let buckets = rollup(rows, Period::Month);
        let mut months: Vec<MonthStats> = Vec::new();
        let mut j: usize = 0;
        while j < buckets.len()
            invariant
                j <= buckets.len(),
                months.len() == j,
                rolls_up(buckets@, self@, Period::Month),
                forall|a: int|
                    0 <= a < j ==> (#[trigger] months[a]).reports(
                        self@,
                        period_starts(self@, Period::Month)[a],
                    ),
            decreases buckets.len() - j,
        {
            let bucket = &buckets[j];
            proof {
                lemma_totals_bounds(self@.filter(in_period(Period::Month, bucket.start as int)));
            }
            let shown = reported(&bucket.sums);
            months.push(
                MonthStats {
                    month: month_label(bucket.start),
                    commands: shown.commands,
                    input_tokens: shown.input_tokens,
                    output_tokens: shown.output_tokens,
                    saved_tokens: shown.saved_tokens,
                    savings_pct: shown.savings_pct,
                    total_time_ms: shown.total_time_ms,
                    avg_time_ms: shown.avg_time_ms,
                },
            );
            j = j + 1;
        }
        months
    }

    /// The tokens saved on each of the most recent days on which there is a
    /// record, at most `SUMMARY_DAYS` of them, oldest day first: the day as
    /// `YYYY-MM-DD`, then the tokens saved on it.
    pub fn get_by_day(&self) -> (days: Vec<(String, usize)>)
        ensures
            is_day_series(days@, self@),
    {
        let rows = self.rows();
        let buckets = rollup(rows, Period::Day);
        let skipped: usize = if buckets.len() > SUMMARY_DAYS {
            buckets.len() - SUMMARY_DAYS
        } else {
            0
        };
        let ghost recent = trailing(period_starts(self@, Period::Day), SUMMARY_DAYS as nat);
        let mut days: Vec<(String, usize)> = Vec::new();
        let mut j: usize = skipped;
        while j < buckets.len()
            invariant
                skipped <= j <= buckets.len(),
                days.len() == j - skipped,
                rolls_up(buckets@, self@, Period::Day),
                recent == trailing(period_starts(self@, Period::Day), SUMMARY_DAYS as nat),
                recent.len() == buckets.len() - skipped,
                forall|a: int| 0 <= a < recent.len() ==> recent[a] == period_starts(self@, Period::Day)[a + skipped],
                forall|a: int|
                    0 <= a < days.len() ==> {
                        &&& (#[trigger] days[a]).0@ == date_text(recent[a])
                        &&& days[a].1 == period_totals(self@, Period::Day, recent[a]).saved_tokens
                    },
            decreases buckets.len() - j,
        {
            let bucket = &buckets[j];
            days.push((date_label(bucket.start), bucket.sums.saved_tokens));
            j = j + 1;
        }
        days
    }
}

} // verus!
