//! The mathematics of the reports: what each figure is, over the sequence
//! of records that the store holds, oldest insertion first.

use crate::ranking::top;
use crate::record::ExecutionView;
use crate::savings::{mean_micros, share_micros, FULL_MICROS};
use crate::time::{day_of, expired, period_start, Period};
use vstd::prelude::*;

verus! {

/// The sums over a set of records that every report is made of.
pub struct Totals {
    /// How many records.
    pub commands: nat,
    /// The sum of their unwrapped costs.
    pub input_tokens: nat,
    /// The sum of their wrapped costs.
    pub output_tokens: nat,
    /// The sum of their saved tokens.
    pub saved_tokens: nat,
    /// The sum of their execution times.
    pub time_ms: nat,
    /// The sum of their own savings percentages, in millionths of a percent.
    pub pct_micros: nat,
}

impl Totals {
    /// The sums over no record.
    pub open spec fn zero() -> Totals {
        Totals {
            commands: 0,
            input_tokens: 0,
            output_tokens: 0,
            saved_tokens: 0,
            time_ms: 0,
            pct_micros: 0,
        }
    }

    /// These sums with `row` added.
    pub open spec fn plus(self, row: ExecutionView) -> Totals {
        Totals {
            commands: self.commands + 1,
            input_tokens: self.input_tokens + row.input_tokens,
            output_tokens: self.output_tokens + row.output_tokens,
            saved_tokens: self.saved_tokens + row.saved_tokens(),
            time_ms: self.time_ms + row.exec_time_ms,
            pct_micros: self.pct_micros + row.savings_micros(),
        }
    }

    /// These sums and those of `other` together.
    pub open spec fn sum(self, other: Totals) -> Totals {
        Totals {
            commands: self.commands + other.commands,
            input_tokens: self.input_tokens + other.input_tokens,
            output_tokens: self.output_tokens + other.output_tokens,
            saved_tokens: self.saved_tokens + other.saved_tokens,
            time_ms: self.time_ms + other.time_ms,
            pct_micros: self.pct_micros + other.pct_micros,
        }
    }

    /// Whether each sum is at most the matching sum of `other`.
    pub open spec fn within(self, other: Totals) -> bool {
        &&& self.commands <= other.commands
        &&& self.input_tokens <= other.input_tokens
        &&& self.output_tokens <= other.output_tokens
        &&& self.saved_tokens <= other.saved_tokens
        &&& self.time_ms <= other.time_ms
        &&& self.pct_micros <= other.pct_micros
    }

    /// Whether the token sums fit `usize` and the time sum fits `u64`, the
    /// integers that report them.
    pub open spec fn fits(self) -> bool {
        &&& self.input_tokens <= usize::MAX
        &&& self.output_tokens <= usize::MAX
        &&& self.time_ms <= u64::MAX
    }

    /// The saving over all these records as a share of their unwrapped
    /// cost: the sum of the savings over the sum of the costs, not a mean of
    /// the records' own percentages.
    pub open spec fn savings_micros(self) -> nat {
        share_micros(self.saved_tokens, self.input_tokens)
    }

    /// The mean of the records' own savings percentages.
    pub open spec fn mean_savings_micros(self) -> nat {
        mean_micros(self.pct_micros, self.commands)
    }

    /// The mean execution time, rounded down; zero over no record.
    pub open spec fn avg_time_ms(self) -> nat {
        if self.commands > 0 {
            self.time_ms / self.commands
        } else {
            0
        }
    }
}

/// The sums over the records `rows`.
pub open spec fn totals(rows: Seq<ExecutionView>) -> Totals
    decreases rows.len(),
{
    if rows.len() == 0 {
        Totals::zero()
    } else {
        totals(rows.drop_last()).plus(rows.last())
    }
}

/// The records that carry the command label `label`.
pub open spec fn labelled(label: Seq<char>) -> spec_fn(ExecutionView) -> bool {
    |row: ExecutionView| row.rtk_cmd == label
}

/// The first day of the period of kind `period` that `row` was recorded in.
pub open spec fn start_of(period: Period, row: ExecutionView) -> int {
    period_start(period, day_of(row.timestamp))
}

/// The records made in the period of kind `period` that starts on day `start`.
pub open spec fn in_period(period: Period, start: int) -> spec_fn(ExecutionView) -> bool {
    |row: ExecutionView| start_of(period, row) == start
}

/// The records still inside the retention window at the instant `now`.
pub open spec fn kept(now: int) -> spec_fn(ExecutionView) -> bool {
    |row: ExecutionView| !expired(row.timestamp, now)
}

/// The records that `pick` leaves out.
pub open spec fn excluded(pick: spec_fn(ExecutionView) -> bool) -> spec_fn(ExecutionView) -> bool {
    |row: ExecutionView| !pick(row)
}

/// Every record.
pub open spec fn any_row() -> spec_fn(ExecutionView) -> bool {
    |row: ExecutionView| true
}

/// How many commands the leaderboard holds at most.
pub const TOP_COMMANDS: usize = 10;

/// The command labels of `rows`, each once, in the order in which they
/// first occur.
pub open spec fn labels(rows: Seq<ExecutionView>) -> Seq<Seq<char>>
    decreases rows.len(),
{
    if rows.len() == 0 {
        Seq::empty()
    } else {
        let earlier = labels(rows.drop_last());
        if earlier.contains(rows.last().rtk_cmd) {
            earlier
        } else {
            earlier.push(rows.last().rtk_cmd)
        }
    }
}

/// The sums over the records that carry one command label.
pub struct CommandTotals {
    /// The label.
    pub label: Seq<char>,
    /// The sums over the records of that label.
    pub sums: Totals,
}

/// The sums over the records of `rows` that carry the label `label`.
pub open spec fn command_totals(rows: Seq<ExecutionView>, label: Seq<char>) -> CommandTotals {
    CommandTotals { label, sums: totals(rows.filter(labelled(label))) }
}

/// The sums of `rows` by command label, the labels in the order in which
/// they first occur.
pub open spec fn groups(rows: Seq<ExecutionView>) -> Seq<CommandTotals> {
    Seq::new(labels(rows).len(), |i: int| command_totals(rows, labels(rows)[i]))
}

/// Commands are ranked by the tokens they saved in total.
pub open spec fn by_saved() -> spec_fn(CommandTotals) -> int {
    |group: CommandTotals| group.sums.saved_tokens as int
}

/// The leaderboard of `rows`: the commands that saved the most tokens in
/// total, most first, at most `TOP_COMMANDS` of them. Of two commands that
/// saved the same, the one that was recorded first comes first.
pub open spec fn leaderboard(rows: Seq<ExecutionView>) -> Seq<CommandTotals> {
    top(groups(rows), by_saved(), TOP_COMMANDS as nat)
}

/// Records are ranked by the instant of recording.
pub open spec fn by_time() -> spec_fn(ExecutionView) -> int {
    |row: ExecutionView| row.timestamp
}

/// The recent-activity feed of `rows`: the records with the latest
/// timestamps, latest first, at most `limit` of them. Of two records with
/// the same timestamp, the one that was recorded later comes first.
pub open spec fn recent(rows: Seq<ExecutionView>, limit: nat) -> Seq<ExecutionView> {
    top(rows.reverse(), by_time(), limit)
}

/// Whether some record of `rows` was made in the period of kind `period`
/// that starts on day `start`.
pub open spec fn occurs(rows: Seq<ExecutionView>, period: Period, start: int) -> bool {
    exists|k: int| 0 <= k < rows.len() && #[trigger] start_of(period, rows[k]) == start
}

/// Whether the days `days` stand in strictly ascending order.
pub open spec fn ascending(days: Seq<int>) -> bool {
    forall|i: int, j: int| 0 <= i < j < days.len() ==> days[i] < days[j]
}

/// Whether `starts` lists, oldest first and each once, the first days of
/// the periods of kind `period` in which `rows` has a record.
pub open spec fn lists_starts(rows: Seq<ExecutionView>, period: Period, starts: Seq<int>) -> bool {
    &&& ascending(starts)
    &&& forall|j: int| 0 <= j < starts.len() ==> occurs(rows, period, #[trigger] starts[j])
    &&& forall|k: int|
        0 <= k < rows.len() ==> starts.contains(#[trigger] start_of(period, rows[k]))
}

/// The first days of the periods of kind `period` in which `rows` has a
/// record, oldest first and each once. There is one bucket of a rollup for
/// each of them, in this order. Every history has such a list
/// (`lemma_period_starts_exist`) and only one (`lemma_period_starts_unique`).
pub open spec fn period_starts(rows: Seq<ExecutionView>, period: Period) -> Seq<int> {
    choose|starts: Seq<int>| lists_starts(rows, period, starts)
}

/// The sums over the records of `rows` made in the period of kind `period`
/// that starts on day `start`.
pub open spec fn period_totals(rows: Seq<ExecutionView>, period: Period, start: int) -> Totals {
    totals(rows.filter(in_period(period, start)))
}

/// Two strictly ascending sequences with the same members are the same sequence.
pub proof fn lemma_ascending_unique(a: Seq<int>, b: Seq<int>)
    requires
        ascending(a),
        ascending(b),
        forall|i: int| 0 <= i < a.len() ==> b.contains(#[trigger] a[i]),
        forall|i: int| 0 <= i < b.len() ==> a.contains(#[trigger] b[i]),
    ensures
        a == b,
    decreases a.len(),
{
    if a.len() == 0 {
        if b.len() > 0 {
            assert(a.contains(b[0]));
        }
        assert(a =~= b);
    } else {
        let top = a.last();
        assert(b.contains(top));
        assert(b.len() > 0);
        assert(a.contains(b.last()));
        assert(b.last() == top);
        let a0 = a.drop_last();
        let b0 = b.drop_last();
        assert forall|i: int| 0 <= i < a0.len() implies b0.contains(#[trigger] a0[i]) by {
            assert(b.contains(a[i]));
            let j = choose|j: int| 0 <= j < b.len() && b[j] == a[i];
            assert(a[i] < top);
            assert(j < b.len() - 1);
            assert(b0[j] == a0[i]);
        }
        assert forall|i: int| 0 <= i < b0.len() implies a0.contains(#[trigger] b0[i]) by {
            assert(a.contains(b[i]));
            let j = choose|j: int| 0 <= j < a.len() && a[j] == b[i];
            assert(b[i] < top);
            assert(j < a.len() - 1);
            assert(a0[j] == b0[i]);
        }
        lemma_ascending_unique(a0, b0);
        assert(a =~= a0.push(top));
        assert(b =~= b0.push(top));
    }
}

/// A sequence that lists the period starts of `rows` is `period_starts`.
pub proof fn lemma_period_starts_unique(rows: Seq<ExecutionView>, period: Period, starts: Seq<int>)
    requires
        lists_starts(rows, period, starts),
    ensures
        starts == period_starts(rows, period),
        lists_starts(rows, period, period_starts(rows, period)),
{
    let chosen = period_starts(rows, period);
    assert(lists_starts(rows, period, chosen));
    assert forall|i: int| 0 <= i < starts.len() implies chosen.contains(#[trigger] starts[i]) by {
        assert(occurs(rows, period, starts[i]));
        let k = choose|k: int| 0 <= k < rows.len() && start_of(period, rows[k]) == starts[i];
        assert(chosen.contains(start_of(period, rows[k])));
    }
    assert forall|i: int| 0 <= i < chosen.len() implies starts.contains(#[trigger] chosen[i]) by {
        assert(occurs(rows, period, chosen[i]));
        let k = choose|k: int| 0 <= k < rows.len() && start_of(period, rows[k]) == chosen[i];
        assert(starts.contains(start_of(period, rows[k])));
    }
    lemma_ascending_unique(starts, chosen);
}

/// `days` with `day` put in its place in the order.
spec fn inserted(days: Seq<int>, day: int) -> Seq<int>
    decreases days.len(),
{
    if days.len() == 0 {
        seq![day]
    } else if days.last() < day {
        days.push(day)
    } else {
        inserted(days.drop_last(), day).push(days.last())
    }
}

/// Putting a new day in its place keeps the order, and adds that day and
/// no other.
proof fn lemma_inserted(days: Seq<int>, day: int)
    requires
        ascending(days),
        !days.contains(day),
    ensures
        ascending(inserted(days, day)),
        inserted(days, day).len() == days.len() + 1,
        inserted(days, day).contains(day),
        forall|i: int| 0 <= i < days.len() ==> inserted(days, day).contains(#[trigger] days[i]),
        forall|i: int|
            0 <= i < inserted(days, day).len() ==> (#[trigger] inserted(days, day)[i]) == day || days.contains(
                inserted(days, day)[i],
            ),
        days.len() > 0 ==> inserted(days, day).last() == if days.last() < day {
            day
        } else {
            days.last()
        },
    decreases days.len(),
{
    let out = inserted(days, day);
    if days.len() == 0 {
        assert(out[0] == day);
    } else if days.last() < day {
        assert(out[days.len() as int] == day);
        assert forall|i: int| 0 <= i < days.len() implies out.contains(#[trigger] days[i]) by {
            assert(out[i] == days[i]);
        }
        assert forall|i: int| 0 <= i < out.len() implies (#[trigger] out[i]) == day || days.contains(out[i]) by {
            if i < days.len() {
                assert(days[i] == out[i]);
            }
        }
    } else {
        let front = days.drop_last();
        assert(days.last() != day) by {
            if days.last() == day {
                assert(days[days.len() - 1] == day);
            }
        }
        assert(!front.contains(day)) by {
            if front.contains(day) {
                let i = choose|i: int| 0 <= i < front.len() && front[i] == day;
                assert(days[i] == day);
            }
        }
        lemma_inserted(front, day);
        let mid = inserted(front, day);
        assert(out == mid.push(days.last()));
        assert forall|i: int| 0 <= i < mid.len() implies (#[trigger] mid[i]) < days.last() by {
            if mid[i] != day {
                assert(front.contains(mid[i]));
                let j = choose|j: int| 0 <= j < front.len() && front[j] == mid[i];
                assert(days[j] < days[days.len() - 1]);
            }
        }
        assert(out.contains(day)) by {
            let i = choose|i: int| 0 <= i < mid.len() && mid[i] == day;
            assert(out[i] == day);
        }
        assert forall|i: int| 0 <= i < days.len() implies out.contains(#[trigger] days[i]) by {
            if i == days.len() - 1 {
                assert(out[out.len() - 1] == days[i]);
            } else {
                assert(mid.contains(front[i]));
                let j = choose|j: int| 0 <= j < mid.len() && mid[j] == front[i];
                assert(out[j] == days[i]);
            }
        }
        assert forall|i: int| 0 <= i < out.len() implies (#[trigger] out[i]) == day || days.contains(out[i]) by {
            if i == out.len() - 1 {
                assert(days[days.len() - 1] == out[i]);
            } else {
                assert(out[i] == mid[i]);
                if mid[i] != day {
                    assert(front.contains(mid[i]));
                    let j = choose|j: int| 0 <= j < front.len() && front[j] == mid[i];
                    assert(days[j] == out[i]);
                }
            }
        }
    }
}

/// Every history has its period starts: `period_starts` lists, oldest
/// first and each once, the first days of the periods in which there is a
/// record.
pub proof fn lemma_period_starts_exist(rows: Seq<ExecutionView>, period: Period)
    ensures
        lists_starts(rows, period, period_starts(rows, period)),
    decreases rows.len(),
{
    if rows.len() == 0 {
        assert(lists_starts(rows, period, Seq::<int>::empty()));
    } else {
        let front = rows.drop_last();
        lemma_period_starts_exist(front, period);
        let earlier = period_starts(front, period);
        let day = start_of(period, rows.last());
        assert forall|j: int| 0 <= j < earlier.len() implies occurs(rows, period, #[trigger] earlier[j]) by {
            assert(occurs(front, period, earlier[j]));
            let k = choose|k: int| 0 <= k < front.len() && start_of(period, front[k]) == earlier[j];
            assert(start_of(period, rows[k]) == earlier[j]);
        }
        assert(occurs(rows, period, day)) by {
            assert(start_of(period, rows[rows.len() - 1]) == day);
        }
        if earlier.contains(day) {
            assert forall|k: int| 0 <= k < rows.len() implies earlier.contains(
                #[trigger] start_of(period, rows[k]),
            ) by {
                if k < rows.len() - 1 {
                    assert(earlier.contains(start_of(period, front[k])));
                }
            }
            assert(lists_starts(rows, period, earlier));
        } else {
            lemma_inserted(earlier, day);
            let listed = inserted(earlier, day);
            assert forall|j: int| 0 <= j < listed.len() implies occurs(rows, period, #[trigger] listed[j]) by {
                if listed[j] != day {
                    assert(earlier.contains(listed[j]));
                    let i = choose|i: int| 0 <= i < earlier.len() && earlier[i] == listed[j];
                    assert(occurs(rows, period, earlier[i]));
                }
            }
            assert forall|k: int| 0 <= k < rows.len() implies listed.contains(
                #[trigger] start_of(period, rows[k]),
            ) by {
                if k < rows.len() - 1 {
                    assert(earlier.contains(start_of(period, front[k])));
                    let i = choose|i: int| 0 <= i < earlier.len() && earlier[i] == start_of(period, front[k]);
                    assert(listed.contains(earlier[i]));
                }
            }
            assert(lists_starts(rows, period, listed));
        }
    }
}

/// Adding a record to a sequence adds it to the sums.
pub proof fn lemma_totals_push(rows: Seq<ExecutionView>, row: ExecutionView)
    ensures
        totals(rows.push(row)) == totals(rows).plus(row),
{
    assert(rows.push(row).drop_last() =~= rows);
}

/// The sums count the records, save at most the unwrapped cost, and add
/// percentages of at most 100 % each.
pub proof fn lemma_totals_bounds(rows: Seq<ExecutionView>)
    ensures
        totals(rows).commands == rows.len(),
        totals(rows).saved_tokens <= totals(rows).input_tokens,
        totals(rows).pct_micros <= rows.len() * FULL_MICROS,
    decreases rows.len(),
{
    if rows.len() > 0 {
        lemma_totals_bounds(rows.drop_last());
        let row = rows.last();
        crate::savings::lemma_share_at_most_full(row.saved_tokens(), row.input_tokens);
    }
}

/// The sums over a selection of records are within the sums over all of them.
pub proof fn lemma_totals_of_selection(rows: Seq<ExecutionView>, pick: spec_fn(ExecutionView) -> bool)
    ensures
        totals(rows.filter(pick)).within(totals(rows)),
    decreases rows.len(),
{
    reveal(Seq::filter);
    if rows.len() > 0 {
        lemma_totals_of_selection(rows.drop_last(), pick);
        if pick(rows.last()) {
            lemma_totals_push(rows.drop_last().filter(pick), rows.last());
        }
    }
}

/// Selecting every record selects the whole sequence.
pub proof fn lemma_select_all(rows: Seq<ExecutionView>)
    ensures
        rows.filter(any_row()) == rows,
    decreases rows.len(),
{
    reveal(Seq::filter);
    if rows.len() > 0 {
        lemma_select_all(rows.drop_last());
        assert(rows.drop_last().push(rows.last()) =~= rows);
    }
}

} // verus!
