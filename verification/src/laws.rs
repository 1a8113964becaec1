//! What holds of the store's reports whatever the history: retention,
//! the order of the feed and of the leaderboard, and that the buckets of a
//! rollup add up to the sums over the whole history.

use crate::model::{by_saved, by_time, excluded, groups, in_period, labels, leaderboard, CommandTotals, lemma_totals_push, lemma_period_starts_exist, lists_starts, occurs, period_starts, period_totals, recent, start_of, totals, Totals, kept, TOP_COMMANDS};
use crate::ranking::{lemma_top_descends, lemma_top_from_items, lemma_top_leads, lemma_top_len, lemma_top_strictly_descends, passed_over};
use crate::record::ExecutionView;
use crate::time::{expired, week_end, week_start, Period};
use crate::tracker::{after_record, observed};
use vstd::prelude::*;

verus! {

/// A week starts on a Monday and ends on the Sunday six days later, and it
/// holds the day it is the week of: its end is the nearest Sunday on or
/// after that day. Day 0, the first of January 1970, was a Thursday, so
/// the Sundays are the days `d` with `(d + 4) % 7 == 0`.
pub proof fn lemma_week_holds_day(day: int)
    ensures
        week_start(day) <= day <= week_end(day),
        week_end(day) == week_start(day) + 6,
        (week_end(day) + 4) % 7 == 0,
        (week_start(day) + 3) % 7 == 0,
{
}

/// A command whose output was not captured is recorded with no token on
/// either side. Whatever time it took, it saved nothing and its savings
/// percentage is zero; and it adds to the count and to the time of a
/// history and to no token sum, so that it leaves the overall savings
/// percentage as it was.
pub proof fn lemma_passthrough_adds_no_tokens(
    rows: Seq<ExecutionView>,
    now: int,
    original_cmd: Seq<char>,
    rtk_cmd: Seq<char>,
    elapsed_ms: nat,
)
    ensures
        observed(now, original_cmd, rtk_cmd, 0, 0, elapsed_ms).saved_tokens() == 0,
        observed(now, original_cmd, rtk_cmd, 0, 0, elapsed_ms).savings_micros() == 0,
        totals(rows.push(observed(now, original_cmd, rtk_cmd, 0, 0, elapsed_ms))) == (Totals {
            commands: totals(rows).commands + 1,
            time_ms: totals(rows).time_ms + elapsed_ms,
            ..totals(rows)
        }),
        totals(rows.push(observed(now, original_cmd, rtk_cmd, 0, 0, elapsed_ms))).savings_micros() == totals(
            rows,
        ).savings_micros(),
{
    lemma_totals_push(rows, observed(now, original_cmd, rtk_cmd, 0, 0, elapsed_ms));
}

/// After a record is made at the instant `now`, no record that has left the
/// retention window by then remains in the history.
pub proof fn lemma_retention(before: Seq<ExecutionView>, row: ExecutionView, now: int)
    ensures
        forall|i: int|
            0 <= i < after_record(before, row, now).len() ==> !expired(
                (#[trigger] after_record(before, row, now)[i]).timestamp,
                now,
            ),
{
    let after = after_record(before, row, now);
    assert forall|i: int| 0 <= i < after.len() implies !expired((#[trigger] after[i]).timestamp, now) by {
        before.push(row).lemma_filter_pred(kept(now), i);
    }
}

/// After a record is made at the instant `now`, the record itself is the
/// last of the history, where it was made at `now`.
pub proof fn lemma_record_is_kept(before: Seq<ExecutionView>, row: ExecutionView, now: int)
    requires
        row.timestamp == now,
    ensures
        after_record(before, row, now) == before.filter(kept(now)).push(row),
{
    before.lemma_filter_push(row, kept(now));
}

/// Whether the period of kind `period` that starts on day `start` holds a
/// record of `rows` that is inside the retention window at the instant `now`.
pub open spec fn holds_kept_record(rows: Seq<ExecutionView>, period: Period, start: int, now: int) -> bool {
    exists|k: int|
        0 <= k < rows.len() && !expired(rows[k].timestamp, now) && #[trigger] start_of(period, rows[k]) == start
}

/// After a record is made at the instant `now`, no read reports a record
/// that has left the retention window by then: not the feed, whose entries
/// are records of the history, and not a rollup, each bucket of which holds
/// a record of the history.
pub proof fn lemma_expired_is_not_reported(
    before: Seq<ExecutionView>,
    row: ExecutionView,
    now: int,
    limit: nat,
    period: Period,
)
    ensures
        forall|k: int|
            0 <= k < recent(after_record(before, row, now), limit).len() ==> !expired(
                (#[trigger] recent(after_record(before, row, now), limit)[k]).timestamp,
                now,
            ),
        forall|j: int|
            0 <= j < period_starts(after_record(before, row, now), period).len() ==> holds_kept_record(
                after_record(before, row, now),
                period,
                #[trigger] period_starts(after_record(before, row, now), period)[j],
                now,
            ),
{
    let after = after_record(before, row, now);
    lemma_retention(before, row, now);
    let feed = recent(after, limit);
    lemma_top_from_items(after.reverse(), by_time(), limit);
    assert forall|k: int| 0 <= k < feed.len() implies !expired((#[trigger] feed[k]).timestamp, now) by {
        assert(after.reverse().contains(feed[k]));
        let i = choose|i: int| 0 <= i < after.reverse().len() && after.reverse()[i] == feed[k];
        assert(after.reverse()[i] == after[after.len() - 1 - i]);
    }
    lemma_period_starts_exist(after, period);
    let starts = period_starts(after, period);
    assert forall|j: int| 0 <= j < starts.len() implies holds_kept_record(
        after,
        period,
        #[trigger] starts[j],
        now,
    ) by {
        assert(occurs(after, period, starts[j]));
        let k = choose|k: int| 0 <= k < after.len() && start_of(period, after[k]) == starts[j];
        assert(!expired(after[k].timestamp, now));
    }
}

/// The feed holds at most `limit` records, none that the history does not
/// hold, in the order of their timestamps, latest first.
pub proof fn lemma_recent_is_newest_first(rows: Seq<ExecutionView>, limit: nat)
    ensures
        recent(rows, limit).len() <= limit,
        recent(rows, limit).len() <= rows.len(),
        forall|k: int| 0 <= k < recent(rows, limit).len() ==> rows.contains(#[trigger] recent(rows, limit)[k]),
        forall|a: int, b: int|
            0 <= a < b < recent(rows, limit).len() ==> (#[trigger] recent(rows, limit)[a]).timestamp >= (
            #[trigger] recent(rows, limit)[b]).timestamp,
{
    let feed = recent(rows, limit);
    lemma_top_len(rows.reverse(), by_time(), limit);
    lemma_top_descends(rows.reverse(), by_time(), limit);
    lemma_top_from_items(rows.reverse(), by_time(), limit);
    assert forall|k: int| 0 <= k < feed.len() implies rows.contains(#[trigger] feed[k]) by {
        assert(rows.reverse().contains(feed[k]));
        let i = choose|i: int| 0 <= i < rows.reverse().len() && rows.reverse()[i] == feed[k];
        assert(rows.reverse()[i] == rows[rows.len() - 1 - i]);
    }
    assert forall|a: int, b: int| 0 <= a < b < feed.len() implies (#[trigger] feed[a]).timestamp >= (
    #[trigger] feed[b]).timestamp by {
        assert(by_time()(feed[a]) >= by_time()(feed[b]));
    }
}

/// Where no two records of the history have the same timestamp, the feed
/// is in strict order: each entry is later than the next.
pub proof fn lemma_recent_is_strictly_newest_first(rows: Seq<ExecutionView>, limit: nat)
    requires
        forall|i: int, j: int|
            0 <= i < j < rows.len() ==> (#[trigger] rows[i]).timestamp != (#[trigger] rows[j]).timestamp,
    ensures
        forall|a: int, b: int|
            0 <= a < b < recent(rows, limit).len() ==> (#[trigger] recent(rows, limit)[a]).timestamp > (
            #[trigger] recent(rows, limit)[b]).timestamp,
{
    let feed = recent(rows, limit);
    let turned = rows.reverse();
    assert forall|i: int, j: int| 0 <= i < j < turned.len() implies by_time()(#[trigger] turned[i])
        != by_time()(#[trigger] turned[j]) by {
        assert(turned[i] == rows[rows.len() - 1 - i]);
        assert(turned[j] == rows[rows.len() - 1 - j]);
    }
    lemma_top_strictly_descends(turned, by_time(), limit);
    assert forall|a: int, b: int| 0 <= a < b < feed.len() implies (#[trigger] feed[a]).timestamp > (
    #[trigger] feed[b]).timestamp by {
        assert(by_time()(feed[a]) > by_time()(feed[b]));
    }
}

/// The records of `rows` that a feed of at most `limit` entries leaves out.
pub open spec fn left_out_of_feed(rows: Seq<ExecutionView>, limit: nat) -> Seq<ExecutionView> {
    passed_over(rows.reverse(), by_time(), limit)
}

/// The feed holds the latest records: the entries of the feed and the
/// records it leaves out are together the records of the history, each as
/// often as it occurs, and no record left out is later than an entry.
pub proof fn lemma_recent_is_latest(rows: Seq<ExecutionView>, limit: nat)
    ensures
        rows.to_multiset() == recent(rows, limit).to_multiset().add(left_out_of_feed(rows, limit).to_multiset()),
        forall|a: int, b: int|
            0 <= a < recent(rows, limit).len() && 0 <= b < left_out_of_feed(rows, limit).len() ==> (
            #[trigger] recent(rows, limit)[a]).timestamp >= (#[trigger] left_out_of_feed(
                rows,
                limit,
            )[b]).timestamp,
{
    let feed = recent(rows, limit);
    let rest = left_out_of_feed(rows, limit);
    lemma_top_leads(rows.reverse(), by_time(), limit);
    rows.lemma_reverse_to_multiset();
    assert forall|a: int, b: int| 0 <= a < feed.len() && 0 <= b < rest.len() implies (#[trigger] feed[a]).timestamp
        >= (#[trigger] rest[b]).timestamp by {
        assert(by_time()(feed[a]) >= by_time()(rest[b]));
    }
}

/// The commands of `rows` that the leaderboard leaves out.
pub open spec fn left_out_of_leaderboard(rows: Seq<ExecutionView>) -> Seq<CommandTotals> {
    passed_over(groups(rows), by_saved(), TOP_COMMANDS as nat)
}

/// The leaderboard holds the commands that saved the most: its entries and
/// the commands it leaves out are together the commands of the history,
/// and no command left out saved more in total than an entry.
pub proof fn lemma_leaderboard_leads(rows: Seq<ExecutionView>)
    ensures
        groups(rows).to_multiset() == leaderboard(rows).to_multiset().add(
            left_out_of_leaderboard(rows).to_multiset(),
        ),
        forall|a: int, b: int|
            0 <= a < leaderboard(rows).len() && 0 <= b < left_out_of_leaderboard(rows).len() ==> (
            #[trigger] leaderboard(rows)[a]).sums.saved_tokens >= (#[trigger] left_out_of_leaderboard(
                rows,
            )[b]).sums.saved_tokens,
{
    let board = leaderboard(rows);
    let rest = left_out_of_leaderboard(rows);
    lemma_top_leads(groups(rows), by_saved(), TOP_COMMANDS as nat);
    assert forall|a: int, b: int| 0 <= a < board.len() && 0 <= b < rest.len() implies (
    #[trigger] board[a]).sums.saved_tokens >= (#[trigger] rest[b]).sums.saved_tokens by {
        assert(by_saved()(board[a]) >= by_saved()(rest[b]));
    }
}

/// The commands of a history are the labels its records carry: every
/// record's label is listed, every listed label is that of a record, and
/// none is listed twice. So there is one group for each command.
pub proof fn lemma_labels_list_commands(rows: Seq<ExecutionView>)
    ensures
        forall|k: int| 0 <= k < rows.len() ==> labels(rows).contains((#[trigger] rows[k]).rtk_cmd),
        forall|i: int|
            0 <= i < labels(rows).len() ==> exists|k: int|
                0 <= k < rows.len() && (#[trigger] rows[k]).rtk_cmd == #[trigger] labels(rows)[i],
        forall|i: int, j: int|
            0 <= i < j < labels(rows).len() ==> #[trigger] labels(rows)[i] != #[trigger] labels(rows)[j],
        groups(rows).len() == labels(rows).len(),
    decreases rows.len(),
{
    if rows.len() > 0 {
        let front = rows.drop_last();
        let label = rows.last().rtk_cmd;
        lemma_labels_list_commands(front);
        let earlier = labels(front);
        let listed = labels(rows);
        assert forall|k: int| 0 <= k < rows.len() implies listed.contains((#[trigger] rows[k]).rtk_cmd) by {
            if k < rows.len() - 1 {
                assert(front[k] == rows[k]);
                assert(earlier.contains(front[k].rtk_cmd));
                let i = choose|i: int| 0 <= i < earlier.len() && earlier[i] == front[k].rtk_cmd;
                assert(listed[i] == rows[k].rtk_cmd);
            } else if earlier.contains(label) {
            } else {
                assert(listed[listed.len() - 1] == label);
            }
        }
        assert forall|i: int| 0 <= i < listed.len() implies exists|k: int|
            0 <= k < rows.len() && (#[trigger] rows[k]).rtk_cmd == #[trigger] listed[i] by {
            if i < earlier.len() {
                let k = choose|k: int| 0 <= k < front.len() && (#[trigger] front[k]).rtk_cmd == earlier[i];
                assert(rows[k].rtk_cmd == listed[i]);
            } else {
                assert(rows[rows.len() - 1].rtk_cmd == listed[i]);
            }
        }
        assert forall|i: int, j: int| 0 <= i < j < listed.len() implies #[trigger] listed[i]
            != #[trigger] listed[j] by {
            if j == earlier.len() {
                if listed[i] == listed[j] {
                    assert(earlier[i] == label);
                    assert(earlier.contains(label));
                }
            }
        }
    }
}

/// The leaderboard holds at most `TOP_COMMANDS` commands, each a command of
/// the history, in the order of the tokens they saved in total, most first.
pub proof fn lemma_leaderboard_is_ranked(rows: Seq<ExecutionView>)
    ensures
        leaderboard(rows).len() <= TOP_COMMANDS,
        forall|k: int| 0 <= k < leaderboard(rows).len() ==> groups(rows).contains(#[trigger] leaderboard(rows)[k]),
        forall|a: int, b: int|
            0 <= a < b < leaderboard(rows).len() ==> (#[trigger] leaderboard(rows)[a]).sums.saved_tokens >= (
            #[trigger] leaderboard(rows)[b]).sums.saved_tokens,
{
    let board = leaderboard(rows);
    lemma_top_len(groups(rows), by_saved(), TOP_COMMANDS as nat);
    lemma_top_descends(groups(rows), by_saved(), TOP_COMMANDS as nat);
    lemma_top_from_items(groups(rows), by_saved(), TOP_COMMANDS as nat);
    assert forall|a: int, b: int| 0 <= a < b < board.len() implies (#[trigger] board[a]).sums.saved_tokens >= (
    #[trigger] board[b]).sums.saved_tokens by {
        assert(by_saved()(board[a]) >= by_saved()(board[b]));
    }
}

/// The sums over the buckets of `rows` that start on the days `starts`,
/// all together.
pub open spec fn rollup_totals(rows: Seq<ExecutionView>, period: Period, starts: Seq<int>) -> Totals
    decreases starts.len(),
{
    if starts.len() == 0 {
        Totals::zero()
    } else {
        rollup_totals(rows, period, starts.drop_last()).sum(period_totals(rows, period, starts.last()))
    }
}

/// The sums over a selection and over what it leaves out are together the
/// sums over all records.
pub proof fn lemma_totals_split(rows: Seq<ExecutionView>, pick: spec_fn(ExecutionView) -> bool)
    ensures
        totals(rows.filter(pick)).sum(totals(rows.filter(excluded(pick)))) == totals(rows),
    decreases rows.len(),
{
    reveal(Seq::filter);
    if rows.len() > 0 {
        let front = rows.drop_last();
        lemma_totals_split(front, pick);
        if pick(rows.last()) {
            lemma_totals_push(front.filter(pick), rows.last());
        } else {
            lemma_totals_push(front.filter(excluded(pick)), rows.last());
        }
    }
}

/// Selecting from a selection that leaves out nothing of what is wanted
/// gives what selecting from the whole gives.
pub proof fn lemma_select_within(
    rows: Seq<ExecutionView>,
    wide: spec_fn(ExecutionView) -> bool,
    pick: spec_fn(ExecutionView) -> bool,
)
    requires
        forall|row: ExecutionView| #[trigger] pick(row) ==> wide(row),
    ensures
        rows.filter(wide).filter(pick) == rows.filter(pick),
    decreases rows.len(),
{
    reveal(Seq::filter);
    if rows.len() > 0 {
        let front = rows.drop_last();
        lemma_select_within(front, wide, pick);
        if wide(rows.last()) {
            front.filter(wide).lemma_filter_push(rows.last(), pick);
        }
    }
}

/// The buckets of a rollup add up to the whole: for any list of the period
/// starts of a history, the sums over the buckets are together the sums
/// over the history.
pub proof fn lemma_listed_buckets_add_up(rows: Seq<ExecutionView>, period: Period, starts: Seq<int>)
    requires
        lists_starts(rows, period, starts),
    ensures
        rollup_totals(rows, period, starts) == totals(rows),
    decreases starts.len(),
{
    if starts.len() == 0 {
        if rows.len() > 0 {
            assert(starts.contains(start_of(period, rows[0])));
        }
    } else {
        let last = starts.last();
        let others = excluded(in_period(period, last));
        let rest = rows.filter(others);
        let front = starts.drop_last();
        assert forall|j: int| 0 <= j < front.len() implies occurs(rest, period, #[trigger] front[j]) by {
            assert(occurs(rows, period, starts[j]));
            let k = choose|k: int| 0 <= k < rows.len() && start_of(period, rows[k]) == starts[j];
            assert(starts[j] < starts[starts.len() - 1]);
            rows.lemma_filter_contains(others, k);
            let at = choose|at: int| 0 <= at < rest.len() && rest[at] == rows[k];
            assert(start_of(period, rest[at]) == front[j]);
        }
        assert forall|k: int| 0 <= k < rest.len() implies front.contains(
            #[trigger] start_of(period, rest[k]),
        ) by {
            rows.lemma_filter_pred(others, k);
            assert(rest.contains(rest[k]));
            rows.lemma_filter_contains_rev(others, rest[k]);
            let from = choose|from: int| 0 <= from < rows.len() && rows[from] == rest[k];
            assert(starts.contains(start_of(period, rows[from])));
            let j = choose|j: int| 0 <= j < starts.len() && starts[j] == start_of(period, rows[from]);
            assert(front[j] == starts[j]);
        }
        assert(lists_starts(rest, period, front));
        lemma_listed_buckets_add_up(rest, period, front);
        lemma_same_buckets(rows, rest, period, front, last);
        lemma_totals_split(rows, in_period(period, last));
    }
}

/// Leaving out the records of one period changes no other bucket.
proof fn lemma_same_buckets(
    rows: Seq<ExecutionView>,
    rest: Seq<ExecutionView>,
    period: Period,
    starts: Seq<int>,
    left_out: int,
)
    requires
        rest == rows.filter(excluded(in_period(period, left_out))),
        forall|j: int| 0 <= j < starts.len() ==> starts[j] != left_out,
    ensures
        rollup_totals(rest, period, starts) == rollup_totals(rows, period, starts),
    decreases starts.len(),
{
    if starts.len() > 0 {
        lemma_same_buckets(rows, rest, period, starts.drop_last(), left_out);
        assert(starts[starts.len() - 1] != left_out);
        lemma_select_within(rows, excluded(in_period(period, left_out)), in_period(period, starts.last()));
    }
}

/// The buckets of a rollup add up to the whole: the sums over all buckets
/// of the history by day, by week or by month are together the sums over
/// the history. In particular the tokens saved per bucket add up to the
/// tokens saved in total.
pub proof fn lemma_buckets_add_up(rows: Seq<ExecutionView>, period: Period)
    ensures
        rollup_totals(rows, period, period_starts(rows, period)) == totals(rows),
        rollup_totals(rows, period, period_starts(rows, period)).saved_tokens == totals(rows).saved_tokens,
{
    lemma_period_starts_exist(rows, period);
    lemma_listed_buckets_add_up(rows, period, period_starts(rows, period));
}

} // verus!
