//! The store of command executions: what is kept, for how long, and the
//! reports that are drawn from it.

use crate::model::{kept, totals};
use crate::record::{views, Execution, ExecutionView, StoreError};
use crate::sums::checked_totals;
use crate::time::{in_range, Timestamp};
use vstd::prelude::*;

verus! {

/// The history after a record `row` is made at the instant `now`: the row is
/// added, and what has left the retention window by then is dropped.
pub open spec fn after_record(rows: Seq<ExecutionView>, row: ExecutionView, now: int) -> Seq<ExecutionView> {
    rows.push(row).filter(kept(now))
}

/// The record of a command observed at the instant `now`.
pub open spec fn observed(
    now: int,
    original_cmd: Seq<char>,
    rtk_cmd: Seq<char>,
    input_tokens: nat,
    output_tokens: nat,
    exec_time_ms: nat,
) -> ExecutionView {
    ExecutionView { timestamp: now, original_cmd, rtk_cmd, input_tokens, output_tokens, exec_time_ms }
}

/// The history after an attempt to record `row` at the instant `now`: the
/// history with the record made, where the sums over that fit; else the
/// history as it was.
pub open spec fn after_attempt(before: Seq<ExecutionView>, row: ExecutionView, now: int) -> Seq<
    ExecutionView,
> {
    let next = after_record(before, row, now);
    if totals(next).fits() {
        next
    } else {
        before
    }
}

/// What recording `row` at the instant `now` makes of the history `before`.
/// Where the sums over the history that would result fit, the record is
/// made, `ok` holds and `after` is that history. Where they do not, nothing
/// changes: `ok` fails and `after` is `before`.
pub open spec fn record_outcome(
    before: Seq<ExecutionView>,
    row: ExecutionView,
    now: int,
    ok: bool,
    after: Seq<ExecutionView>,
) -> bool {
    &&& ok == totals(after_record(before, row, now)).fits()
    &&& after == after_attempt(before, row, now)
}

/// The store of command executions, in the order in which they were
/// recorded.
///
/// Its view is the sequence of the records it holds, oldest insertion
/// first. The sums over a store's records always fit the integers that
/// report them: `record` and `from_rows` turn down what would break that.
pub struct Tracker {
    rows: Vec<Execution>,
}

impl View for Tracker {
    type V = Seq<ExecutionView>;

    closed spec fn view(&self) -> Seq<ExecutionView> {
        views(self.rows@)
    }
}

impl Tracker {
    #[verifier::type_invariant]
    spec fn sums_fit(self) -> bool {
        totals(views(self.rows@)).fits()
    }

    /// A store that holds no record yet.
    pub fn new() -> (store: Tracker)
        ensures
            store@ == Seq::<ExecutionView>::empty(),
    {
        let rows: Vec<Execution> = Vec::new();
        proof {
            assert(views(rows@) =~= Seq::<ExecutionView>::empty());
        }
        Tracker { rows }
    }

    /// A store that holds the records `rows`, in that order; refused where
    /// their sums do not fit.
    pub fn from_rows(rows: Vec<Execution>) -> (res: Result<Tracker, StoreError>)
        ensures
            res is Ok <==> totals(views(rows@)).fits(),
            res matches Ok(store) ==> store@ == views(rows@),
            res matches Err(e) ==> e == StoreError::TotalsOverflow,
    {
        match checked_totals(&rows) {
            Some(_) => Ok(Tracker { rows }),
            None => Err(StoreError::TotalsOverflow),
        }
    }

    /// Records one command execution observed at the instant `now`, then
    /// drops every record that has left the retention window by `now`.
    /// The saved tokens and the savings percentage of the record follow
    /// from its token counts. The record is turned down, and nothing
    /// changes, where a sum over the resulting history would not fit.
    pub fn record_at(
        &mut self,
        original_cmd: &str,
        rtk_cmd: &str,
        input_tokens: usize,
        output_tokens: usize,
        exec_time_ms: u64,
        now: Timestamp,
    ) -> (res: Result<(), StoreError>)
        ensures
            record_outcome(
                old(self)@,
                observed(
                    now@,
                    original_cmd@,
                    rtk_cmd@,
                    input_tokens as nat,
                    output_tokens as nat,
                    exec_time_ms as nat,
                ),
                now@,
                res is Ok,
                final(self)@,
            ),
            res matches Err(e) ==> e == StoreError::TotalsOverflow,
    {
        let ghost before = views(self.rows@);
        let ghost keep = kept(now@);
        let mut next: Vec<Execution> = Vec::new();
        let mut i: usize = 0;
        proof {
            reveal(Seq::filter);
            assert(views(next@) =~= before.take(0).filter(keep));
        }
        while i < self.rows.len()
            invariant
                i <= self.rows.len(),
                before == views(self.rows@),
                keep == kept(now@),
                views(next@) == before.take(i as int).filter(keep),
            decreases self.rows.len() - i,
        {
            let row = &self.rows[i];
            proof {
                assert(before.take(i as int + 1) =~= before.take(i as int).push(row@));
                before.take(i as int).lemma_filter_push(row@, keep);
            }
            if !row.timestamp.expired_at(now) {
                let ghost earlier = next@;
                let copy = row.duplicate();
                next.push(copy);
                proof {
                    assert(views(next@) =~= views(earlier).push(row@));
                }
            }
            i = i + 1;
        }
        let ghost earlier = next@;
        let row = Execution::new(now, original_cmd, rtk_cmd, input_tokens, output_tokens, exec_time_ms);
        next.push(row);
        proof {
            assert(before.take(self.rows.len() as int) =~= before);
            assert(views(next@) =~= views(earlier).push(row@));
            before.lemma_filter_push(row@, keep);
        }
        match checked_totals(&next) {
            Some(_) => {
                self.rows = next;
                Ok(())
            },
            None => Err(StoreError::TotalsOverflow),
        }
    }

    /// Records one command execution at the current instant, as `record_at`
    /// does at a given one. The instant is the system clock's, so of the
    /// outcome only this is known: it is that of `record_at` at some instant.
    pub fn record(
        &mut self,
        original_cmd: &str,
        rtk_cmd: &str,
        input_tokens: usize,
        output_tokens: usize,
        exec_time_ms: u64,
    ) -> (res: Result<(), StoreError>)
        ensures
            exists|now: int|
                in_range(now) && #[trigger] record_outcome(
                    old(self)@,
                    observed(
                        now,
                        original_cmd@,
                        rtk_cmd@,
                        input_tokens as nat,
                        output_tokens as nat,
                        exec_time_ms as nat,
                    ),
                    now,
                    res is Ok,
                    final(self)@,
                ),
            res matches Err(e) ==> e == StoreError::TotalsOverflow,
    {
        let now = Timestamp::now();
        self.record_at(original_cmd, rtk_cmd, input_tokens, output_tokens, exec_time_ms, now)
    }

    /// The records the store holds, oldest insertion first. Their sums fit
    /// the integers that report them.
    pub fn rows(&self) -> (rows: &Vec<Execution>)
        ensures
            views(rows@) == self@,
            totals(self@).fits(),
    {
        proof {
            use_type_invariant(self);
        }
        &self.rows
    }

    /// How many records the store holds.
    pub fn len(&self) -> (n: usize)
        ensures
            n == self@.len(),
    {
        self.rows.len()
    }
}

} // verus!
