//! Adding up records, in integers that cannot overflow.

use crate::model::{any_row, lemma_select_all, lemma_totals_bounds, lemma_totals_of_selection, lemma_totals_push, totals, Totals};
use crate::record::{views, Execution, ExecutionView};
use vstd::prelude::*;

verus! {

/// Sums over records, in integers wide enough for any history that a
/// vector can hold.
pub(crate) struct WideSums {
    pub commands: usize,
    pub input_tokens: u128,
    pub output_tokens: u128,
    pub saved_tokens: u128,
    pub time_ms: u128,
    pub pct_micros: u128,
}

impl WideSums {
    pub(crate) open spec fn view(&self) -> Totals {
        Totals {
            commands: self.commands as nat,
            input_tokens: self.input_tokens as nat,
            output_tokens: self.output_tokens as nat,
            saved_tokens: self.saved_tokens as nat,
            time_ms: self.time_ms as nat,
            pct_micros: self.pct_micros as nat,
        }
    }
}

/// Sums over records, in the integers that report them.
pub(crate) struct Sums {
    pub commands: usize,
    pub input_tokens: usize,
    pub output_tokens: usize,
    pub saved_tokens: usize,
    pub time_ms: u64,
    pub pct_micros: u128,
}

impl Sums {
    pub(crate) open spec fn view(&self) -> Totals {
        Totals {
            commands: self.commands as nat,
            input_tokens: self.input_tokens as nat,
            output_tokens: self.output_tokens as nat,
            saved_tokens: self.saved_tokens as nat,
            time_ms: self.time_ms as nat,
            pct_micros: self.pct_micros as nat,
        }
    }
}

/// Adds up the records of `rows` that `picked` marks, which are those that
/// `pick` selects.
pub(crate) fn sum_wide(
    rows: &Vec<Execution>,
    picked: &Vec<bool>,
    Ghost(pick): Ghost<spec_fn(ExecutionView) -> bool>,
) -> (sums: WideSums)
    requires
        picked.len() == rows.len(),
        forall|i: int| 0 <= i < rows.len() ==> picked[i] == pick(#[trigger] rows[i]@),
    ensures
        sums@ == totals(views(rows@).filter(pick)),
{
    let mut sums = WideSums {
        commands: 0,
        input_tokens: 0,
        output_tokens: 0,
        saved_tokens: 0,
        time_ms: 0,
        pct_micros: 0,
    };
    let ghost all = views(rows@);
    let mut i: usize = 0;
    proof {
        reveal(Seq::filter);
        assert(all.take(0).filter(pick) =~= Seq::<ExecutionView>::empty());
    }
    while i < rows.len()
        invariant
            i <= rows.len(),
            picked.len() == rows.len(),
            all == views(rows@),
            forall|k: int| 0 <= k < rows.len() ==> picked[k] == pick(#[trigger] rows[k]@),
            sums@ == totals(all.take(i as int).filter(pick)),
            sums.commands <= i,
            sums.input_tokens <= i * u64::MAX,
            sums.output_tokens <= i * u64::MAX,
            sums.saved_tokens <= i * u64::MAX,
            sums.time_ms <= i * u64::MAX,
            sums.pct_micros <= i * u64::MAX,
        decreases rows.len() - i,
    {
        let row = &rows[i];
        proof {
            assert(all.take(i as int + 1) =~= all.take(i as int).push(row@));
            all.take(i as int).lemma_filter_push(row@, pick);
            lemma_totals_push(all.take(i as int).filter(pick), row@);
        }
        if picked[i] {
            let saved: usize = row.saved_tokens();
            let pct: u64 = row.savings_pct().micros();
            sums.commands = sums.commands + 1;
            sums.input_tokens = sums.input_tokens + row.input_tokens as u128;
            sums.output_tokens = sums.output_tokens + row.output_tokens as u128;
            sums.saved_tokens = sums.saved_tokens + saved as u128;
            sums.time_ms = sums.time_ms + row.exec_time_ms as u128;
            sums.pct_micros = sums.pct_micros + pct as u128;
        }
        i = i + 1;
    }
    proof {
        assert(all.take(rows.len() as int) =~= all);
    }
    sums
}

/// The sums `wide` in the integers that report them, which they fit.
pub(crate) fn narrow(wide: WideSums) -> (sums: Sums)
    requires
        wide@.fits(),
        wide.saved_tokens <= wide.input_tokens,
    ensures
        sums@ == wide@,
{
    Sums {
        commands: wide.commands,
        input_tokens: wide.input_tokens as usize,
        output_tokens: wide.output_tokens as usize,
        saved_tokens: wide.saved_tokens as usize,
        time_ms: wide.time_ms as u64,
        pct_micros: wide.pct_micros,
    }
}

/// Whether the sums `wide` fit the integers that report them.
pub(crate) fn fits(wide: &WideSums) -> (fit: bool)
    ensures
        fit == wide@.fits(),
{
    wide.input_tokens <= usize::MAX as u128 && wide.output_tokens <= usize::MAX as u128 && wide.time_ms
        <= u64::MAX as u128
}

/// A mask that marks every one of `len` records.
pub(crate) fn mark_all(rows: &Vec<Execution>) -> (picked: Vec<bool>)
    ensures
        picked.len() == rows.len(),
        forall|i: int| 0 <= i < rows.len() ==> picked[i] == any_row()(#[trigger] rows[i]@),
{
    let mut picked: Vec<bool> = Vec::new();
    let mut i: usize = 0;
    while i < rows.len()
        invariant
            i <= rows.len(),
            picked.len() == i,
            forall|k: int| 0 <= k < i ==> picked[k],
        decreases rows.len() - i,
    {
        picked.push(true);
        i = i + 1;
    }
    picked
}

/// The sums over all of `rows`, where they fit the integers that report them.
pub(crate) fn checked_totals(rows: &Vec<Execution>) -> (sums: Option<Sums>)
    ensures
        sums is Some <==> totals(views(rows@)).fits(),
        sums is Some ==> sums->0@ == totals(views(rows@)),
{
    let picked = mark_all(rows);
    let wide = sum_wide(rows, &picked, Ghost(any_row()));
    proof {
        lemma_select_all(views(rows@));
        lemma_totals_bounds(views(rows@));
    }
    if fits(&wide) {
        Some(narrow(wide))
    } else {
        None
    }
}

/// The sums over all of `rows`, a history whose sums fit.
pub(crate) fn sum_all(rows: &Vec<Execution>) -> (sums: Sums)
    requires
        totals(views(rows@)).fits(),
    ensures
        sums@ == totals(views(rows@)),
{
    let picked = mark_all(rows);
    let wide = sum_wide(rows, &picked, Ghost(any_row()));
    proof {
        lemma_select_all(views(rows@));
        lemma_totals_bounds(views(rows@));
    }
    narrow(wide)
}

/// The sums over the records of `rows` that `picked` marks, which are those
/// that `pick` selects, in a history whose sums fit.
pub(crate) fn sum_selected(
    rows: &Vec<Execution>,
    picked: &Vec<bool>,
    Ghost(pick): Ghost<spec_fn(ExecutionView) -> bool>,
) -> (sums: Sums)
    requires
        picked.len() == rows.len(),
        forall|i: int| 0 <= i < rows.len() ==> picked[i] == pick(#[trigger] rows[i]@),
        totals(views(rows@)).fits(),
    ensures
        sums@ == totals(views(rows@).filter(pick)),
{
    let wide = sum_wide(rows, picked, Ghost(pick));
    proof {
        lemma_totals_of_selection(views(rows@), pick);
        lemma_totals_bounds(views(rows@).filter(pick));
    }
    narrow(wide)
}

} // verus!
