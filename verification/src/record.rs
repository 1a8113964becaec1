//! The record of one command execution, and what reports are given of it.

use crate::savings::{saved, saved_tokens, savings_pct, share_micros, Percent};
use crate::time::Timestamp;
use vstd::prelude::*;

verus! {

/// One observed command execution, as the store keeps it.
#[derive(Clone, Debug)]
pub struct Execution {
    /// The instant of recording.
    pub timestamp: Timestamp,
    /// The unmodified command that the wrapped one stands in for.
    pub original_cmd: String,
    /// The command that was issued; per-command figures are grouped by it.
    pub rtk_cmd: String,
    /// Estimated tokens that the unmodified command would have cost.
    pub input_tokens: usize,
    /// Estimated tokens that the issued command cost.
    pub output_tokens: usize,
    /// Elapsed execution time in milliseconds.
    pub exec_time_ms: u64,
}

/// What an `Execution` is to the contracts: its fields as plain values.
pub struct ExecutionView {
    pub timestamp: int,
    pub original_cmd: Seq<char>,
    pub rtk_cmd: Seq<char>,
    pub input_tokens: nat,
    pub output_tokens: nat,
    pub exec_time_ms: nat,
}

impl ExecutionView {
    /// The tokens this execution saved.
    pub open spec fn saved_tokens(self) -> nat {
        saved(self.input_tokens, self.output_tokens)
    }

    /// This execution's saving as a share of its unwrapped cost, in
    /// millionths of a percent.
    pub open spec fn savings_micros(self) -> nat {
        share_micros(self.saved_tokens(), self.input_tokens)
    }
}

impl View for Execution {
    type V = ExecutionView;

    open spec fn view(&self) -> ExecutionView {
        ExecutionView {
            timestamp: self.timestamp@,
            original_cmd: self.original_cmd@,
            rtk_cmd: self.rtk_cmd@,
            input_tokens: self.input_tokens as nat,
            output_tokens: self.output_tokens as nat,
            exec_time_ms: self.exec_time_ms as nat,
        }
    }
}

impl Execution {
    /// The record of a command observed at `timestamp`.
    pub fn new(
        timestamp: Timestamp,
        original_cmd: &str,
        rtk_cmd: &str,
        input_tokens: usize,
        output_tokens: usize,
        exec_time_ms: u64,
    ) -> (row: Execution)
        ensures
            row@ == (ExecutionView {
                timestamp: timestamp@,
                original_cmd: original_cmd@,
                rtk_cmd: rtk_cmd@,
                input_tokens: input_tokens as nat,
                output_tokens: output_tokens as nat,
                exec_time_ms: exec_time_ms as nat,
            }),
    {
        Execution {
            timestamp,
            original_cmd: original_cmd.to_owned(),
            rtk_cmd: rtk_cmd.to_owned(),
            input_tokens,
            output_tokens,
            exec_time_ms,
        }
    }

    /// The tokens this execution saved: the unwrapped cost less the wrapped
    /// cost, never below zero.
    pub fn saved_tokens(&self) -> (tokens: usize)
        ensures
            tokens == self@.saved_tokens(),
    {
        saved_tokens(self.input_tokens, self.output_tokens)
    }

    /// The saved tokens as a percentage of the unwrapped cost; 0 % where
    /// that cost is zero.
    pub fn savings_pct(&self) -> (p: Percent)
        ensures
            p@ == self@.savings_micros(),
    {
        savings_pct(self.input_tokens, self.output_tokens)
    }

    /// A copy of this record, field for field.
    pub fn duplicate(&self) -> (row: Execution)
        ensures
            row@ == self@,
    {
        Execution {
            timestamp: self.timestamp,
            original_cmd: self.original_cmd.clone(),
            rtk_cmd: self.rtk_cmd.clone(),
            input_tokens: self.input_tokens,
            output_tokens: self.output_tokens,
            exec_time_ms: self.exec_time_ms,
        }
    }
}

/// The records of `rows` as the contracts see them.
pub open spec fn views(rows: Seq<Execution>) -> Seq<ExecutionView> {
    rows.map_values(|row: Execution| row@)
}

/// Why the store turned a record down.
#[derive(Clone, Copy, Debug, PartialEq, Eq, Structural)]
pub enum StoreError {
    /// With the record, a total over the kept history would no longer fit
    /// the integer that reports it.
    TotalsOverflow,
}

} // verus!
