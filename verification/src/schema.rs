//! Setting up the database that persists the history: which statements are
//! run at every start, in what order, and which of them may fail.
//!
//! The statements are run by whoever holds the database connection. This
//! module decides what is run next and when the database is ready.

use vstd::prelude::*;

verus! {

/// One step of setting up the database. Each step can be applied to a
/// database that has it already.
#[derive(Clone, Copy, Debug, PartialEq, Eq, Structural)]
pub enum SchemaStep {
    /// Create the table of command executions, unless it exists.
    CreateTable,
    /// Create the index on the timestamp column, unless it exists.
    CreateTimestampIndex,
    /// Add the execution-time column, which came after the first release.
    /// On a database that has the column the statement fails, and that
    /// failure is no error.
    AddExecTimeColumn,
}

/// What to do next while setting up the database.
#[derive(Clone, Copy, Debug, PartialEq, Eq, Structural)]
pub enum Setup {
    /// Run this step and report whether it succeeded.
    Run(SchemaStep),
    /// The database is ready.
    Ready,
    /// Setting up failed at this step.
    Failed(SchemaStep),
}

/// Whether setting up cannot go on after the step `step` has failed.
pub open spec fn required(step: SchemaStep) -> bool {
    step != SchemaStep::AddExecTimeColumn
}

/// The step that follows `step`, if any.
pub open spec fn following(step: SchemaStep) -> Option<SchemaStep> {
    match step {
        SchemaStep::CreateTable => Some(SchemaStep::CreateTimestampIndex),
        SchemaStep::CreateTimestampIndex => Some(SchemaStep::AddExecTimeColumn),
        SchemaStep::AddExecTimeColumn => None,
    }
}

/// What to do after `last`: the step that was run last and whether it
/// succeeded, or nothing where no step was run yet. Setting up starts with
/// the table, goes on step by step, stops at the failure of a required
/// step, and is ready after the last step whether that succeeded or not.
pub open spec fn next_setup(last: Option<(SchemaStep, bool)>) -> Setup {
    match last {
        None => Setup::Run(SchemaStep::CreateTable),
        Some((step, succeeded)) => if !succeeded && required(step) {
            Setup::Failed(step)
        } else {
            match following(step) {
                Some(next) => Setup::Run(next),
                None => Setup::Ready,
            }
        },
    }
}

/// The SQL statement of each step.
pub open spec fn statement_text(step: SchemaStep) -> Seq<char> {
    match step {
        SchemaStep::CreateTable => "CREATE TABLE IF NOT EXISTS commands (
                id INTEGER PRIMARY KEY,
                timestamp TEXT NOT NULL,
                original_cmd TEXT NOT NULL,
                rtk_cmd TEXT NOT NULL,
                input_tokens INTEGER NOT NULL,
                output_tokens INTEGER NOT NULL,
                saved_tokens INTEGER NOT NULL,
                savings_pct REAL NOT NULL
            )"@,
        SchemaStep::CreateTimestampIndex => "CREATE INDEX IF NOT EXISTS idx_timestamp ON commands(timestamp)"@,
        SchemaStep::AddExecTimeColumn => "ALTER TABLE commands ADD COLUMN exec_time_ms INTEGER DEFAULT 0"@,
    }
}

impl SchemaStep {
    /// The SQL statement that carries out this step.
    pub fn statement(&self) -> (sql: &'static str)
        ensures
            sql@ == statement_text(*self),
    {
        match self {
            SchemaStep::CreateTable => "CREATE TABLE IF NOT EXISTS commands (
                id INTEGER PRIMARY KEY,
                timestamp TEXT NOT NULL,
                original_cmd TEXT NOT NULL,
                rtk_cmd TEXT NOT NULL,
                input_tokens INTEGER NOT NULL,
                output_tokens INTEGER NOT NULL,
                saved_tokens INTEGER NOT NULL,
                savings_pct REAL NOT NULL
            )",
            SchemaStep::CreateTimestampIndex => "CREATE INDEX IF NOT EXISTS idx_timestamp ON commands(timestamp)",
            SchemaStep::AddExecTimeColumn => "ALTER TABLE commands ADD COLUMN exec_time_ms INTEGER DEFAULT 0",
        }
    }

    /// Whether setting up cannot go on after this step has failed.
    pub fn is_required(&self) -> (needed: bool)
        ensures
            needed == required(*self),
    {
        match self {
            SchemaStep::CreateTable => true,
            SchemaStep::CreateTimestampIndex => true,
            SchemaStep::AddExecTimeColumn => false,
        }
    }
}

/// What to do next while setting up the database, after `last`: the step
/// that was run last and whether it succeeded, or nothing where no step
/// was run yet.
pub fn next_step(last: Option<(SchemaStep, bool)>) -> (next: Setup)
    ensures
        next == next_setup(last),
{
    match last {
        None => Setup::Run(SchemaStep::CreateTable),
        Some((step, succeeded)) => {
            if !succeeded && step.is_required() {
                Setup::Failed(step)
            } else {
                match step {
                    SchemaStep::CreateTable => Setup::Run(SchemaStep::CreateTimestampIndex),
                    SchemaStep::CreateTimestampIndex => Setup::Run(SchemaStep::AddExecTimeColumn),
                    SchemaStep::AddExecTimeColumn => Setup::Ready,
                }
            }
        },
    }
}

/// Where setting up stands after the steps have been run in order with the
/// outcomes `outcomes`, one per step run, each taken into account.
pub open spec fn setup_after(outcomes: Seq<bool>) -> Setup
    decreases outcomes.len(),
{
    if outcomes.len() == 0 {
        next_setup(None)
    } else {
        match setup_after(outcomes.drop_last()) {
            Setup::Run(step) => next_setup(Some((step, outcomes.last()))),
            Setup::Ready => Setup::Ready,
            Setup::Failed(step) => Setup::Failed(step),
        }
    }
}

/// Whatever the outcomes of the steps, setting up does not end in a failure
/// of the execution-time column: only a required step can fail it.
pub proof fn lemma_setup_fails_only_where_required(outcomes: Seq<bool>)
    ensures
        setup_after(outcomes) matches Setup::Failed(step) ==> required(step),
    decreases outcomes.len(),
{
    if outcomes.len() > 0 {
        lemma_setup_fails_only_where_required(outcomes.drop_last());
    }
}

/// Setting up never fails on the execution-time column: once the table and
/// the index are there, the database is ready whether adding the column
/// succeeded, as on a database of the first release, or failed, as on one
/// that has the column already. Setting up an existing database again
/// therefore ends ready as well.
pub proof fn lemma_setup_tolerates_column(column_added: bool)
    ensures
        setup_after(seq![true, true, column_added]) == Setup::Ready,
{
    let all = seq![true, true, column_added];
    assert(all.drop_last() =~= seq![true, true]);
    assert(seq![true, true].drop_last() =~= seq![true]);
    assert(seq![true].drop_last() =~= Seq::<bool>::empty());
    assert(setup_after(Seq::<bool>::empty()) == Setup::Run(SchemaStep::CreateTable));
    assert(setup_after(seq![true]) == Setup::Run(SchemaStep::CreateTimestampIndex));
    assert(setup_after(seq![true, true]) == Setup::Run(SchemaStep::AddExecTimeColumn));
}

} // verus!
