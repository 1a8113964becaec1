use rtk_tracking::schema::{next_step, SchemaStep, Setup};

#[test]
fn setup_runs_the_steps_in_order() {
    assert_eq!(next_step(None), Setup::Run(SchemaStep::CreateTable));
    assert_eq!(
        next_step(Some((SchemaStep::CreateTable, true))),
        Setup::Run(SchemaStep::CreateTimestampIndex)
    );
    assert_eq!(
        next_step(Some((SchemaStep::CreateTimestampIndex, true))),
        Setup::Run(SchemaStep::AddExecTimeColumn)
    );
    assert_eq!(next_step(Some((SchemaStep::AddExecTimeColumn, true))), Setup::Ready);
}

#[test]
fn setup_tolerates_a_column_that_is_there() {
    assert_eq!(next_step(Some((SchemaStep::AddExecTimeColumn, false))), Setup::Ready);
    assert!(!SchemaStep::AddExecTimeColumn.is_required());
}

#[test]
fn setup_stops_where_a_required_step_fails() {
    assert_eq!(
        next_step(Some((SchemaStep::CreateTable, false))),
        Setup::Failed(SchemaStep::CreateTable)
    );
    assert_eq!(
        next_step(Some((SchemaStep::CreateTimestampIndex, false))),
        Setup::Failed(SchemaStep::CreateTimestampIndex)
    );
    assert!(SchemaStep::CreateTable.is_required());
    assert!(SchemaStep::CreateTimestampIndex.is_required());
}

#[test]
fn setup_twice_ends_ready_both_times() {
    // first on an empty database: every step succeeds; then again: the column is there
    for column_added in [true, false] {
        let mut last = None;
        let mut ran = Vec::new();
        let end = loop {
            match next_step(last) {
                Setup::Run(step) => {
                    let ok = step != SchemaStep::AddExecTimeColumn || column_added;
                    ran.push(step);
                    last = Some((step, ok));
                }
                other => break other,
            }
        };
        assert_eq!(end, Setup::Ready);
        assert_eq!(
            ran,
            vec![
                SchemaStep::CreateTable,
                SchemaStep::CreateTimestampIndex,
                SchemaStep::AddExecTimeColumn
            ]
        );
    }
}

#[test]
fn statements_can_be_applied_again() {
    let table = SchemaStep::CreateTable.statement();
    assert!(table.starts_with("CREATE TABLE IF NOT EXISTS commands"));
    for column in [
        "id INTEGER PRIMARY KEY",
        "timestamp TEXT NOT NULL",
        "original_cmd TEXT NOT NULL",
        "rtk_cmd TEXT NOT NULL",
        "input_tokens INTEGER NOT NULL",
        "output_tokens INTEGER NOT NULL",
        "saved_tokens INTEGER NOT NULL",
        "savings_pct REAL NOT NULL",
    ] {
        assert!(table.contains(column));
    }
    assert_eq!(
        SchemaStep::CreateTimestampIndex.statement(),
        "CREATE INDEX IF NOT EXISTS idx_timestamp ON commands(timestamp)"
    );
    assert_eq!(
        SchemaStep::AddExecTimeColumn.statement(),
        "ALTER TABLE commands ADD COLUMN exec_time_ms INTEGER DEFAULT 0"
    );
}
