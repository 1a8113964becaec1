//! Usage telemetry for a command wrapper: how many tokens each wrapped
//! command saved, kept for a bounded window and summarised on demand.
//!
//! A [`Tracker`] holds the history of command executions. Recording one
//! derives its saving, adds it and drops what has left the retention
//! window; the reports (summary, leaderboard, rollups by day, week and
//! month, recent feed) are computed from the history at the time of the
//! call. A [`TimedExecution`] times a command and hands the observation to
//! a tracker.
//!
//! Every figure is defined over the sequence of records in [`model`], and
//! every function is verified against that definition. What is taken on
//! trust is marked where it stands: the calendar and the clock, which come
//! from chrono and std. Percentages are held in millionths of a percent.

pub mod display;
pub mod estimate;
pub mod laws;
pub mod leaderboard;
pub mod model;
pub mod ranking;
pub mod record;
pub mod reports;
pub mod rollup;
pub mod savings;
pub mod schema;
pub mod summary;
mod sums;
pub mod time;
pub mod timing;
pub mod tracker;

pub use crate::display::args_display;
pub use crate::estimate::estimate_tokens;
pub use crate::record::{Execution, StoreError};
pub use crate::reports::{CommandRecord, DayStats, GainSummary, MonthStats, WeekStats};
pub use crate::savings::Percent;
pub use crate::time::{Period, Timestamp};
pub use crate::timing::{track, TimedExecution};
pub use crate::tracker::Tracker;
