//! The per-command leaderboard and the recent-activity feed.

use crate::model::{by_saved, by_time, command_totals, CommandTotals, groups, labelled, labels, leaderboard, lemma_totals_bounds, recent, totals, TOP_COMMANDS};
use crate::ranking::top_places;
use crate::record::{views, Execution, ExecutionView};
use crate::reports::{is_leaderboard, ranks, CommandRecord};
use crate::savings::Percent;
use crate::sums::{sum_selected, Sums};
use crate::tracker::Tracker;
use vstd::prelude::*;

verus! {

/// The texts of the labels `found`.
pub(crate) open spec fn label_views(found: Seq<String>) -> Seq<Seq<char>> {
    found.map_values(|label: String| label@)
}

/// Whether `label` is one of `found`.
fn holds_label(found: &Vec<String>, label: &String) -> (seen: bool)
    ensures
        seen == label_views(found@).contains(label@),
{
    let mut j: usize = 0;
    while j < found.len()
        invariant
            j <= found.len(),
            forall|a: int| 0 <= a < j ==> label_views(found@)[a] != label@,
        decreases found.len() - j,
    {
        if found[j] == *label {
            assert(label_views(found@)[j as int] == label@);
            return true;
        }
        j = j + 1;
    }
    false
}

/// The command labels of `rows`, each once, in the order in which they
/// first occur.
fn distinct_labels(rows: &Vec<Execution>) -> (found: Vec<String>)
    ensures
        label_views(found@) == labels(views(rows@)),
{
    let ghost all = views(rows@);
    let mut found: Vec<String> = Vec::new();
    let mut i: usize = 0;
    proof {
        assert(label_views(found@) =~= labels(all.take(0)));
    }
    while i < rows.len()
        invariant
            i <= rows.len(),
            all == views(rows@),
            label_views(found@) == labels(all.take(i as int)),
        decreases rows.len() - i,
    {
        let row = &rows[i];
        proof {
            assert(all.take(i as int + 1).drop_last() =~= all.take(i as int));
            assert(all.take(i as int + 1).last() == row@);
        }
        if !holds_label(&found, &row.rtk_cmd) {
            let ghost earlier = found@;
            found.push(row.rtk_cmd.clone());
            proof {
                assert(label_views(found@) =~= label_views(earlier).push(row@.rtk_cmd));
            }
        }
        i = i + 1;
    }
    proof {
        assert(all.take(rows.len() as int) =~= all);
    }
    found
}

/// A mask over `rows` that marks the records that carry `label`.
fn mark_label(rows: &Vec<Execution>, label: &String) -> (picked: Vec<bool>)
    ensures
        picked.len() == rows.len(),
        forall|k: int| 0 <= k < rows.len() ==> picked[k] == labelled(label@)(#[trigger] rows[k]@),
{
    let mut picked: Vec<bool> = Vec::new();
    let mut i: usize = 0;
    while i < rows.len()
        invariant
            i <= rows.len(),
            picked.len() == i,
            forall|k: int| 0 <= k < i ==> picked[k] == labelled(label@)(#[trigger] rows[k]@),
        decreases rows.len() - i,
    {
        picked.push(rows[i].rtk_cmd == *label);
        i = i + 1;
    }
    picked
}

impl Tracker {
    /// The leaderboard: the commands that saved the most tokens in total,
    /// most first, at most `TOP_COMMANDS` of them. Each entry gives the
    /// command's label, how often it ran, the tokens it saved in total, the
    /// mean of its records' savings percentages, and its mean execution
    /// time. Of two commands that saved the same, the one that was recorded
    /// first comes first.
    pub fn get_by_command(&self) -> (board: Vec<(String, usize, usize, Percent, u64)>)
        ensures
            is_leaderboard(board@, self@),
    {
        let rows = self.rows();
        let ghost all = views(rows@);
        let found = distinct_labels(rows);
        let mut sums: Vec<Sums> = Vec::new();
        let mut scores: Vec<i128> = Vec::new();
        let mut j: usize = 0;
        while j < found.len()
            invariant
                j <= found.len(),
                sums.len() == j,
                scores.len() == j,
                all == views(rows@),
                totals(all).fits(),
                label_views(found@) == labels(all),
                forall|a: int| 0 <= a < j ==> (#[trigger] sums[a])@ == command_totals(all, labels(all)[a]).sums,
                forall|a: int| 0 <= a < j ==> #[trigger] scores[a] == by_saved()(groups(all)[a]),
            decreases found.len() - j,
        {
            let label = &found[j];
            proof {
                assert(label_views(found@)[j as int] == label@);
            }
            let picked = mark_label(rows, label);
            let group = sum_selected(rows, &picked, Ghost(labelled(label@)));
            scores.push(group.saved_tokens as i128);
            sums.push(group);
            j = j + 1;
        }
        let places = top_places::<CommandTotals>(&scores, TOP_COMMANDS, Ghost(groups(all)), Ghost(by_saved()));
        let mut board: Vec<(String, usize, usize, Percent, u64)> = Vec::new();
        let mut k: usize = 0;
        while k < places.len()
            invariant
                k <= places.len(),
                board.len() == k,
                sums.len() == found.len(),
                all == self@,
                label_views(found@) == labels(all),
                groups(all).len() == found.len(),
                forall|a: int| 0 <= a < sums.len() ==> (#[trigger] sums[a])@ == command_totals(all, labels(all)[a]).sums,
                places.len() == leaderboard(all).len(),
                forall|a: int|
                    0 <= a < places.len() ==> {
                        &&& 0 <= #[trigger] places[a] < groups(all).len()
                        &&& groups(all)[places[a] as int] == leaderboard(all)[a]
                    },
                forall|a: int| 0 <= a < k ==> ranks(#[trigger] board[a], leaderboard(all)[a]),
            decreases places.len() - k,
        {
            let place: usize = places[k];
            let group = &sums[place];
            proof {
                assert(label_views(found@)[place as int] == found[place as int]@);
                lemma_totals_bounds(all.filter(labelled(labels(all)[place as int])));
            }
            let avg_time_ms: u64 = if group.commands > 0 {
                group.time_ms / (group.commands as u64)
            } else {
                0
            };
            board.push(
                (
                    found[place].clone(),
                    group.commands,
                    group.saved_tokens,
                    Percent::mean(group.pct_micros, group.commands),
                    avg_time_ms,
                ),
            );
            k = k + 1;
        }
        board
    }

    /// The recent-activity feed: the records with the latest timestamps,
    /// latest first, at most `limit` of them. Each entry shows the record's
    /// instant, its command label, the tokens it saved and its savings
    /// percentage. Of two records with the same timestamp, the one that was
    /// recorded later comes first.
    pub fn get_recent(&self, limit: usize) -> (feed: Vec<CommandRecord>)
        ensures
            feed.len() == recent(self@, limit as nat).len(),
            forall|k: int| 0 <= k < feed.len() ==> (#[trigger] feed[k]).shows(recent(self@, limit as nat)[k]),
    {
        let rows = self.rows();
        let ghost all = views(rows@);
        let count: usize = rows.len();
        let mut scores: Vec<i128> = Vec::new();
        let mut i: usize = 0;
        while i < count
            invariant
                i <= count,
                count == rows.len(),
                scores.len() == i,
                all == views(rows@),
                forall|a: int| 0 <= a < i ==> #[trigger] scores[a] == by_time()(all.reverse()[a]),
            decreases count - i,
        {
            let row = &rows[count - 1 - i];
            scores.push(row.timestamp.millis() as i128);
            i = i + 1;
        }
        let places = top_places::<ExecutionView>(&scores, limit, Ghost(all.reverse()), Ghost(by_time()));
        let mut feed: Vec<CommandRecord> = Vec::new();
        let mut k: usize = 0;
        while k < places.len()
            invariant
                k <= places.len(),
                feed.len() == k,
                count == rows.len(),
                all == views(rows@),
                all == self@,
                places.len() == recent(all, limit as nat).len(),
                forall|a: int|
                    0 <= a < places.len() ==> {
                        &&& 0 <= #[trigger] places[a] < all.reverse().len()
                        &&& all.reverse()[places[a] as int] == recent(all, limit as nat)[a]
                    },
                forall|a: int| 0 <= a < k ==> (#[trigger] feed[a]).shows(recent(all, limit as nat)[a]),
            decreases places.len() - k,
        {
            let place: usize = places[k];
            let row = &rows[count - 1 - place];
            feed.push(
                CommandRecord {
                    timestamp: row.timestamp,
                    rtk_cmd: row.rtk_cmd.clone(),
                    saved_tokens: row.saved_tokens(),
                    savings_pct: row.savings_pct(),
                },
            );
            k = k + 1;
        }
        feed
    }
}

} // verus!
