//! The rows that past runs leave.

use vstd::prelude::*;

use crate::double::{Double, DoubleV};

verus! {

/// How many rows are kept.
pub const KEPT: usize = 100;

/// One past run.
pub struct HistoryEntry {
    pub at: u64,
    pub out: String,
    pub caption: String,
    pub success: bool,
    pub wall_ms: Double,
}

/// What a [`HistoryEntry`] holds.
#[verifier::ext_equal]
pub struct HistoryV {
    pub at: u64,
    pub out: Seq<char>,
    pub caption: Seq<char>,
    pub success: bool,
    pub wall_ms: DoubleV,
}

impl View for HistoryEntry {
    type V = HistoryV;

    open spec fn view(&self) -> HistoryV {
        HistoryV {
            at: self.at,
            out: self.out@,
            caption: self.caption@,
            success: self.success,
            wall_ms: self.wall_ms@,
        }
    }
}

impl Clone for HistoryEntry {
    fn clone(&self) -> (r: Self)
        ensures
            r == *self,
    {
        HistoryEntry {
            at: self.at,
            out: self.out.clone(),
            caption: self.caption.clone(),
            success: self.success,
            wall_ms: self.wall_ms.clone(),
        }
    }
}

/// The last rows of a list, at most a number of them.
pub open spec fn last_rows<T>(rows: Seq<T>, n: nat) -> Seq<T> {
    if rows.len() > n {
        rows.skip(rows.len() - n)
    } else {
        rows
    }
}

/// Puts a row at the end of the history, of which the last hundred rows are kept.
pub fn append_history(history: Vec<HistoryEntry>, e: HistoryEntry) -> (r: Vec<HistoryEntry>)
    ensures
        r@ == last_rows(history@.push(e), KEPT as nat),
{
    let mut h = history;
    h.push(e);
    if h.len() > KEPT {
        let keep: usize = h.len() - KEPT;
        let tail = h.split_off(keep);
        assert(tail@ =~= last_rows(history@.push(e), KEPT as nat));
        tail
    } else {
        h
    }
}

/// What rows hold.
pub open spec fn row_views(rows: Seq<HistoryEntry>) -> Seq<HistoryV> {
    rows.map_values(|e: HistoryEntry| e@)
}

/// The newest rows, the newest first, at most a number of them.
pub fn newest(history: &Vec<HistoryEntry>, n: usize) -> (r: Vec<HistoryEntry>)
    ensures
        r@ == last_rows(history@, n as nat).reverse(),
{
    let mut out: Vec<HistoryEntry> = Vec::new();
    let len: usize = history.len();
    let m: usize = if len > n {
        n
    } else {
        len
    };
    let mut i: usize = 0;
    let ghost all = last_rows(history@, n as nat).reverse();
    assert(all.len() == m);
    assert(all.take(0) =~= Seq::<HistoryEntry>::empty());
    while i < m
        invariant
            i <= m <= len == history@.len(),
            m == if len > n {
                n
            } else {
                len
            },
            all == last_rows(history@, n as nat).reverse(),
            all.len() == m,
            out@ == all.take(i as int),
        decreases m - i,
    {
        let e = history[len - 1 - i].clone();
        assert(all[i as int] == history@[len - 1 - i]);
        out.push(e);
        i = i + 1;
        assert(all.take(i as int) =~= all.take(i - 1).push(e));
    }
    assert(all.take(m as int) =~= all);
    out
}

/// The rows that a sequence of runs leaves, one after the other.
pub open spec fn history_of(runs: Seq<HistoryV>) -> Seq<HistoryV>
    decreases runs.len(),
{
    if runs.len() == 0 {
        runs
    } else {
        last_rows(history_of(runs.drop_last()).push(runs.last()), KEPT as nat)
    }
}

/// However many runs there were, the history is the last hundred of them.
pub proof fn law_history_is_the_last_runs(runs: Seq<HistoryV>)
    ensures
        history_of(runs) == last_rows(runs, KEPT as nat),
        history_of(runs).len() <= KEPT,
    decreases runs.len(),
{
    if runs.len() > 0 {
        law_history_is_the_last_runs(runs.drop_last());
        assert(history_of(runs) =~= last_rows(runs, KEPT as nat));
    }
}

} // verus!
