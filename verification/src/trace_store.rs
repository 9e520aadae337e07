//! Small decisions of the trace store: schema migration and graph layout.
use vstd::prelude::*;

use crate::flags::{contains_string, names};

verus! {

/// Whether a table's columns, as `PRAGMA table_info` lists them, include `column`.
pub fn table_has_column(columns: &Vec<String>, column: &str) -> (r: bool)
    ensures
        r == names(columns@).contains(column@),
{
    contains_string(columns, column)
}

/// The latency that fills a node's bar completely: the largest latency of the
/// session, and at least 1.
pub fn latency_scale(latencies: &Vec<i64>) -> (r: i64)
    ensures
        r >= 1,
        forall|i: int| 0 <= i < latencies@.len() ==> latencies@[i] <= r,
        r == 1 || exists|i: int| 0 <= i < latencies@.len() && latencies@[i] == r,
{
    let mut best: i64 = 1;
    let mut i: usize = 0;
    while i < latencies.len()
        invariant
            i <= latencies@.len(),
            best >= 1,
            forall|k: int| 0 <= k < i ==> latencies@[k] <= best,
            best == 1 || exists|k: int| 0 <= k < i && latencies@[k] == best,
        decreases latencies@.len() - i,
    {
        if latencies[i] > best {
            best = latencies[i];
        }
        i = i + 1;
    }
    best
}

} // verus!
