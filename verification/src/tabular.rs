//! The uniform tabular result shape every backend normalizes into, and the
//! envelope handed back over the command surface.

use crate::value::Value;
use vstd::prelude::*;

verus! {

/// An ordered list of column names and type labels, paired with rows of
/// normalized values. Every well-formed result is rectangular.
pub struct QueryRow {
    pub columns: Vec<String>,
    pub types: Vec<String>,
    pub rows: Vec<Vec<Value>>,
}

impl QueryRow {
    /// The tabular invariant: one type label per column, and every row as
    /// wide as the column list.
    pub open spec fn wf(self) -> bool {
        &&& self.types@.len() == self.columns@.len()
        &&& forall|i: int|
            0 <= i < self.rows@.len() ==> (#[trigger] self.rows@[i])@.len() == self.columns@.len()
    }
}

/// The response envelope of the command surface: the tabular result plus its
/// row count, elapsed time, and the fixed success fields.
pub struct QueryResult {
    pub columns: Vec<String>,
    pub types: Vec<String>,
    pub rows: Vec<Vec<Value>>,
    pub row_count: usize,
    pub execution_time: u64,
    pub affected_rows: usize,
    pub error: Option<String>,
}

impl QueryResult {
    /// The tabular invariant, carried over from the wrapped result, plus the
    /// success fields a query envelope always has.
    pub open spec fn wf(self) -> bool {
        &&& self.types@.len() == self.columns@.len()
        &&& forall|i: int|
            0 <= i < self.rows@.len() ==> (#[trigger] self.rows@[i])@.len() == self.columns@.len()
        &&& self.row_count == self.rows@.len()
        &&& self.affected_rows == 0
        &&& self.error is None
    }
}

/// Wraps a tabular result into the surface envelope: the row count is the
/// number of rows, no rows are ever counted as affected, and no error is set.
pub fn make_query_result(q: QueryRow, elapsed_millis: u64) -> (r: QueryResult)
    ensures
        r.columns == q.columns,
        r.types == q.types,
        r.rows == q.rows,
        r.row_count == q.rows@.len(),
        r.execution_time == elapsed_millis,
        r.affected_rows == 0,
        r.error is None,
        q.wf() ==> r.wf(),
{
    let row_count = q.rows.len();
    QueryResult {
        columns: q.columns,
        types: q.types,
        rows: q.rows,
        row_count,
        execution_time: elapsed_millis,
        affected_rows: 0,
        error: None,
    }
}

} // verus!
