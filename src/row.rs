//! Rows: value vectors checked against a schema.

use vstd::prelude::*;
use crate::error::SqlError;
use crate::schema::{ColumnView, Schema, columns_view};
use crate::text::{decimal, decimal_text};
use crate::types::{DataType, Value, ValueView, kind_of, type_word, values_view};

verus! {

/// The values fit the columns: one value per column, each of its column's type.
pub open spec fn conforms(vals: Seq<ValueView>, cols: Seq<ColumnView>) -> bool {
    &&& vals.len() == cols.len()
    &&& forall|i: int| 0 <= i < vals.len() ==> #[trigger] cols[i].dtype.admits(vals[i])
}

/// Among the first `n` positions, the first whose value is not of its
/// column's type; -1 if there is none.
pub open spec fn first_mismatch(vals: Seq<ValueView>, cols: Seq<ColumnView>, n: int) -> int
    decreases n,
{
    if n <= 0 {
        -1
    } else if first_mismatch(vals, cols, n - 1) >= 0 {
        first_mismatch(vals, cols, n - 1)
    } else if !cols[n - 1].dtype.admits(vals[n - 1]) {
        n - 1
    } else {
        -1
    }
}

/// The message for a row whose length is not the schema's.
pub open spec fn arity_message(values: nat, columns: nat) -> Seq<char> {
    "Row has "@ + decimal(values) + " values but schema has "@ + decimal(columns) + " columns"@
}

/// The message for a value of the wrong type at column `index`.
pub open spec fn type_message(index: nat, expected: DataType, got: DataType) -> Seq<char> {
    "Type mismatch at column "@ + decimal(index) + ": expected "@ + type_word(expected)
        + ", got "@ + type_word(got)
}

/// Why values that do not fit the columns are refused: the lengths if they
/// differ, else the first value of the wrong type.
pub open spec fn row_error(vals: Seq<ValueView>, cols: Seq<ColumnView>) -> Seq<char> {
    if vals.len() != cols.len() {
        arity_message(vals.len(), cols.len())
    } else {
        let i = first_mismatch(vals, cols, vals.len() as int);
        type_message(i as nat, cols[i].dtype, kind_of(vals[i]))
    }
}

/// No mismatch among the first `n` positions exactly when all of them fit;
/// a mismatch found is one, and all before it fit.
pub proof fn lemma_first_mismatch(vals: Seq<ValueView>, cols: Seq<ColumnView>, n: int)
    requires
        0 <= n <= vals.len(),
        n <= cols.len(),
    ensures
        first_mismatch(vals, cols, n) == -1 <==> (forall|i: int|
            0 <= i < n ==> #[trigger] cols[i].dtype.admits(vals[i])),
        first_mismatch(vals, cols, n) != -1 ==> {
            let k = first_mismatch(vals, cols, n);
            &&& 0 <= k < n
            &&& !cols[k].dtype.admits(vals[k])
            &&& forall|i: int| 0 <= i < k ==> #[trigger] cols[i].dtype.admits(vals[i])
        },
    decreases n,
{
    if n > 0 {
        lemma_first_mismatch(vals, cols, n - 1);
    }
}

/// Values fit the columns exactly when there are as many values as columns
/// and each is of its column's type. When they do not, the error gives both
/// lengths if these differ, and otherwise names the first position whose
/// value is of the wrong type, with the type expected and the type found.
pub proof fn lemma_row_validation(vals: Seq<ValueView>, cols: Seq<ColumnView>)
    ensures
        conforms(vals, cols) <==> (vals.len() == cols.len() && forall|i: int|
            0 <= i < vals.len() ==> #[trigger] cols[i].dtype.admits(vals[i])),
        vals.len() != cols.len() ==> row_error(vals, cols) == arity_message(vals.len(), cols.len()),
        vals.len() == cols.len() && !conforms(vals, cols) ==> exists|k: int|
            0 <= k < vals.len() && !(#[trigger] cols[k].dtype.admits(vals[k])) && (forall|j: int|
                0 <= j < k ==> #[trigger] cols[j].dtype.admits(vals[j])) && row_error(vals, cols)
                == type_message(k as nat, cols[k].dtype, kind_of(vals[k])),
{
    if vals.len() == cols.len() && !conforms(vals, cols) {
        lemma_first_mismatch(vals, cols, vals.len() as int);
        let k = first_mismatch(vals, cols, vals.len() as int);
        assert(!(cols[k].dtype.admits(vals[k])));
    }
}

/// Once a mismatch is found, looking further does not move it.
proof fn lemma_first_mismatch_stable(vals: Seq<ValueView>, cols: Seq<ColumnView>, n: int, m: int)
    requires
        n <= m,
        first_mismatch(vals, cols, n) >= 0,
    ensures
        first_mismatch(vals, cols, m) == first_mismatch(vals, cols, n),
    decreases m - n,
{
    if m > n {
        lemma_first_mismatch_stable(vals, cols, n, m - 1);
    }
}

/// Checks `values` against the columns of `schema`: the one place where
/// arity and types are checked.
pub fn check_values(values: &Vec<Value>, schema: &Schema) -> (r: Result<(), SqlError>)
    ensures
        r is Ok <==> conforms(values_view(values@), schema@),
        r matches Err(e) ==> e@ == row_error(values_view(values@), schema@),
{
    let ghost vals = values_view(values@);
    let columns = schema.columns();
    let ghost cols = schema@;
    if values.len() != columns.len() {
        let mut message = String::from_str("Row has ");
        message.append(decimal_text(values.len()).as_str());
        message.append(" values but schema has ");
        message.append(decimal_text(columns.len()).as_str());
        message.append(" columns");
        return Err(SqlError::from_message(message));
    }
    let mut i: usize = 0;
    while i < values.len()
        invariant
            vals == values_view(values@),
            cols == columns_view(columns@),
            cols == schema@,
            values.len() == columns.len(),
            i <= values.len(),
            first_mismatch(vals, cols, i as int) == -1,
            forall|j: int| 0 <= j < i ==> #[trigger] cols[j].dtype.admits(vals[j]),
        decreases values.len() - i,
    {
        let column = &columns[i];
        let value = &values[i];
        proof {
            assert(cols[i as int] == columns@[i as int]@);
            assert(vals[i as int] == values@[i as int]@);
        }
        if !column.dtype.matches(value) {
            proof {
                assert(first_mismatch(vals, cols, i + 1) == i);
                lemma_first_mismatch_stable(vals, cols, i + 1, vals.len() as int);
            }
            let mut message = String::from_str("Type mismatch at column ");
            message.append(decimal_text(i).as_str());
            message.append(": expected ");
            message.append(column.dtype.word().as_str());
            message.append(", got ");
            message.append(value.data_type().word().as_str());
            return Err(SqlError::from_message(message));
        }
        i = i + 1;
    }
    Ok(())
}

/// A row of values.
#[derive(Debug, PartialEq)]
pub struct Row {
    values: Vec<Value>,
}

impl View for Row {
    type V = Seq<ValueView>;

    closed spec fn view(&self) -> Seq<ValueView> {
        values_view(self.values@)
    }
}

/// A copy of `values`.
pub fn copy_values(values: &Vec<Value>) -> (r: Vec<Value>)
    ensures
        r@ == values@,
{
    let mut out: Vec<Value> = Vec::new();
    let mut i: usize = 0;
    while i < values.len()
        invariant
            i <= values.len(),
            out@ =~= values@.take(i as int),
        decreases values.len() - i,
    {
        out.push(values[i].clone());
        i = i + 1;
    }
    proof {
        assert(out@ =~= values@);
    }
    out
}

impl Clone for Row {
    fn clone(&self) -> (r: Row)
        ensures
            r@ == self@,
    {
        Row { values: copy_values(&self.values) }
    }
}

/// The views of a sequence of rows.
pub open spec fn rows_view(rs: Seq<Row>) -> Seq<Seq<ValueView>> {
    rs.map_values(|r: Row| r@)
}

impl Row {
    /// A row of `values` for `schema`, if they fit its columns; else the
    /// error gives both lengths, or the first value of the wrong type.
    pub fn from_values(values: Vec<Value>, schema: &Schema) -> (r: Result<Row, SqlError>)
        ensures
            r is Ok <==> conforms(values_view(values@), schema@),
            r matches Ok(row) ==> row@ == values_view(values@),
            r matches Err(e) ==> e@ == row_error(values_view(values@), schema@),
    {
        check_values(&values, schema)?;
        Ok(Row { values })
    }

    /// A row of values taken from stored rows, checked against no schema.
    pub(crate) fn projected(values: Vec<Value>) -> (r: Row)
        ensures
            r@ == values_view(values@),
    {
        Row { values }
    }

    /// The row's values.
    pub fn values(&self) -> (r: &Vec<Value>)
        ensures
            values_view(r@) == self@,
    {
        &self.values
    }
}

} // verus!
