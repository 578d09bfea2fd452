//! The form in which a table is saved: its columns and its raw rows. A
//! table is rebuilt from it through the same checks as a new one.

use vstd::prelude::*;
use crate::error::{SqlError, SqlResult};
use crate::row::{Row, conforms, copy_values, row_error};
use crate::schema::{
    Column,
    ColumnView,
    Schema,
    columns_view,
    distinct_names,
    duplicate_column_message,
    first_duplicate,
};
use crate::table::{Table, TableView};
use crate::types::{TableName, Value, ValueView, values_view};

verus! {

/// A table's columns and the values of its rows, in order.
#[derive(Debug, PartialEq)]
pub struct SerializableTable {
    pub columns: Vec<Column>,
    pub rows: Vec<Vec<Value>>,
}

/// What a saved table is seen as.
pub struct SnapshotView {
    pub columns: Seq<ColumnView>,
    pub rows: Seq<Seq<ValueView>>,
}

impl View for SerializableTable {
    type V = SnapshotView;

    open spec fn view(&self) -> SnapshotView {
        SnapshotView {
            columns: columns_view(self.columns@),
            rows: self.rows@.map_values(|v: Vec<Value>| values_view(v@)),
        }
    }
}

/// What saving a table keeps: its columns and its rows.
pub open spec fn exported(t: TableView) -> SnapshotView {
    SnapshotView { columns: t.columns, rows: t.rows }
}

/// Among the first `n` rows, the first that does not fit the columns; -1 if
/// there is none.
pub open spec fn first_bad_row(cols: Seq<ColumnView>, rows: Seq<Seq<ValueView>>, n: int) -> int
    decreases n,
{
    if n <= 0 {
        -1
    } else if first_bad_row(cols, rows, n - 1) >= 0 {
        first_bad_row(cols, rows, n - 1)
    } else if !conforms(rows[n - 1], cols) {
        n - 1
    } else {
        -1
    }
}

/// Rebuilding a table named `name`: the columns must have distinct names
/// and every row must fit them; else the first failure.
pub open spec fn restored(s: SnapshotView, name: Seq<char>) -> Result<TableView, Seq<char>> {
    if !distinct_names(s.columns) {
        Err(
            duplicate_column_message(
                s.columns[first_duplicate(s.columns, s.columns.len() as int)].name,
            ),
        )
    } else {
        let k = first_bad_row(s.columns, s.rows, s.rows.len() as int);
        if k >= 0 {
            Err(row_error(s.rows[k], s.columns))
        } else {
            Ok(TableView { name, columns: s.columns, rows: s.rows })
        }
    }
}

/// No bad row among the first `n` exactly when all of them fit.
pub proof fn lemma_first_bad_row(cols: Seq<ColumnView>, rows: Seq<Seq<ValueView>>, n: int)
    requires
        0 <= n <= rows.len(),
    ensures
        first_bad_row(cols, rows, n) == -1 <==> (forall|i: int|
            0 <= i < n ==> conforms(#[trigger] rows[i], cols)),
    decreases n,
{
    if n > 0 {
        lemma_first_bad_row(cols, rows, n - 1);
    }
}

/// Saving a well-formed table and rebuilding it under its own name gives
/// back the same columns and the same rows, in the same order.
pub proof fn lemma_round_trip(t: TableView)
    requires
        t.wf(),
    ensures
        restored(exported(t), t.name) == Ok::<TableView, Seq<char>>(t),
{
    lemma_first_bad_row(t.columns, t.rows, t.rows.len() as int);
}

/// Once a bad row is found, looking further does not move it.
proof fn lemma_first_bad_row_stable(
    cols: Seq<ColumnView>,
    rows: Seq<Seq<ValueView>>,
    n: int,
    m: int,
)
    requires
        n <= m,
        first_bad_row(cols, rows, n) >= 0,
    ensures
        first_bad_row(cols, rows, m) == first_bad_row(cols, rows, n),
    decreases m - n,
{
    if m > n {
        lemma_first_bad_row_stable(cols, rows, n, m - 1);
    }
}

impl SerializableTable {
    /// The saved form of `t`.
    pub fn from_table(t: &Table) -> (r: SerializableTable)
        ensures
            r@ == exported(t@),
    {
        let source = t.schema().columns();
        let mut columns: Vec<Column> = Vec::new();
        let mut i: usize = 0;
        while i < source.len()
            invariant
                i <= source.len(),
                columns@ =~= source@.take(i as int),
            decreases source.len() - i,
        {
            columns.push(source[i].clone());
            i = i + 1;
        }
        proof {
            assert(columns@ =~= source@);
        }
        let stored = t.rows();
        let mut rows: Vec<Vec<Value>> = Vec::new();
        let mut j: usize = 0;
        while j < stored.len()
            invariant
                j <= stored.len(),
                crate::row::rows_view(stored@) == t@.rows,
                rows@.len() == j,
                forall|k: int| 0 <= k < j ==> values_view((#[trigger] rows@[k])@) == t@.rows[k],
            decreases stored.len() - j,
        {
            rows.push(copy_values(stored[j].values()));
            proof {
                assert(t@.rows[j as int] == stored@[j as int]@);
            }
            j = j + 1;
        }
        let r = SerializableTable { columns, rows };
        proof {
            assert(r@.rows =~= t@.rows);
        }
        r
    }

    /// A table named `name` rebuilt from this saved form, checked as a new
    /// table is: distinct column names, every row fitting the columns.
    pub fn into_table(self, name: TableName) -> (r: SqlResult<Table>)
        ensures
            match r {
                Ok(t) => restored(self@, name@) == Ok::<TableView, Seq<char>>(t@) && t@.wf(),
                Err(e) => restored(self@, name@) == Err::<TableView, Seq<char>>(e@),
            },
    {
        let ghost s = self@;
        let ghost tname = name@;
        let schema = Schema::try_new(self.columns)?;
        let mut table = Table::create(name, schema);
        let rows = self.rows;
        let mut i: usize = 0;
        proof {
            assert(s.rows.take(0) =~= Seq::<Seq<ValueView>>::empty());
        }
        while i < rows.len()
            invariant
                s == self@,
                tname == name@,
                s.rows == rows@.map_values(|v: Vec<Value>| values_view(v@)),
                distinct_names(s.columns),
                i <= rows.len(),
                table@ == (TableView { name: tname, columns: s.columns, rows: s.rows.take(i as int) }),
                table@.wf(),
                first_bad_row(s.columns, s.rows, i as int) == -1,
            decreases rows.len() - i,
        {
            proof {
                assert(s.rows[i as int] == values_view(rows@[i as int]@));
            }
            let row = match Row::from_values(copy_values(&rows[i]), table.schema()) {
                Ok(row) => row,
                Err(e) => {
                    proof {
                        assert(first_bad_row(s.columns, s.rows, i + 1) == i);
                        lemma_first_bad_row_stable(s.columns, s.rows, i + 1, s.rows.len() as int);
                    }
                    return Err(e);
                },
            };
            match table.insert_checked(row) {
                Ok(()) => {},
                Err(e) => return Err(e),
            }
            proof {
                assert(s.rows.take(i + 1) =~= s.rows.take(i as int).push(s.rows[i as int]));
            }
            i = i + 1;
        }
        proof {
            assert(s.rows.take(i as int) =~= s.rows);
        }
        Ok(table)
    }
}

} // verus!
