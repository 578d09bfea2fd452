//! Tables: a name, a schema, and the rows stored so far, in insertion order.

use vstd::prelude::*;
use crate::error::SqlError;
use crate::row::{Row, check_values, conforms, row_error, rows_view};
use crate::schema::{ColumnView, Schema, distinct_names};
use crate::types::{ColumnName, TableName, ValueView};

verus! {

/// What a table is seen as: its name's text, its columns, and its rows.
pub struct TableView {
    pub name: Seq<char>,
    pub columns: Seq<ColumnView>,
    pub rows: Seq<Seq<ValueView>>,
}

impl TableView {
    /// The columns have distinct names and every row fits them.
    pub open spec fn wf(self) -> bool {
        &&& distinct_names(self.columns)
        &&& forall|i: int| 0 <= i < self.rows.len() ==> conforms(#[trigger] self.rows[i], self.columns)
    }
}

/// A named table: a schema and its rows. Rows enter only through
/// `insert_checked`, so each of them fits the schema.
#[derive(Debug)]
pub struct Table {
    name: TableName,
    schema: Schema,
    rows: Vec<Row>,
}

impl View for Table {
    type V = TableView;

    closed spec fn view(&self) -> TableView {
        TableView { name: self.name@, columns: self.schema@, rows: rows_view(self.rows@) }
    }
}

impl Table {
    /// An empty table with the given name and schema.
    pub fn create(name: TableName, schema: Schema) -> (r: Table)
        ensures
            r@ == (TableView { name: name@, columns: schema@, rows: Seq::empty() }),
            r@.wf(),
    {
        // The schema's columns report that their names are distinct.
        let _ = schema.columns();
        let t = Table { name, schema, rows: Vec::new() };
        proof {
            assert(t@.rows =~= Seq::<Seq<ValueView>>::empty());
        }
        t
    }

    /// Appends `row` if it fits the table's schema, whatever schema it was
    /// built for; otherwise the table is left as it was.
    pub fn insert_checked(&mut self, row: Row) -> (r: Result<(), SqlError>)
        ensures
            r is Ok <==> conforms(row@, old(self)@.columns),
            r is Ok ==> final(self)@ == (TableView {
                rows: old(self)@.rows.push(row@),
                ..old(self)@
            }),
            r matches Err(e) ==> e@ == row_error(row@, old(self)@.columns) && final(self)@ == old(
                self,
            )@,
            old(self)@.wf() ==> final(self)@.wf(),
    {
        check_values(row.values(), &self.schema)?;
        let ghost before = self.rows@;
        self.rows.push(row);
        proof {
            assert(rows_view(self.rows@) =~= rows_view(before).push(row@));
            assert(self@.rows.last() == row@);
        }
        Ok(())
    }

    /// The stored rows, in insertion order.
    pub fn rows(&self) -> (r: &Vec<Row>)
        ensures
            rows_view(r@) == self@.rows,
    {
        &self.rows
    }

    /// The table's name.
    pub fn name(&self) -> (r: &TableName)
        ensures
            r@ == self@.name,
    {
        &self.name
    }

    /// The table's schema.
    pub fn schema(&self) -> (r: &Schema)
        ensures
            r@ == self@.columns,
            distinct_names(self@.columns),
    {
        // The schema's columns report that their names are distinct.
        let _ = self.schema.columns();
        &self.schema
    }

    /// The position of the column named `name`, if the schema has one.
    pub fn column_index(&self, name: &ColumnName) -> (r: Option<usize>)
        ensures
            r matches Some(i) ==> crate::schema::column_position(self@.columns, name@) == Some(
                i as int,
            ) && i < self@.columns.len(),
            r is None ==> crate::schema::column_position(self@.columns, name@) is None,
    {
        self.schema.index_of(name)
    }
}

} // verus!
