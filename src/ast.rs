//! The statements that the parser produces.

use vstd::prelude::*;
use crate::schema::{Column, ColumnView, columns_view};
use crate::types::{ColumnName, TableName, Value, ValueView, values_view};

verus! {

/// A CREATE TABLE statement: the new table's name and columns.
#[derive(Debug, PartialEq)]
pub struct CreateTableStmt {
    pub name: TableName,
    pub columns: Vec<Column>,
}

/// An INSERT statement: the target table and one row of values.
#[derive(Debug, PartialEq)]
pub struct InsertStmt {
    pub table: TableName,
    pub values: Vec<Value>,
}

/// A SELECT statement: the table read and the columns asked for; `None`
/// asks for every column, in schema order.
#[derive(Debug, PartialEq)]
pub struct SelectStmt {
    pub table: TableName,
    pub columns: Option<Vec<ColumnName>>,
}

/// One parsed statement.
#[derive(Debug, PartialEq)]
pub enum ASTNode {
    CreateTable(CreateTableStmt),
    Insert(InsertStmt),
    Select(SelectStmt),
}

/// What a statement is seen as: names as text, values and columns as views.
#[allow(inconsistent_fields)]
pub enum AstView {
    CreateTable { name: Seq<char>, columns: Seq<ColumnView> },
    Insert { table: Seq<char>, values: Seq<ValueView> },
    Select { table: Seq<char>, columns: Option<Seq<Seq<char>>> },
}

/// The texts of a sequence of column names.
pub open spec fn names_view(ns: Seq<ColumnName>) -> Seq<Seq<char>> {
    ns.map_values(|n: ColumnName| n@)
}

impl View for ASTNode {
    type V = AstView;

    open spec fn view(&self) -> AstView {
        match self {
            ASTNode::CreateTable(s) => AstView::CreateTable {
                name: s.name@,
                columns: columns_view(s.columns@),
            },
            ASTNode::Insert(s) => AstView::Insert { table: s.table@, values: values_view(s.values@) },
            ASTNode::Select(s) => AstView::Select {
                table: s.table@,
                columns: match s.columns {
                    Some(cs) => Some(names_view(cs@)),
                    None => None,
                },
            },
        }
    }
}

} // verus!
