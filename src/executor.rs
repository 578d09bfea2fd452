//! The executor: applies one parsed statement to a database.

use vstd::prelude::*;
use crate::ast::{ASTNode, AstView, CreateTableStmt, InsertStmt, SelectStmt, names_view};
use crate::db::{
    Database,
    create_outcome,
    lemma_table_from,
    lookup,
    table_index,
    well_formed,
};
use crate::error::{SqlError, SqlResult};
use crate::row::{Row, conforms, row_error, rows_view};
use crate::schema::{
    ColumnView,
    Schema,
    column_position,
    distinct_names,
    duplicate_column_message,
    first_duplicate,
};
use crate::table::TableView;
use crate::types::{Value, ValueView, values_view};

verus! {

/// What a statement returns: nothing, or the rows a query selected.
#[derive(Debug, PartialEq)]
pub enum Output {
    Done,
    Rows(Vec<Row>),
}

/// What an output is seen as.
pub enum OutputView {
    Done,
    Rows(Seq<Seq<ValueView>>),
}

impl View for Output {
    type V = OutputView;

    open spec fn view(&self) -> OutputView {
        match self {
            Output::Done => OutputView::Done,
            Output::Rows(rs) => OutputView::Rows(rows_view(rs@)),
        }
    }
}

/// What an execution result is seen as.
pub open spec fn output_result_view(r: SqlResult<Output>) -> Result<OutputView, Seq<char>> {
    match r {
        Ok(o) => Ok(o@),
        Err(e) => Err(e@),
    }
}

/// The message for a statement on a table that does not exist.
pub open spec fn unknown_table_message(name: Seq<char>) -> Seq<char> {
    "unknown table: "@ + name
}

/// The message for a column that the table does not have.
pub open spec fn unknown_column_message(name: Seq<char>) -> Seq<char> {
    "unknown column: "@ + name
}

/// Among the first `n` requested names, the first position of one that no
/// column has; -1 if there is none.
pub open spec fn first_unknown(cols: Seq<ColumnView>, names: Seq<Seq<char>>, n: int) -> int
    decreases n,
{
    if n <= 0 {
        -1
    } else if first_unknown(cols, names, n - 1) >= 0 {
        first_unknown(cols, names, n - 1)
    } else if column_position(cols, names[n - 1]) is None {
        n - 1
    } else {
        -1
    }
}

/// The values of `row` at the columns named `names`, in that order.
pub open spec fn project(row: Seq<ValueView>, cols: Seq<ColumnView>, names: Seq<Seq<char>>) -> Seq<
    ValueView,
> {
    Seq::new(names.len(), |k: int| row[column_position(cols, names[k])->0])
}

/// What a query on table `t` returns: every row as stored, or each row
/// cut down to the columns asked for; an unknown column fails the query.
pub open spec fn select_rows(t: TableView, names: Option<Seq<Seq<char>>>) -> Result<
    Seq<Seq<ValueView>>,
    Seq<char>,
> {
    match names {
        None => Ok(t.rows),
        Some(ns) => {
            let u = first_unknown(t.columns, ns, ns.len() as int);
            if u >= 0 {
                Err(unknown_column_message(ns[u]))
            } else {
                Ok(Seq::new(t.rows.len(), |i: int| project(t.rows[i], t.columns, ns)))
            }
        },
    }
}

/// The table after appending `values`.
pub open spec fn with_row(t: TableView, values: Seq<ValueView>) -> TableView {
    TableView { rows: t.rows.push(values), ..t }
}

/// Executing a statement: what it returns, and the database after it.
pub open spec fn execute_outcome(ast: AstView, db: Seq<TableView>) -> (
    Result<OutputView, Seq<char>>,
    Seq<TableView>,
) {
    match ast {
        AstView::CreateTable { name, columns } => if !distinct_names(columns) {
            (
                Err(
                    duplicate_column_message(
                        columns[first_duplicate(columns, columns.len() as int)].name,
                    ),
                ),
                db,
            )
        } else {
            let (r, after) = create_outcome(db, name, columns);
            (
                match r {
                    Ok(_) => Ok(OutputView::Done),
                    Err(e) => Err(e),
                },
                after,
            )
        },
        AstView::Insert { table, values } => match table_index(db, table) {
            None => (Err(unknown_table_message(table)), db),
            Some(i) => if conforms(values, db[i].columns) {
                (Ok(OutputView::Done), db.update(i, with_row(db[i], values)))
            } else {
                (Err(row_error(values, db[i].columns)), db)
            },
        },
        AstView::Select { table, columns } => match lookup(db, table) {
            None => (Err(unknown_table_message(table)), db),
            Some(t) => (
                match select_rows(t, columns) {
                    Ok(rs) => Ok(OutputView::Rows(rs)),
                    Err(e) => Err(e),
                },
                db,
            ),
        },
    }
}

/// Once an unknown name is found, looking further does not move it.
proof fn lemma_first_unknown_stable(cols: Seq<ColumnView>, names: Seq<Seq<char>>, n: int, m: int)
    requires
        n <= m,
        first_unknown(cols, names, n) >= 0,
    ensures
        first_unknown(cols, names, m) == first_unknown(cols, names, n),
    decreases m - n,
{
    if m > n {
        lemma_first_unknown_stable(cols, names, n, m - 1);
    }
}

/// No unknown name among the first `n` exactly when all of them name a
/// column; an unknown name found is one, and all before it are known.
pub proof fn lemma_first_unknown(cols: Seq<ColumnView>, names: Seq<Seq<char>>, n: int)
    requires
        0 <= n <= names.len(),
    ensures
        first_unknown(cols, names, n) == -1 <==> (forall|k: int|
            0 <= k < n ==> #[trigger] column_position(cols, names[k]) is Some),
        first_unknown(cols, names, n) != -1 ==> {
            let u = first_unknown(cols, names, n);
            &&& 0 <= u < n
            &&& column_position(cols, names[u]) is None
            &&& forall|k: int| 0 <= k < u ==> #[trigger] column_position(cols, names[k]) is Some
        },
    decreases n,
{
    if n > 0 {
        lemma_first_unknown(cols, names, n - 1);
    }
}

/// A query without a column list returns every stored row unchanged and in
/// stored order. A query with a column list returns, for every stored row
/// in order, a row holding the values at the named columns, in the order
/// asked (names may repeat). If a name is no column of the table, the query
/// fails, naming the first such name, and returns no rows at all.
pub proof fn lemma_select(t: TableView, names: Seq<Seq<char>>)
    ensures
        select_rows(t, None) == Ok::<Seq<Seq<ValueView>>, Seq<char>>(t.rows),
        (forall|k: int| 0 <= k < names.len() ==> #[trigger] column_position(t.columns, names[k]) is Some)
            ==> (select_rows(t, Some(names)) matches Ok(rs) && rs.len() == t.rows.len() && (
        forall|i: int|
            0 <= i < rs.len() ==> (#[trigger] rs[i]).len() == names.len() && (forall|k: int|
                0 <= k < names.len() ==> #[trigger] rs[i][k] == t.rows[i][column_position(
                    t.columns,
                    names[k],
                )->0]))),
        (exists|k: int| 0 <= k < names.len() && #[trigger] column_position(t.columns, names[k]) is None)
            ==> {
            let u = first_unknown(t.columns, names, names.len() as int);
            &&& 0 <= u < names.len()
            &&& column_position(t.columns, names[u]) is None
            &&& select_rows(t, Some(names)) == Err::<Seq<Seq<ValueView>>, Seq<char>>(
                unknown_column_message(names[u]),
            )
        },
{
    lemma_first_unknown(t.columns, names, names.len() as int);
}

/// A message naming something after a fixed prefix.
fn message_with(prefix: &str, name: &str) -> (r: SqlError)
    ensures
        r@ == prefix@ + name@,
{
    let mut message = String::from_str(prefix);
    message.append(name);
    SqlError::from_message(message)
}

/// Runs parsed statements against a database.
pub struct Executor;

impl Executor {
    /// Executes one statement: creates a table, inserts one row, or reads
    /// rows. A failed statement leaves the database as it was.
    pub fn execute(ast: ASTNode, db: &mut Database) -> (r: SqlResult<Output>)
        requires
            well_formed(old(db)@),
        ensures
            (output_result_view(r), final(db)@) == execute_outcome(ast@, old(db)@),
            well_formed(final(db)@),
    {
        match ast {
            ASTNode::CreateTable(stmt) => Self::exec_create(stmt, db),
            ASTNode::Insert(stmt) => Self::exec_insert(stmt, db),
            ASTNode::Select(stmt) => Self::exec_select(stmt, db),
        }
    }

    fn exec_create(stmt: CreateTableStmt, db: &mut Database) -> (r: SqlResult<Output>)
        requires
            well_formed(old(db)@),
        ensures
            (output_result_view(r), final(db)@) == execute_outcome(
                ASTNode::CreateTable(stmt)@,
                old(db)@,
            ),
            well_formed(final(db)@),
    {
        let schema = Schema::try_new(stmt.columns)?;
        match db.create_table(stmt.name, schema) {
            Ok(_) => Ok(Output::Done),
            Err(e) => Err(e),
        }
    }

    fn exec_insert(stmt: InsertStmt, db: &mut Database) -> (r: SqlResult<Output>)
        requires
            well_formed(old(db)@),
        ensures
            (output_result_view(r), final(db)@) == execute_outcome(ASTNode::Insert(stmt)@, old(db)@),
            well_formed(final(db)@),
    {
        let ghost before = db@;
        let ghost values = values_view(stmt.values@);
        proof {
            lemma_table_from(before, stmt.table@, 0);
        }
        let table = match db.table_mut(&stmt.table) {
            Some(t) => t,
            None => return Err(message_with("unknown table: ", stmt.table.as_str())),
        };
        let ghost i = table_index(before, stmt.table@)->0;
        let row = match Row::from_values(stmt.values, table.schema()) {
            Ok(row) => row,
            Err(e) => return Err(e),
        };
        match table.insert_checked(row) {
            Ok(()) => {},
            Err(e) => return Err(e),
        }
        proof {
            assert(db@ == before.update(i, with_row(before[i], values)));
            assert(well_formed(db@)) by {
                assert forall|a: int, b: int| 0 <= a < b < db@.len() implies #[trigger] db@[a].name
                    != #[trigger] db@[b].name by {
                    assert(db@[a].name == before[a].name);
                    assert(db@[b].name == before[b].name);
                }
                assert forall|a: int| 0 <= a < db@.len() implies (#[trigger] db@[a]).wf() by {
                    if a != i {
                        assert(db@[a] == before[a]);
                    }
                }
            }
        }
        Ok(Output::Done)
    }

    fn exec_select(stmt: SelectStmt, db: &Database) -> (r: SqlResult<Output>)
        requires
            well_formed(db@),
        ensures
            output_result_view(r) == execute_outcome(ASTNode::Select(stmt)@, db@).0,
    {
        proof {
            lemma_table_from(db@, stmt.table@, 0);
        }
        let table = match db.table(&stmt.table) {
            Some(t) => t,
            None => return Err(message_with("unknown table: ", stmt.table.as_str())),
        };
        let ghost t = table@;
        proof {
            let i = table_index(db@, stmt.table@)->0;
            assert(db@[i].wf());
        }
        let rows = table.rows();
        let mut out: Vec<Row> = Vec::new();
        match &stmt.columns {
            None => {
                let mut i: usize = 0;
                while i < rows.len()
                    invariant
                        rows_view(rows@) == t.rows,
                        i <= rows.len(),
                        rows_view(out@) =~= t.rows.take(i as int),
                    decreases rows.len() - i,
                {
                    let ghost prev = rows_view(out@);
                    out.push(rows[i].clone());
                    proof {
                        assert(rows_view(out@) =~= prev.push(rows@[i as int]@));
                        assert(t.rows.take(i + 1) =~= t.rows.take(i as int).push(t.rows[i as int]));
                    }
                    i = i + 1;
                }
                proof {
                    assert(t.rows.take(i as int) =~= t.rows);
                }
            },
            Some(names) => {
                let ghost ns = names_view(names@);
                let mut indices: Vec<usize> = Vec::new();
                let mut k: usize = 0;
                while k < names.len()
                    invariant
                        t == table@,
                        lookup(db@, stmt.table@) == Some(t),
                        stmt.columns == Some(*names),
                        ns == names_view(names@),
                        k <= names.len(),
                        indices@.len() == k,
                        first_unknown(t.columns, ns, k as int) == -1,
                        forall|j: int|
                            0 <= j < k ==> column_position(t.columns, ns[j]) == Some(
                                #[trigger] indices@[j] as int,
                            ) && indices@[j] < t.columns.len(),
                    decreases names.len() - k,
                {
                    match table.column_index(&names[k]) {
                        Some(idx) => {
                            proof {
                                assert(ns[k as int] == names@[k as int]@);
                            }
                            indices.push(idx);
                        },
                        None => {
                            proof {
                                assert(ns[k as int] == names@[k as int]@);
                                assert(first_unknown(t.columns, ns, k + 1) == k);
                                lemma_first_unknown_stable(t.columns, ns, k + 1, ns.len() as int);
                            }
                            return Err(message_with("unknown column: ", names[k].as_str()));
                        },
                    }
                    k = k + 1;
                }
                let mut i: usize = 0;
                while i < rows.len()
                    invariant
                        rows_view(rows@) == t.rows,
                        t.wf(),
                        ns == names_view(names@),
                        indices@.len() == ns.len(),
                        forall|j: int|
                            0 <= j < ns.len() ==> column_position(t.columns, ns[j]) == Some(
                                #[trigger] indices@[j] as int,
                            ) && indices@[j] < t.columns.len(),
                        i <= rows.len(),
                        rows_view(out@) =~= Seq::new(
                            i as nat,
                            |a: int| project(t.rows[a], t.columns, ns),
                        ),
                    decreases rows.len() - i,
                {
                    let values = rows[i].values();
                    proof {
                        assert(t.rows[i as int] == rows@[i as int]@);
                        assert(conforms(t.rows[i as int], t.columns));
                    }
                    let mut picked: Vec<Value> = Vec::new();
                    let mut k: usize = 0;
                    while k < indices.len()
                        invariant
                            i < t.rows.len(),
                            values_view(values@) == t.rows[i as int],
                            values@.len() == t.columns.len(),
                            indices@.len() == ns.len(),
                            forall|j: int|
                                0 <= j < ns.len() ==> column_position(t.columns, ns[j]) == Some(
                                    #[trigger] indices@[j] as int,
                                ) && indices@[j] < t.columns.len(),
                            k <= indices.len(),
                            values_view(picked@) =~= project(t.rows[i as int], t.columns, ns).take(
                                k as int,
                            ),
                        decreases indices.len() - k,
                    {
                        let idx = indices[k];
                        let ghost prev = values_view(picked@);
                        picked.push(values[idx].clone());
                        proof {
                            assert(values_view(values@)[idx as int] == values@[idx as int]@);
                            assert(values_view(picked@) =~= prev.push(values@[idx as int]@));
                        }
                        k = k + 1;
                    }
                    proof {
                        assert(project(t.rows[i as int], t.columns, ns).take(k as int) =~= project(
                            t.rows[i as int],
                            t.columns,
                            ns,
                        ));
                    }
                    let ghost prev = rows_view(out@);
                    let row = Row::projected(picked);
                    let ghost seen = row@;
                    out.push(row);
                    proof {
                        assert(rows_view(out@) =~= prev.push(seen));
                    }
                    i = i + 1;
                }
            },
        }
        Ok(Output::Rows(out))
    }
}

} // verus!
