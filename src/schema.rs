//! Columns and schemas: an ordered list of uniquely named, typed columns.

use vstd::prelude::*;
use crate::error::SqlError;
use crate::types::{ColumnName, DataType};

verus! {

/// What a column is seen as: its name's text and its type.
pub struct ColumnView {
    pub name: Seq<char>,
    pub dtype: DataType,
}

/// One column of a schema: a name and a declared type.
#[derive(Debug, PartialEq)]
pub struct Column {
    pub name: ColumnName,
    pub dtype: DataType,
}

impl View for Column {
    type V = ColumnView;

    open spec fn view(&self) -> ColumnView {
        ColumnView { name: self.name@, dtype: self.dtype }
    }
}

impl Clone for Column {
    fn clone(&self) -> (r: Column)
        ensures
            r == *self,
    {
        Column { name: self.name.clone(), dtype: self.dtype }
    }
}

impl Column {
    /// A column with the given name and type.
    pub fn new(name: ColumnName, dtype: DataType) -> (r: Column)
        ensures
            r.name == name,
            r.dtype == dtype,
    {
        Column { name, dtype }
    }
}

/// The views of a sequence of columns.
pub open spec fn columns_view(cs: Seq<Column>) -> Seq<ColumnView> {
    cs.map_values(|c: Column| c@)
}

/// No two columns share a name.
pub open spec fn distinct_names(cols: Seq<ColumnView>) -> bool {
    forall|i: int, j: int|
        0 <= i < j < cols.len() ==> #[trigger] cols[i].name != #[trigger] cols[j].name
}

/// Whether a column before position `j` has the name of the column at `j`.
pub open spec fn repeats_earlier(cols: Seq<ColumnView>, j: int) -> bool {
    exists|k: int| 0 <= k < j && #[trigger] cols[k].name == cols[j].name
}

/// Among the first `n` columns, the first position whose name was already
/// used; -1 if there is none.
pub open spec fn first_duplicate(cols: Seq<ColumnView>, n: int) -> int
    decreases n,
{
    if n <= 0 {
        -1
    } else if first_duplicate(cols, n - 1) >= 0 {
        first_duplicate(cols, n - 1)
    } else if repeats_earlier(cols, n - 1) {
        n - 1
    } else {
        -1
    }
}

/// The message for a repeated column name.
pub open spec fn duplicate_column_message(name: Seq<char>) -> Seq<char> {
    "Duplicate column name: "@ + name
}

/// The position of the first column at or after `i` named `name`.
pub open spec fn position_from(cols: Seq<ColumnView>, name: Seq<char>, i: int) -> Option<int>
    decreases cols.len() - i,
{
    if i < 0 || i >= cols.len() {
        None
    } else if cols[i].name == name {
        Some(i)
    } else {
        position_from(cols, name, i + 1)
    }
}

/// The position of the first column named `name`.
pub open spec fn column_position(cols: Seq<ColumnView>, name: Seq<char>) -> Option<int> {
    position_from(cols, name, 0)
}

/// A column found by `position_from` is one named `name`, and none before
/// it from `i` on is.
pub proof fn lemma_position_from(cols: Seq<ColumnView>, name: Seq<char>, i: int)
    requires
        0 <= i <= cols.len(),
    ensures
        position_from(cols, name, i) matches Some(k) ==> i <= k < cols.len() && cols[k].name
            == name && (forall|j: int| i <= j < k ==> #[trigger] cols[j].name != name),
        position_from(cols, name, i) is None ==> forall|j: int|
            i <= j < cols.len() ==> #[trigger] cols[j].name != name,
    decreases cols.len() - i,
{
    if i < cols.len() {
        lemma_position_from(cols, name, i + 1);
    }
}

/// Once a repeat is found, looking further does not move it.
proof fn lemma_first_duplicate_stable(cols: Seq<ColumnView>, n: int, m: int)
    requires
        n <= m,
        first_duplicate(cols, n) >= 0,
    ensures
        first_duplicate(cols, m) == first_duplicate(cols, n),
    decreases m - n,
{
    if m > n {
        lemma_first_duplicate_stable(cols, n, m - 1);
    }
}

/// No repeat among the first `n` columns exactly when their names differ.
pub proof fn lemma_first_duplicate(cols: Seq<ColumnView>, n: int)
    requires
        0 <= n <= cols.len(),
    ensures
        first_duplicate(cols, n) == -1 <==> distinct_names(cols.take(n)),
        first_duplicate(cols, n) != -1 ==> 0 <= first_duplicate(cols, n) < n && repeats_earlier(
            cols,
            first_duplicate(cols, n),
        ),
    decreases n,
{
    if n > 0 {
        lemma_first_duplicate(cols, n - 1);
        let p = cols.take(n - 1);
        let q = cols.take(n);
        if first_duplicate(cols, n - 1) == -1 && !repeats_earlier(cols, n - 1) {
            assert forall|i: int, j: int| 0 <= i < j < q.len() implies #[trigger] q[i].name
                != #[trigger] q[j].name by {
                if j < n - 1 {
                    assert(p[i] == q[i] && p[j] == q[j]);
                } else {
                    assert(q[i] == cols[i]);
                }
            }
        }
        if first_duplicate(cols, n - 1) != -1 {
            let d = first_duplicate(cols, n - 1);
            let k = choose|k: int| 0 <= k < d && #[trigger] cols[k].name == cols[d].name;
            assert(q[k].name == q[d].name);
        }
        if first_duplicate(cols, n - 1) == -1 && repeats_earlier(cols, n - 1) {
            let k = choose|k: int| 0 <= k < n - 1 && #[trigger] cols[k].name == cols[n - 1].name;
            assert(q[k].name == q[n - 1].name);
        }
    }
}

/// When column names are distinct, looking up the name of the column at any
/// position gives that position; and the names are distinct exactly when no
/// column repeats an earlier name, which is when a schema can be built.
pub proof fn lemma_index_of_position(cols: Seq<ColumnView>)
    ensures
        distinct_names(cols) ==> forall|i: int|
            0 <= i < cols.len() ==> column_position(cols, #[trigger] cols[i].name) == Some(i),
        distinct_names(cols) <==> first_duplicate(cols, cols.len() as int) == -1,
{
    lemma_first_duplicate(cols, cols.len() as int);
    assert(cols.take(cols.len() as int) =~= cols);
    if distinct_names(cols) {
        assert forall|i: int| 0 <= i < cols.len() implies column_position(
            cols,
            #[trigger] cols[i].name,
        ) == Some(i) by {
            lemma_position_from(cols, cols[i].name, 0);
            if let Some(k) = column_position(cols, cols[i].name) {
                if k < i {
                    assert(cols[k].name != cols[i].name);
                }
            }
        }
    }
}

/// An ordered list of columns in which no two share a name.
#[derive(Debug)]
pub struct Schema {
    columns: Vec<Column>,
}

impl Schema {
    #[verifier::type_invariant]
    spec fn well_formed(self) -> bool {
        distinct_names(columns_view(self.columns@))
    }
}

impl View for Schema {
    type V = Seq<ColumnView>;

    closed spec fn view(&self) -> Seq<ColumnView> {
        columns_view(self.columns@)
    }
}

impl Clone for Schema {
    fn clone(&self) -> (r: Schema)
        ensures
            r@ == self@,
    {
        proof {
            use_type_invariant(self);
        }
        let mut columns: Vec<Column> = Vec::new();
        let mut i: usize = 0;
        while i < self.columns.len()
            invariant
                i <= self.columns.len(),
                columns@ =~= self.columns@.take(i as int),
            decreases self.columns.len() - i,
        {
            columns.push(self.columns[i].clone());
            i = i + 1;
        }
        proof {
            assert(columns@ =~= self.columns@);
        }
        Schema { columns }
    }
}

impl Schema {
    /// A schema over `columns`, unless two of them share a name: then the
    /// error names the first column whose name was already used.
    pub fn try_new(columns: Vec<Column>) -> (r: Result<Schema, SqlError>)
        ensures
            r is Ok <==> distinct_names(columns_view(columns@)),
            r matches Ok(s) ==> s@ == columns_view(columns@),
            r matches Err(e) ==> e@ == duplicate_column_message(
                columns_view(columns@)[first_duplicate(
                    columns_view(columns@),
                    columns@.len() as int,
                )].name,
            ),
    {
        let ghost cv = columns_view(columns@);
        let mut i: usize = 0;
        while i < columns.len()
            invariant
                cv == columns_view(columns@),
                i <= columns.len(),
                first_duplicate(cv, i as int) == -1,
            decreases columns.len() - i,
        {
            let mut k: usize = 0;
            while k < i
                invariant
                    cv == columns_view(columns@),
                    k <= i < columns.len(),
                    first_duplicate(cv, i as int) == -1,
                    forall|m: int| 0 <= m < k ==> #[trigger] cv[m].name != cv[i as int].name,
                decreases i - k,
            {
                if columns[k].name.same_as(&columns[i].name) {
                    proof {
                        assert(cv[k as int] == columns@[k as int]@);
                        assert(cv[i as int] == columns@[i as int]@);
                        assert(cv[k as int].name == cv[i as int].name);
                        assert(repeats_earlier(cv, i as int));
                        assert(first_duplicate(cv, i + 1) == i);
                        lemma_first_duplicate_stable(cv, i + 1, columns@.len() as int);
                        lemma_first_duplicate(cv, columns@.len() as int);
                        assert(cv.take(columns@.len() as int) =~= cv);
                    }
                    let mut message = String::from_str("Duplicate column name: ");
                    message.append(columns[i].name.as_str());
                    return Err(SqlError::from_message(message));
                }
                proof {
                    assert(cv[k as int] == columns@[k as int]@);
                    assert(cv[i as int] == columns@[i as int]@);
                }
                k = k + 1;
            }
            proof {
                assert(!repeats_earlier(cv, i as int));
            }
            i = i + 1;
        }
        proof {
            lemma_first_duplicate(cv, columns@.len() as int);
            assert(cv.take(columns@.len() as int) =~= cv);
        }
        Ok(Schema { columns })
    }

    /// The position of the column named `name`, if there is one.
    pub fn index_of(&self, name: &ColumnName) -> (r: Option<usize>)
        ensures
            r matches Some(i) ==> column_position(self@, name@) == Some(i as int) && i < self@.len(),
            r is None ==> column_position(self@, name@) is None,
    {
        proof {
            lemma_position_from(self@, name@, 0);
        }
        let ghost cv = self@;
        let mut i: usize = 0;
        while i < self.columns.len()
            invariant
                cv == columns_view(self.columns@),
                i <= self.columns.len(),
                column_position(cv, name@) == position_from(cv, name@, i as int),
            decreases self.columns.len() - i,
        {
            if self.columns[i].name.same_as(name) {
                return Some(i);
            }
            i = i + 1;
        }
        None
    }

    /// The columns, in order.
    pub fn columns(&self) -> (r: &Vec<Column>)
        ensures
            columns_view(r@) == self@,
            distinct_names(self@),
    {
        proof {
            use_type_invariant(self);
        }
        &self.columns
    }
}

} // verus!
