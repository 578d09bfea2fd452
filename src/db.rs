//! The database: a collection of tables with unique names.

use vstd::prelude::*;
use crate::error::SqlError;
use crate::schema::{ColumnView, Schema};
use crate::table::{Table, TableView};
use crate::types::{TableName, ValueView};

verus! {

/// The position of the first table at or after `i` named `name`.
pub open spec fn table_from(db: Seq<TableView>, name: Seq<char>, i: int) -> Option<int>
    decreases db.len() - i,
{
    if i < 0 || i >= db.len() {
        None
    } else if db[i].name == name {
        Some(i)
    } else {
        table_from(db, name, i + 1)
    }
}

/// The position of the table named `name`, if there is one.
pub open spec fn table_index(db: Seq<TableView>, name: Seq<char>) -> Option<int> {
    table_from(db, name, 0)
}

/// Whether a table named `name` exists.
pub open spec fn has_table(db: Seq<TableView>, name: Seq<char>) -> bool {
    table_index(db, name) is Some
}

/// The table named `name`, if there is one.
pub open spec fn lookup(db: Seq<TableView>, name: Seq<char>) -> Option<TableView> {
    match table_index(db, name) {
        Some(i) => Some(db[i]),
        None => None,
    }
}

/// No two tables share a name.
pub open spec fn distinct_tables(db: Seq<TableView>) -> bool {
    forall|i: int, j: int| 0 <= i < j < db.len() ==> #[trigger] db[i].name != #[trigger] db[j].name
}

/// Table names are distinct and every table is well formed.
pub open spec fn well_formed(db: Seq<TableView>) -> bool {
    &&& distinct_tables(db)
    &&& forall|i: int| 0 <= i < db.len() ==> (#[trigger] db[i]).wf()
}

/// The message for a table name already in use.
pub open spec fn duplicate_table_message(name: Seq<char>) -> Seq<char> {
    "Table with name '"@ + name + "' already exists"@
}

/// A new, empty table.
pub open spec fn empty_table(name: Seq<char>, columns: Seq<ColumnView>) -> TableView {
    TableView { name, columns, rows: Seq::<Seq<ValueView>>::empty() }
}

/// Creating a table: the new table and the database after it, or the
/// error and the database unchanged.
pub open spec fn create_outcome(db: Seq<TableView>, name: Seq<char>, columns: Seq<ColumnView>) -> (
    Result<TableView, Seq<char>>,
    Seq<TableView>,
) {
    if has_table(db, name) {
        (Err(duplicate_table_message(name)), db)
    } else {
        (Ok(empty_table(name, columns)), db.push(empty_table(name, columns)))
    }
}

/// A table found by `table_from` is one named `name`, and none before it is.
pub proof fn lemma_table_from(db: Seq<TableView>, name: Seq<char>, i: int)
    requires
        0 <= i <= db.len(),
    ensures
        table_from(db, name, i) matches Some(k) ==> i <= k < db.len() && db[k].name == name && (
        forall|j: int| i <= j < k ==> #[trigger] db[j].name != name),
        table_from(db, name, i) is None ==> forall|j: int|
            i <= j < db.len() ==> #[trigger] db[j].name != name,
    decreases db.len() - i,
{
    if i < db.len() {
        lemma_table_from(db, name, i + 1);
    }
}

/// Creating a table under a name that is already used fails and leaves the
/// database, and so its number of tables, as it was: in particular the
/// second of two creations under one name.
pub proof fn lemma_create_twice(
    db: Seq<TableView>,
    name: Seq<char>,
    first: Seq<ColumnView>,
    second: Seq<ColumnView>,
)
    ensures
        has_table(create_outcome(db, name, first).1, name),
        create_outcome(create_outcome(db, name, first).1, name, second) == (
            Err::<TableView, Seq<char>>(duplicate_table_message(name)),
            create_outcome(db, name, first).1,
        ),
{
    let after = create_outcome(db, name, first).1;
    if !has_table(db, name) {
        lemma_table_from(after, name, 0);
        assert(after[db.len() as int].name == name);
    }
}

/// A collection of tables, keyed by their names.
#[derive(Debug)]
pub struct Database {
    tables: Vec<Table>,
}

impl View for Database {
    type V = Seq<TableView>;

    closed spec fn view(&self) -> Seq<TableView> {
        self.tables@.map_values(|t: Table| t@)
    }
}

impl Database {
    /// An empty database.
    pub fn new() -> (r: Database)
        ensures
            r@ == Seq::<TableView>::empty(),
            well_formed(r@),
    {
        let d = Database { tables: Vec::new() };
        proof {
            assert(d@ =~= Seq::<TableView>::empty());
        }
        d
    }

    /// The position of the table named `name`.
    fn position(&self, name: &TableName) -> (r: Option<usize>)
        ensures
            r matches Some(i) ==> table_index(self@, name@) == Some(i as int) && i < self@.len(),
            r is None ==> table_index(self@, name@) is None,
    {
        let mut i: usize = 0;
        while i < self.tables.len()
            invariant
                i <= self.tables.len(),
                table_index(self@, name@) == table_from(self@, name@, i as int),
            decreases self.tables.len() - i,
        {
            proof {
                assert(self@[i as int] == self.tables@[i as int]@);
            }
            if self.tables[i].name().same_as(name) {
                proof {
                    lemma_table_from(self@, name@, 0);
                }
                return Some(i);
            }
            i = i + 1;
        }
        proof {
            lemma_table_from(self@, name@, 0);
        }
        None
    }

    /// Creates an empty table named `name`, unless a table of that name
    /// already exists: then the database is left as it was.
    pub fn create_table(&mut self, name: TableName, schema: Schema) -> (r: Result<&Table, SqlError>)
        ensures
            (match r {
                Ok(t) => Ok(t@),
                Err(e) => Err(e@),
            }, final(self)@) == create_outcome(old(self)@, name@, schema@),
            well_formed(old(self)@) ==> well_formed(final(self)@),
    {
        if self.position(&name).is_some() {
            let mut message = String::from_str("Table with name '");
            message.append(name.as_str());
            message.append("' already exists");
            return Err(SqlError::from_message(message));
        }
        let ghost before = self@;
        proof {
            lemma_table_from(before, name@, 0);
        }
        let table = Table::create(name, schema);
        self.tables.push(table);
        let last = self.tables.len() - 1;
        proof {
            assert(self@ =~= before.push(self.tables@[last as int]@));
        }
        Ok(&self.tables[last])
    }

    /// The table named `name`, if there is one.
    pub fn table(&self, name: &TableName) -> (r: Option<&Table>)
        ensures
            match r {
                Some(t) => lookup(self@, name@) == Some(t@),
                None => lookup(self@, name@) is None,
            },
    {
        match self.position(name) {
            Some(i) => {
                proof {
                    assert(self@[i as int] == self.tables@[i as int]@);
                }
                Some(&self.tables[i])
            },
            None => None,
        }
    }

    /// The table named `name`, if there is one, to be changed in place.
    pub fn table_mut(&mut self, name: &TableName) -> (r: Option<&mut Table>)
        ensures
            match r {
                Some(t) => table_index(old(self)@, name@) matches Some(i) && (*t)@ == old(self)@[i]
                    && final(self)@ == old(self)@.update(i, (*final(t))@),
                None => table_index(old(self)@, name@) is None && final(self)@ == old(self)@,
            },
    {
        match self.position(name) {
            Some(i) => {
                let ghost before = self.tables@;
                let t = &mut self.tables[i];
                proof {
                    assert(after_borrow(self.tables)@ == before.update(i as int, *final(t)));
                }
                Some(t)
            },
            None => None,
        }
    }

    /// The number of tables.
    pub fn table_count(&self) -> (r: usize)
        ensures
            r == self@.len(),
    {
        self.tables.len()
    }
}

} // verus!
