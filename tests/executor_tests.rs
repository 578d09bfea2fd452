use mini_rust_sgbd::ast::{ASTNode, CreateTableStmt, InsertStmt, SelectStmt};
use mini_rust_sgbd::db::Database;
use mini_rust_sgbd::error::SqlError;
use mini_rust_sgbd::executor::{Executor, Output};
use mini_rust_sgbd::schema::Column;
use mini_rust_sgbd::session::{LineAction, classify_line, run_sql};
use mini_rust_sgbd::types::{ColumnName, DataType, TableName, Value};

fn setup_db() -> Database {
    Database::new()
}

fn rows_of(out: Output) -> Vec<Vec<Value>> {
    match out {
        Output::Rows(rows) => rows.iter().map(|r| r.values().clone()).collect(),
        Output::Done => panic!("expected rows"),
    }
}

#[test]
fn create_table_adds_table() {
    let mut db = setup_db();
    let stmt = CreateTableStmt {
        name: TableName::new("users").unwrap(),
        columns: vec![
            Column::new(ColumnName::new("id").unwrap(), DataType::Int),
            Column::new(ColumnName::new("name").unwrap(), DataType::Text),
        ],
    };
    let out = Executor::execute(ASTNode::CreateTable(stmt), &mut db).unwrap();
    assert_eq!(out, Output::Done);
    assert!(db.table(&TableName::new("users").unwrap()).is_some());
}

#[test]
fn insert_and_select_roundtrip() {
    let mut db = setup_db();
    Executor::execute(
        ASTNode::CreateTable(CreateTableStmt {
            name: TableName::new("users").unwrap(),
            columns: vec![
                Column::new(ColumnName::new("id").unwrap(), DataType::Int),
                Column::new(ColumnName::new("name").unwrap(), DataType::Text),
            ],
        }),
        &mut db,
    )
    .unwrap();

    Executor::execute(
        ASTNode::Insert(InsertStmt {
            table: TableName::new("users").unwrap(),
            values: vec![Value::Int(1), Value::Text("Alice".into())],
        }),
        &mut db,
    )
    .unwrap();

    let out = Executor::execute(
        ASTNode::Select(SelectStmt { table: TableName::new("users").unwrap(), columns: None }),
        &mut db,
    )
    .unwrap();

    match out {
        Output::Rows(rows) => {
            assert_eq!(rows.len(), 1);
            assert_eq!(rows[0].values(), &vec![Value::Int(1), Value::Text("Alice".into())]);
        }
        _ => panic!("expected rows"),
    }
}

#[test]
fn select_projection_by_column_names() {
    let mut db = setup_db();
    Executor::execute(
        ASTNode::CreateTable(CreateTableStmt {
            name: TableName::new("t").unwrap(),
            columns: vec![
                Column::new(ColumnName::new("a").unwrap(), DataType::Int),
                Column::new(ColumnName::new("b").unwrap(), DataType::Int),
            ],
        }),
        &mut db,
    )
    .unwrap();

    Executor::execute(
        ASTNode::Insert(InsertStmt {
            table: TableName::new("t").unwrap(),
            values: vec![Value::Int(10), Value::Int(20)],
        }),
        &mut db,
    )
    .unwrap();

    let out = Executor::execute(
        ASTNode::Select(SelectStmt {
            table: TableName::new("t").unwrap(),
            columns: Some(vec![ColumnName::new("b").unwrap()]),
        }),
        &mut db,
    )
    .unwrap();

    match out {
        Output::Rows(rows) => {
            assert_eq!(rows[0].values(), &vec![Value::Int(20)]);
        }
        _ => panic!("expected rows"),
    }
}

#[test]
fn errors_on_unknown_table_or_column() {
    let mut db = setup_db();
    let e = Executor::execute(
        ASTNode::Insert(InsertStmt { table: TableName::new("nosuch").unwrap(), values: vec![] }),
        &mut db,
    )
    .unwrap_err();
    assert!(matches!(e, SqlError::Core { .. }));

    Executor::execute(
        ASTNode::CreateTable(CreateTableStmt {
            name: TableName::new("t").unwrap(),
            columns: vec![Column::new(ColumnName::new("a").unwrap(), DataType::Int)],
        }),
        &mut db,
    )
    .unwrap();

    let e = Executor::execute(
        ASTNode::Select(SelectStmt {
            table: TableName::new("t").unwrap(),
            columns: Some(vec![ColumnName::new("b").unwrap()]),
        }),
        &mut db,
    )
    .unwrap_err();
    assert!(matches!(e, SqlError::Core { .. }));
}

#[test]
fn create_table_pipeline_executes_ok() {
    let mut db = Database::new();

    let stmt = CreateTableStmt {
        name: TableName::new("t").unwrap(),
        columns: vec![Column::new(ColumnName::new("id").unwrap(), DataType::Int)],
    };
    let ast = ASTNode::CreateTable(stmt);
    let out = Executor::execute(ast, &mut db).unwrap();

    assert_eq!(out, Output::Done);
    assert!(db.table(&TableName::new("t").unwrap()).is_some());
}

#[test]
fn exit_and_quit_commands_match() {
    assert!("exit".eq_ignore_ascii_case("EXIT"));
    assert!("quit".eq_ignore_ascii_case("Quit"));
}

#[test]
fn classify_session_lines() {
    assert_eq!(classify_line("EXIT"), LineAction::Quit);
    assert_eq!(classify_line("Quit"), LineAction::Quit);
    assert_eq!(classify_line(""), LineAction::Skip);
    assert_eq!(classify_line("exits"), LineAction::Run);
    assert_eq!(classify_line("SELECT * FROM t"), LineAction::Run);
}

// ---- end-to-end scenarios ----

fn users_db() -> Database {
    let mut db = Database::new();
    let out = run_sql("CREATE TABLE users (id Int, name Text);", &mut db).unwrap();
    assert_eq!(out, Output::Done);
    db
}

#[test]
fn scenario_create_table() {
    let db = users_db();
    let users = db.table(&TableName::new("users").unwrap()).unwrap();
    assert_eq!(users.rows().len(), 0);
    assert_eq!(users.schema().columns().len(), 2);
}

#[test]
fn scenario_insert_then_select_all() {
    let mut db = users_db();
    assert_eq!(run_sql("INSERT INTO users VALUES (1, 'Alice');", &mut db).unwrap(), Output::Done);
    let out = run_sql("SELECT * FROM users;", &mut db).unwrap();
    assert_eq!(rows_of(out), vec![vec![Value::Int(1), Value::Text("Alice".to_string())]]);
}

#[test]
fn scenario_select_one_column() {
    let mut db = users_db();
    run_sql("INSERT INTO users VALUES (1, 'Alice');", &mut db).unwrap();
    let out = run_sql("SELECT name FROM users;", &mut db).unwrap();
    assert_eq!(rows_of(out), vec![vec![Value::Text("Alice".to_string())]]);
}

#[test]
fn scenario_create_twice() {
    let mut db = users_db();
    let err = run_sql("CREATE TABLE users (id Int, name Text);", &mut db).unwrap_err();
    assert_eq!(err.message(), "Table with name 'users' already exists");
    assert!(err.message().contains("users"));
    assert_eq!(db.table_count(), 1);
}

#[test]
fn scenario_insert_wrong_arity() {
    let mut db = users_db();
    let err = run_sql("INSERT INTO users VALUES (1);", &mut db).unwrap_err();
    assert_eq!(err.message(), "Row has 1 values but schema has 2 columns");
    let users = db.table(&TableName::new("users").unwrap()).unwrap();
    assert_eq!(users.rows().len(), 0);
}

#[test]
fn scenario_select_unknown_column() {
    let mut db = users_db();
    run_sql("INSERT INTO users VALUES (1, 'Alice');", &mut db).unwrap();
    let err = run_sql("SELECT ghost FROM users;", &mut db).unwrap_err();
    assert_eq!(err.message(), "unknown column: ghost");
}

#[test]
fn select_keeps_insertion_order_and_allows_repeats() {
    let mut db = users_db();
    run_sql("INSERT INTO users VALUES (2, 'Bob');", &mut db).unwrap();
    run_sql("INSERT INTO users VALUES (1, 'Alice');", &mut db).unwrap();
    let out = run_sql("SELECT name, id, name FROM users", &mut db).unwrap();
    assert_eq!(
        rows_of(out),
        vec![
            vec![Value::Text("Bob".to_string()), Value::Int(2), Value::Text("Bob".to_string())],
            vec![Value::Text("Alice".to_string()), Value::Int(1), Value::Text("Alice".to_string())],
        ]
    );
}

#[test]
fn select_unknown_column_fails_on_empty_table() {
    let mut db = users_db();
    let err = run_sql("SELECT id, ghost, other FROM users", &mut db).unwrap_err();
    assert_eq!(err.message(), "unknown column: ghost");
}

#[test]
fn statements_on_unknown_tables() {
    let mut db = Database::new();
    assert_eq!(run_sql("SELECT * FROM nosuch", &mut db).unwrap_err().message(), "unknown table: nosuch");
    assert_eq!(
        run_sql("INSERT INTO nosuch VALUES (1)", &mut db).unwrap_err().message(),
        "unknown table: nosuch"
    );
}

#[test]
fn insert_wrong_type_and_duplicate_columns() {
    let mut db = users_db();
    let err = run_sql("INSERT INTO users VALUES ('1', 'Alice')", &mut db).unwrap_err();
    assert_eq!(err.message(), "Type mismatch at column 0: expected Int, got Text");
    let err = run_sql("CREATE TABLE t (a Int, a Text)", &mut db).unwrap_err();
    assert_eq!(err.message(), "Duplicate column name: a");
    assert_eq!(db.table_count(), 1);
}

#[test]
fn lexical_and_syntax_errors_change_nothing() {
    let mut db = users_db();
    assert!(run_sql("INSERT INTO users VALUES (1, 'A') #", &mut db).is_err());
    assert!(run_sql("INSERT INTO users VALUES (1, 'A'", &mut db).is_err());
    let users = db.table(&TableName::new("users").unwrap()).unwrap();
    assert_eq!(users.rows().len(), 0);
}
