use mini_rust_sgbd::ast::{ASTNode, CreateTableStmt, InsertStmt, SelectStmt};
use mini_rust_sgbd::lexer::lexer;
use mini_rust_sgbd::parser::Parser;
use mini_rust_sgbd::schema::Column;
use mini_rust_sgbd::token::Token;
use mini_rust_sgbd::types::{ColumnName, DataType, TableName, Value};

// ---- statements ----

#[test]
fn create_table_stmt_struct() {
    let col1 = Column::new(ColumnName::new("id").unwrap(), DataType::Int);
    let col2 = Column::new(ColumnName::new("name").unwrap(), DataType::Text);
    let stmt = CreateTableStmt {
        name: TableName::new("users").unwrap(),
        columns: vec![col1.clone(), col2.clone()],
    };
    assert_eq!(stmt.columns.len(), 2);
    assert_eq!(stmt.name.as_str(), "users");
}

#[test]
fn insert_stmt_struct() {
    let stmt = InsertStmt {
        table: TableName::new("users").unwrap(),
        values: vec![Value::Int(1), Value::Text("Alice".to_string())],
    };
    assert_eq!(stmt.values.len(), 2);
    assert_eq!(stmt.table.as_str(), "users");
}

#[test]
fn select_stmt_struct() {
    let stmt = SelectStmt {
        table: TableName::new("users").unwrap(),
        columns: Some(vec![ColumnName::new("id").unwrap()]),
    };
    assert_eq!(stmt.columns.as_ref().unwrap().len(), 1);
    assert_eq!(stmt.table.as_str(), "users");
}

#[test]
fn ast_node_enum() {
    let create = ASTNode::CreateTable(CreateTableStmt {
        name: TableName::new("users").unwrap(),
        columns: vec![],
    });
    let insert = ASTNode::Insert(InsertStmt {
        table: TableName::new("users").unwrap(),
        values: vec![],
    });
    let select = ASTNode::Select(SelectStmt {
        table: TableName::new("users").unwrap(),
        columns: None,
    });

    match create {
        ASTNode::CreateTable(_) => {}
        _ => panic!("Expected CreateTable variant"),
    }
    match insert {
        ASTNode::Insert(_) => {}
        _ => panic!("Expected Insert variant"),
    }
    match select {
        ASTNode::Select(_) => {}
        _ => panic!("Expected Select variant"),
    }
}

// ---- lexer ----

#[test]
fn lexer_basic_create_table() {
    let sql = "CREATE TABLE users (id Int);";
    let tokens = lexer(sql).unwrap();

    let expected = vec![
        Token::Keyword { value: "CREATE".to_string(), pos: Some(0) },
        Token::Keyword { value: "TABLE".to_string(), pos: Some(7) },
        Token::Identifier { value: "users".to_string(), pos: Some(13) },
        Token::Symbol { value: '(', pos: Some(19) },
        Token::Identifier { value: "id".to_string(), pos: Some(20) },
        Token::Identifier { value: "Int".to_string(), pos: Some(23) },
        Token::Symbol { value: ')', pos: Some(26) },
        Token::Symbol { value: ';', pos: Some(27) },
    ];

    assert_eq!(tokens, expected);
}

#[test]
fn lexer_keywords_ignore_case() {
    let tokens = lexer("select Values tables").unwrap();
    assert_eq!(
        tokens,
        vec![
            Token::Keyword { value: "SELECT".to_string(), pos: Some(0) },
            Token::Keyword { value: "VALUES".to_string(), pos: Some(7) },
            Token::Identifier { value: "tables".to_string(), pos: Some(14) },
        ]
    );
}

#[test]
fn lexer_numbers_strings_and_symbols() {
    let tokens = lexer("(42,'Al ice')\t*\n;").unwrap();
    assert_eq!(
        tokens,
        vec![
            Token::Symbol { value: '(', pos: Some(0) },
            Token::Number { value: 42, pos: Some(1) },
            Token::Symbol { value: ',', pos: Some(3) },
            Token::String { value: "Al ice".to_string(), pos: Some(4) },
            Token::Symbol { value: ')', pos: Some(12) },
            Token::Symbol { value: '*', pos: Some(14) },
            Token::Symbol { value: ';', pos: Some(16) },
        ]
    );
}

#[test]
fn lexer_unterminated_string_runs_to_end() {
    let tokens = lexer("x 'abc").unwrap();
    assert_eq!(
        tokens,
        vec![
            Token::Identifier { value: "x".to_string(), pos: Some(0) },
            Token::String { value: "abc".to_string(), pos: Some(2) },
        ]
    );
}

#[test]
fn lexer_number_limits() {
    let tokens = lexer("9223372036854775807").unwrap();
    assert_eq!(tokens, vec![Token::Number { value: i64::MAX, pos: Some(0) }]);
    let err = lexer("a 9223372036854775808").unwrap_err();
    assert_eq!(err.message(), "Invalid number at position 2");
}

#[test]
fn lexer_unexpected_character() {
    let err = lexer("SELECT a = 1").unwrap_err();
    assert_eq!(err.message(), "Unexpected character '=' at position 9");
}

#[test]
fn lexer_empty_input() {
    assert_eq!(lexer("  \r\n").unwrap(), vec![]);
}

// ---- tokens ----

#[test]
fn keyword_token_value() {
    let t = Token::Keyword { value: "SELECT".to_string(), pos: Some(0) };
    assert_eq!(t.value(), "SELECT");
    assert_eq!(t.pos(), Some(0));
}

#[test]
fn identifier_token_value() {
    let t = Token::Identifier { value: "user_id".to_string(), pos: None };
    assert_eq!(t.value(), "user_id");
    assert_eq!(t.pos(), None);
}

#[test]
fn number_token_value() {
    let t = Token::Number { value: 42, pos: Some(5) };
    assert_eq!(t.value(), "42");
    assert_eq!(t.pos(), Some(5));
}

#[test]
fn string_token_value() {
    let t = Token::String { value: "Alice".to_string(), pos: None };
    assert_eq!(t.value(), "Alice");
    assert_eq!(t.pos(), None);
}

#[test]
fn symbol_token_value() {
    let t = Token::Symbol { value: '(', pos: Some(3) };
    assert_eq!(t.value(), "(");
    assert_eq!(t.pos(), Some(3));
}

#[test]
fn number_token_value_extremes() {
    assert_eq!(Token::Number { value: 0, pos: None }.value(), "0");
    assert_eq!(Token::Number { value: -17, pos: None }.value(), "-17");
    assert_eq!(Token::Number { value: i64::MIN, pos: None }.value(), "-9223372036854775808");
    assert_eq!(Token::Number { value: i64::MAX, pos: None }.value(), "9223372036854775807");
}

// ---- parser ----

#[test]
fn parse_create_table_example() {
    let sql_tokens = vec![
        Token::Keyword { value: "CREATE".to_string(), pos: Some(0) },
        Token::Keyword { value: "TABLE".to_string(), pos: Some(7) },
        Token::Identifier { value: "users".to_string(), pos: Some(13) },
        Token::Symbol { value: '(', pos: Some(19) },
        Token::Identifier { value: "id".to_string(), pos: Some(20) },
        Token::Identifier { value: "Int".to_string(), pos: Some(23) },
        Token::Symbol { value: ',', pos: Some(26) },
        Token::Identifier { value: "name".to_string(), pos: Some(28) },
        Token::Identifier { value: "Text".to_string(), pos: Some(33) },
        Token::Symbol { value: ')', pos: Some(37) },
        Token::Symbol { value: ';', pos: Some(38) },
    ];

    let ast = Parser::parse(&sql_tokens).unwrap();
    match ast {
        ASTNode::CreateTable(stmt) => {
            assert_eq!(stmt.name.as_str(), "users");
            assert_eq!(stmt.columns.len(), 2);
            assert_eq!(stmt.columns[0].name.as_str(), "id");
            assert_eq!(stmt.columns[1].name.as_str(), "name");
        }
        _ => panic!("Expected CreateTable ASTNode"),
    }
}

fn parse_text(sql: &str) -> Result<ASTNode, String> {
    let tokens = lexer(sql).map_err(|e| e.message().to_string())?;
    Parser::parse(&tokens).map_err(|e| e.message().to_string())
}

#[test]
fn parse_insert_statement() {
    let ast = parse_text("insert into users values (1, 'Alice');").unwrap();
    assert_eq!(
        ast,
        ASTNode::Insert(InsertStmt {
            table: TableName::new("users").unwrap(),
            values: vec![Value::Int(1), Value::Text("Alice".to_string())],
        })
    );
}

#[test]
fn parse_select_statements() {
    let ast = parse_text("SELECT * FROM users;").unwrap();
    assert_eq!(ast, ASTNode::Select(SelectStmt { table: TableName::new("users").unwrap(), columns: None }));
    let ast = parse_text("SELECT name, id, name from users").unwrap();
    assert_eq!(
        ast,
        ASTNode::Select(SelectStmt {
            table: TableName::new("users").unwrap(),
            columns: Some(vec![
                ColumnName::new("name").unwrap(),
                ColumnName::new("id").unwrap(),
                ColumnName::new("name").unwrap(),
            ]),
        })
    );
}

#[test]
fn parse_errors() {
    assert_eq!(Parser::parse(&[]).unwrap_err().message(), "Empty token stream");
    assert_eq!(parse_text("users").unwrap_err(), "Expected a keyword at the beginning");
    assert_eq!(parse_text("DELETE users").unwrap_err(), "Unexpected keyword 'DELETE'");
    assert_eq!(parse_text("CREATE users").unwrap_err(), "Expected TABLE after CREATE");
    assert_eq!(parse_text("CREATE TABLE (").unwrap_err(), "Expected table name after TABLE");
    assert_eq!(parse_text("CREATE TABLE t id Int").unwrap_err(), "Expected '(' after table name");
    assert_eq!(parse_text("CREATE TABLE t (id Float)").unwrap_err(), "Unknown type 'Float'");
    assert_eq!(parse_text("CREATE TABLE t (id int)").unwrap_err(), "Unknown type 'int'");
    assert_eq!(parse_text("CREATE TABLE t (id)").unwrap_err(), "Expected column type");
    assert_eq!(parse_text("CREATE TABLE t (id Int").unwrap_err(), "Expected ',' or ')' after column definition");
    assert_eq!(parse_text("CREATE TABLE t ()").unwrap_err(), "Expected column name");
    assert_eq!(parse_text("INSERT users VALUES (1)").unwrap_err(), "Expected INTO after INSERT");
    assert_eq!(parse_text("INSERT INTO t (1)").unwrap_err(), "Expected VALUES after table name");
    assert_eq!(parse_text("INSERT INTO t VALUES 1").unwrap_err(), "Expected '(' after VALUES");
    assert_eq!(parse_text("INSERT INTO t VALUES (x)").unwrap_err(), "Expected a literal value");
    assert_eq!(parse_text("INSERT INTO t VALUES (1 2)").unwrap_err(), "Expected ',' or ')' after value");
    assert_eq!(parse_text("SELECT FROM t").unwrap_err(), "Expected FROM after column list");
    assert_eq!(parse_text("SELECT ; FROM t").unwrap_err(), "Expected column name");
    assert_eq!(parse_text("SELECT * t").unwrap_err(), "Expected FROM after column list");
    assert_eq!(parse_text("SELECT * FROM").unwrap_err(), "Expected table name after FROM");
}

#[test]
fn parse_validates_names_from_hand_built_tokens() {
    let tokens = vec![
        Token::Keyword { value: "CREATE".to_string(), pos: None },
        Token::Keyword { value: "TABLE".to_string(), pos: None },
        Token::Identifier { value: "bad name".to_string(), pos: None },
    ];
    assert_eq!(Parser::parse(&tokens).unwrap_err().message(), "Table name cannot contain spaces");
}
