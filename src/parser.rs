//! The parser: tokens to one statement, by recursive descent.
//!
//! Grammar (keywords and the words INTO and FROM in any case):
//!   CREATE TABLE name ( column type {, column type} ) [;]
//!   INSERT INTO name VALUES ( literal {, literal} ) [;]
//!   SELECT ( * | column {, column} ) FROM name [;]
//! A type is `Int` or `Text`; a literal is a number or a quoted text.
//! Tokens after a complete statement are not read.

use vstd::prelude::*;
use crate::ast::{ASTNode, AstView, CreateTableStmt, InsertStmt, SelectStmt, names_view};
use crate::error::{SqlError, SqlResult};
use crate::lexer::{ascii_upper, upper_text};
use crate::schema::{Column, ColumnView, columns_view};
use crate::token::{Token, TokenView, tokens_view};
use crate::types::{
    ColumnName,
    DataType,
    TableName,
    Value,
    ValueView,
    name_error,
    valid_name,
    values_view,
};

verus! {

/// The token at position `i`, if there is one.
pub open spec fn tok(ts: Seq<TokenView>, i: int) -> Option<TokenView> {
    if 0 <= i < ts.len() {
        Some(ts[i])
    } else {
        None
    }
}

/// The token at `i` is the symbol `c`.
pub open spec fn is_sym(ts: Seq<TokenView>, i: int, c: char) -> bool {
    match tok(ts, i) {
        Some(TokenView::Symbol { value, .. }) => value == c,
        _ => false,
    }
}

/// The token at `i` is the keyword `w`.
pub open spec fn is_kw(ts: Seq<TokenView>, i: int, w: Seq<char>) -> bool {
    match tok(ts, i) {
        Some(TokenView::Keyword { value, .. }) => value == w,
        _ => false,
    }
}

/// The text of the identifier at `i`, if the token there is one.
pub open spec fn ident(ts: Seq<TokenView>, i: int) -> Option<Seq<char>> {
    match tok(ts, i) {
        Some(TokenView::Identifier { value, .. }) => Some(value),
        _ => None,
    }
}

/// The token at `i` is an identifier that reads `w` in upper case.
pub open spec fn is_word(ts: Seq<TokenView>, i: int, w: Seq<char>) -> bool {
    match ident(ts, i) {
        Some(v) => ascii_upper(v) == w,
        None => false,
    }
}

/// The value of the literal at `i`, if the token there is one.
pub open spec fn literal(ts: Seq<TokenView>, i: int) -> Option<ValueView> {
    match tok(ts, i) {
        Some(TokenView::Number { value, .. }) => Some(ValueView::Int(value)),
        Some(TokenView::String { value, .. }) => Some(ValueView::Text(value)),
        _ => None,
    }
}

/// The type a word names: `Int` or `Text`, spelt exactly so.
pub open spec fn type_named(w: Seq<char>) -> Option<DataType> {
    if w == "Int"@ {
        Some(DataType::Int)
    } else if w == "Text"@ {
        Some(DataType::Text)
    } else {
        None
    }
}

/// The message for a type word that names no type.
pub open spec fn unknown_type_message(w: Seq<char>) -> Seq<char> {
    "Unknown type '"@ + w + "'"@
}

/// The message for a statement that starts with an unknown keyword.
pub open spec fn unexpected_keyword_message(w: Seq<char>) -> Seq<char> {
    "Unexpected keyword '"@ + w + "'"@
}

/// Column definitions from position `i` up to the closing `)`, after those
/// already read (`acc`).
pub open spec fn column_list(ts: Seq<TokenView>, i: int, acc: Seq<ColumnView>) -> Result<
    Seq<ColumnView>,
    Seq<char>,
>
    decreases ts.len() - i,
{
    match ident(ts, i) {
        None => Err("Expected column name"@),
        Some(n) => if !valid_name(n) {
            Err(name_error("Column"@, n))
        } else {
            match ident(ts, i + 1) {
                None => Err("Expected column type"@),
                Some(w) => match type_named(w) {
                    None => Err(unknown_type_message(w)),
                    Some(d) => {
                        let acc2 = acc.push(ColumnView { name: n, dtype: d });
                        if is_sym(ts, i + 2, ',') {
                            column_list(ts, i + 3, acc2)
                        } else if is_sym(ts, i + 2, ')') {
                            Ok(acc2)
                        } else {
                            Err("Expected ',' or ')' after column definition"@)
                        }
                    },
                },
            }
        },
    }
}

/// Literals from position `i` up to the closing `)`, after those already
/// read (`acc`).
pub open spec fn value_list(ts: Seq<TokenView>, i: int, acc: Seq<ValueView>) -> Result<
    Seq<ValueView>,
    Seq<char>,
>
    decreases ts.len() - i,
{
    match literal(ts, i) {
        None => Err("Expected a literal value"@),
        Some(v) => {
            let acc2 = acc.push(v);
            if is_sym(ts, i + 1, ',') {
                value_list(ts, i + 2, acc2)
            } else if is_sym(ts, i + 1, ')') {
                Ok(acc2)
            } else {
                Err("Expected ',' or ')' after value"@)
            }
        },
    }
}

/// Column names from position `i` on, after those already read (`acc`):
/// the names and the position after the last one.
pub open spec fn select_list(ts: Seq<TokenView>, i: int, acc: Seq<Seq<char>>) -> Result<
    (Seq<Seq<char>>, int),
    Seq<char>,
>
    decreases ts.len() - i,
{
    match ident(ts, i) {
        None => Err("Expected column name"@),
        Some(n) => if !valid_name(n) {
            Err(name_error("Column"@, n))
        } else if is_sym(ts, i + 1, ',') {
            select_list(ts, i + 2, acc.push(n))
        } else {
            Ok((acc.push(n), i + 1))
        },
    }
}

/// A CREATE TABLE statement; `ts[0]` is CREATE.
pub open spec fn create_statement(ts: Seq<TokenView>) -> Result<AstView, Seq<char>> {
    if !is_kw(ts, 1, "TABLE"@) {
        Err("Expected TABLE after CREATE"@)
    } else {
        match ident(ts, 2) {
            None => Err("Expected table name after TABLE"@),
            Some(n) => if !valid_name(n) {
                Err(name_error("Table"@, n))
            } else if !is_sym(ts, 3, '(') {
                Err("Expected '(' after table name"@)
            } else {
                match column_list(ts, 4, Seq::empty()) {
                    Ok(cols) => Ok(AstView::CreateTable { name: n, columns: cols }),
                    Err(e) => Err(e),
                }
            },
        }
    }
}

/// An INSERT statement; `ts[0]` is INSERT.
pub open spec fn insert_statement(ts: Seq<TokenView>) -> Result<AstView, Seq<char>> {
    if !is_word(ts, 1, "INTO"@) {
        Err("Expected INTO after INSERT"@)
    } else {
        match ident(ts, 2) {
            None => Err("Expected table name after INTO"@),
            Some(n) => if !valid_name(n) {
                Err(name_error("Table"@, n))
            } else if !is_kw(ts, 3, "VALUES"@) {
                Err("Expected VALUES after table name"@)
            } else if !is_sym(ts, 4, '(') {
                Err("Expected '(' after VALUES"@)
            } else {
                match value_list(ts, 5, Seq::empty()) {
                    Ok(vs) => Ok(AstView::Insert { table: n, values: vs }),
                    Err(e) => Err(e),
                }
            },
        }
    }
}

/// The FROM clause of a SELECT statement at position `i`.
pub open spec fn from_clause(ts: Seq<TokenView>, i: int, cols: Option<Seq<Seq<char>>>) -> Result<
    AstView,
    Seq<char>,
> {
    if !is_word(ts, i, "FROM"@) {
        Err("Expected FROM after column list"@)
    } else {
        match ident(ts, i + 1) {
            None => Err("Expected table name after FROM"@),
            Some(n) => if !valid_name(n) {
                Err(name_error("Table"@, n))
            } else {
                Ok(AstView::Select { table: n, columns: cols })
            },
        }
    }
}

/// A SELECT statement; `ts[0]` is SELECT.
pub open spec fn select_statement(ts: Seq<TokenView>) -> Result<AstView, Seq<char>> {
    if is_sym(ts, 1, '*') {
        from_clause(ts, 2, None)
    } else {
        match select_list(ts, 1, Seq::empty()) {
            Ok((cols, next)) => from_clause(ts, next, Some(cols)),
            Err(e) => Err(e),
        }
    }
}

/// The statement the tokens hold, or the first syntax error.
pub open spec fn parse_tokens(ts: Seq<TokenView>) -> Result<AstView, Seq<char>> {
    if ts.len() == 0 {
        Err("Empty token stream"@)
    } else {
        match ts[0] {
            TokenView::Keyword { value, .. } => if value == "CREATE"@ {
                create_statement(ts)
            } else if value == "INSERT"@ {
                insert_statement(ts)
            } else if value == "SELECT"@ {
                select_statement(ts)
            } else {
                Err(unexpected_keyword_message(value))
            },
            _ => Err("Expected a keyword at the beginning"@),
        }
    }
}

/// What a parse result is seen as.
pub open spec fn ast_result_view(r: SqlResult<ASTNode>) -> Result<AstView, Seq<char>> {
    match r {
        Ok(a) => Ok(a@),
        Err(e) => Err(e@),
    }
}

/// The text of the identifier at `i`, if the token there is one.
fn ident_at(tokens: &[Token], i: usize) -> (r: Option<&String>)
    ensures
        match r {
            Some(v) => ident(tokens_view(tokens@), i as int) == Some(v@) && i < tokens@.len(),
            None => ident(tokens_view(tokens@), i as int) is None,
        },
{
    if i < tokens.len() {
        match &tokens[i] {
            Token::Identifier { value, .. } => Some(value),
            _ => None,
        }
    } else {
        None
    }
}

/// Whether the token at `i` is the symbol `c`.
fn symbol_at(tokens: &[Token], i: usize, c: char) -> (r: bool)
    ensures
        r == is_sym(tokens_view(tokens@), i as int, c),
        r ==> i < tokens@.len(),
{
    if i < tokens.len() {
        match &tokens[i] {
            Token::Symbol { value, .. } => *value == c,
            _ => false,
        }
    } else {
        false
    }
}

/// Whether the token at `i` is the keyword `w`.
fn keyword_at(tokens: &[Token], i: usize, w: &str) -> (r: bool)
    ensures
        r == is_kw(tokens_view(tokens@), i as int, w@),
{
    if i < tokens.len() {
        match &tokens[i] {
            Token::Keyword { value, .. } => *value == String::from_str(w),
            _ => false,
        }
    } else {
        false
    }
}

/// Whether the token at `i` is an identifier reading `w` in upper case.
fn word_at(tokens: &[Token], i: usize, w: &str) -> (r: bool)
    ensures
        r == is_word(tokens_view(tokens@), i as int, w@),
        r ==> i < tokens@.len(),
{
    match ident_at(tokens, i) {
        Some(v) => upper_text(v.as_str()) == String::from_str(w),
        None => false,
    }
}

/// The value of the literal at `i`, if the token there is one.
fn literal_at(tokens: &[Token], i: usize) -> (r: Option<Value>)
    ensures
        match r {
            Some(v) => literal(tokens_view(tokens@), i as int) == Some(v@) && i < tokens@.len(),
            None => literal(tokens_view(tokens@), i as int) is None,
        },
{
    if i < tokens.len() {
        match &tokens[i] {
            Token::Number { value, .. } => Some(Value::Int(*value)),
            Token::String { value, .. } => Some(Value::Text(value.clone())),
            _ => None,
        }
    } else {
        None
    }
}

/// A message naming a word between quotes: `prefix'word'`.
fn quoted_message(prefix: &str, word: &String) -> (r: SqlError)
    ensures
        r@ == prefix@ + word@ + "'"@,
{
    let mut message = String::from_str(prefix);
    message.append(word.as_str());
    message.append("'");
    SqlError::from_message(message)
}

/// The parser of SQL statements.
pub struct Parser;

impl Parser {
    /// Parses the statement that `tokens` hold; the first token must be
    /// CREATE, INSERT or SELECT.
    pub fn parse(tokens: &[Token]) -> (r: SqlResult<ASTNode>)
        ensures
            ast_result_view(r) == parse_tokens(tokens_view(tokens@)),
    {
        if tokens.len() == 0 {
            return Err(SqlError::new_core("Empty token stream"));
        }
        match &tokens[0] {
            Token::Keyword { value, .. } => {
                if *value == String::from_str("CREATE") {
                    Self::parse_create_table(tokens)
                } else if *value == String::from_str("INSERT") {
                    Self::parse_insert(tokens)
                } else if *value == String::from_str("SELECT") {
                    Self::parse_select(tokens)
                } else {
                    Err(quoted_message("Unexpected keyword '", value))
                }
            },
            _ => Err(SqlError::new_core("Expected a keyword at the beginning")),
        }
    }

    fn parse_create_table(tokens: &[Token]) -> (r: SqlResult<ASTNode>)
        requires
            tokens@.len() > 0,
        ensures
            ast_result_view(r) == create_statement(tokens_view(tokens@)),
    {
        let ghost ts = tokens_view(tokens@);
        if !keyword_at(tokens, 1, "TABLE") {
            return Err(SqlError::new_core("Expected TABLE after CREATE"));
        }
        let table_name = match ident_at(tokens, 2) {
            Some(v) => match TableName::new(v.as_str()) {
                Ok(n) => n,
                Err(e) => return Err(SqlError::from_message(e)),
            },
            None => return Err(SqlError::new_core("Expected table name after TABLE")),
        };
        if !symbol_at(tokens, 3, '(') {
            return Err(SqlError::new_core("Expected '(' after table name"));
        }
        let mut columns: Vec<Column> = Vec::new();
        let mut i: usize = 4;
        proof {
            assert(columns_view(columns@) =~= Seq::<ColumnView>::empty());
        }
        let n = tokens.len();
        proof {
            assert(create_statement(ts) == match column_list(ts, 4, Seq::empty()) {
                Ok(cols) => Ok(AstView::CreateTable { name: table_name@, columns: cols }),
                Err(e) => Err::<AstView, Seq<char>>(e),
            });
        }
        loop
            invariant_except_break
                column_list(ts, 4, Seq::empty()) == column_list(ts, i as int, columns_view(columns@)),
            invariant
                ts == tokens_view(tokens@),
                n == tokens@.len(),
                4 <= i <= n,
                create_statement(ts) == match column_list(ts, 4, Seq::empty()) {
                    Ok(cols) => Ok(AstView::CreateTable { name: table_name@, columns: cols }),
                    Err(e) => Err::<AstView, Seq<char>>(e),
                },
            ensures
                column_list(ts, 4, Seq::empty()) == Ok::<Seq<ColumnView>, Seq<char>>(
                    columns_view(columns@),
                ),
            decreases tokens@.len() - i,
        {
            let name = match ident_at(tokens, i) {
                Some(v) => v,
                None => return Err(SqlError::new_core("Expected column name")),
            };
            let col_name = match ColumnName::new(name.as_str()) {
                Ok(c) => c,
                Err(e) => return Err(SqlError::from_message(e)),
            };
            let word = match ident_at(tokens, i + 1) {
                Some(v) => v,
                None => return Err(SqlError::new_core("Expected column type")),
            };
            let dtype = if *word == String::from_str("Int") {
                DataType::Int
            } else if *word == String::from_str("Text") {
                DataType::Text
            } else {
                return Err(quoted_message("Unknown type '", word));
            };
            let ghost before = columns_view(columns@);
            columns.push(Column::new(col_name, dtype));
            proof {
                assert(columns_view(columns@) =~= before.push(ColumnView { name: name@, dtype }));
            }
            if symbol_at(tokens, i + 2, ',') {
                i = i + 3;
            } else if symbol_at(tokens, i + 2, ')') {
                break;
            } else {
                return Err(SqlError::new_core("Expected ',' or ')' after column definition"));
            }
        }
        Ok(ASTNode::CreateTable(CreateTableStmt { name: table_name, columns }))
    }

    fn parse_insert(tokens: &[Token]) -> (r: SqlResult<ASTNode>)
        requires
            tokens@.len() > 0,
        ensures
            ast_result_view(r) == insert_statement(tokens_view(tokens@)),
    {
        let ghost ts = tokens_view(tokens@);
        if !word_at(tokens, 1, "INTO") {
            return Err(SqlError::new_core("Expected INTO after INSERT"));
        }
        let table = match ident_at(tokens, 2) {
            Some(v) => match TableName::new(v.as_str()) {
                Ok(n) => n,
                Err(e) => return Err(SqlError::from_message(e)),
            },
            None => return Err(SqlError::new_core("Expected table name after INTO")),
        };
        if !keyword_at(tokens, 3, "VALUES") {
            return Err(SqlError::new_core("Expected VALUES after table name"));
        }
        if !symbol_at(tokens, 4, '(') {
            return Err(SqlError::new_core("Expected '(' after VALUES"));
        }
        let mut values: Vec<Value> = Vec::new();
        let mut i: usize = 5;
        proof {
            assert(values_view(values@) =~= Seq::<ValueView>::empty());
        }
        let n = tokens.len();
        proof {
            assert(insert_statement(ts) == match value_list(ts, 5, Seq::empty()) {
                Ok(vs) => Ok(AstView::Insert { table: table@, values: vs }),
                Err(e) => Err::<AstView, Seq<char>>(e),
            });
        }
        loop
            invariant_except_break
                value_list(ts, 5, Seq::empty()) == value_list(ts, i as int, values_view(values@)),
            invariant
                ts == tokens_view(tokens@),
                n == tokens@.len(),
                5 <= i <= n,
                insert_statement(ts) == match value_list(ts, 5, Seq::empty()) {
                    Ok(vs) => Ok(AstView::Insert { table: table@, values: vs }),
                    Err(e) => Err::<AstView, Seq<char>>(e),
                },
            ensures
                value_list(ts, 5, Seq::empty()) == Ok::<Seq<ValueView>, Seq<char>>(
                    values_view(values@),
                ),
            decreases tokens@.len() - i,
        {
            let value = match literal_at(tokens, i) {
                Some(v) => v,
                None => return Err(SqlError::new_core("Expected a literal value")),
            };
            let ghost before = values_view(values@);
            let ghost seen = value@;
            values.push(value);
            proof {
                assert(values_view(values@) =~= before.push(seen));
            }
            if symbol_at(tokens, i + 1, ',') {
                i = i + 2;
            } else if symbol_at(tokens, i + 1, ')') {
                break;
            } else {
                return Err(SqlError::new_core("Expected ',' or ')' after value"));
            }
        }
        Ok(ASTNode::Insert(InsertStmt { table, values }))
    }

    fn parse_select(tokens: &[Token]) -> (r: SqlResult<ASTNode>)
        requires
            tokens@.len() > 0,
        ensures
            ast_result_view(r) == select_statement(tokens_view(tokens@)),
    {
        let ghost ts = tokens_view(tokens@);
        let n = tokens.len();
        let mut next: usize = 2;
        let columns = if symbol_at(tokens, 1, '*') {
            None
        } else {
            let mut names: Vec<ColumnName> = Vec::new();
            let mut i: usize = 1;
            proof {
                assert(names_view(names@) =~= Seq::<Seq<char>>::empty());
            }
            loop
                invariant_except_break
                    select_list(ts, 1, Seq::empty()) == select_list(
                        ts,
                        i as int,
                        names_view(names@),
                    ),
                invariant
                    ts == tokens_view(tokens@),
                    n == tokens@.len(),
                    1 <= i <= n,
                    !is_sym(ts, 1, '*'),
                ensures
                    next <= n,
                    select_list(ts, 1, Seq::empty()) == Ok::<(Seq<Seq<char>>, int), Seq<char>>(
                        (names_view(names@), next as int),
                    ),
                decreases tokens@.len() - i,
            {
                let name = match ident_at(tokens, i) {
                    Some(v) => v,
                    None => return Err(SqlError::new_core("Expected column name")),
                };
                let col_name = match ColumnName::new(name.as_str()) {
                    Ok(c) => c,
                    Err(e) => return Err(SqlError::from_message(e)),
                };
                let ghost before = names_view(names@);
                names.push(col_name);
                proof {
                    assert(names_view(names@) =~= before.push(name@));
                }
                if symbol_at(tokens, i + 1, ',') {
                    i = i + 2;
                } else {
                    next = i + 1;
                    break;
                }
            }
            Some(names)
        };
        if !word_at(tokens, next, "FROM") {
            return Err(SqlError::new_core("Expected FROM after column list"));
        }
        let table = match ident_at(tokens, next + 1) {
            Some(v) => match TableName::new(v.as_str()) {
                Ok(n) => n,
                Err(e) => return Err(SqlError::from_message(e)),
            },
            None => return Err(SqlError::new_core("Expected table name after FROM")),
        };
        Ok(ASTNode::Select(SelectStmt { table, columns }))
    }
}

} // verus!
