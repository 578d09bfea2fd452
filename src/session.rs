//! One line of an interactive session: whether to stop, skip it, or run
//! it as SQL through lexer, parser and executor.

use vstd::prelude::*;
use crate::db::{Database, well_formed};
use crate::error::SqlResult;
use crate::executor::{Executor, Output, OutputView, execute_outcome, output_result_view};
use crate::lexer::{ascii_upper, lex, lexer, upper_text};
use crate::parser::{Parser, parse_tokens};
use crate::table::TableView;
use crate::token::tokens_view;

verus! {

/// Running SQL text: what it returns and the database after it. A lexical
/// or syntax error changes nothing.
pub open spec fn run_outcome(sql: Seq<char>, db: Seq<TableView>) -> (
    Result<OutputView, Seq<char>>,
    Seq<TableView>,
) {
    match lex(sql) {
        Err(e) => (Err(e), db),
        Ok(ts) => match parse_tokens(ts) {
            Err(e) => (Err(e), db),
            Ok(ast) => execute_outcome(ast, db),
        },
    }
}

/// Lexes, parses and executes one statement of SQL text.
pub fn run_sql(sql: &str, db: &mut Database) -> (r: SqlResult<Output>)
    requires
        well_formed(old(db)@),
    ensures
        (output_result_view(r), final(db)@) == run_outcome(sql@, old(db)@),
        well_formed(final(db)@),
{
    let tokens = lexer(sql)?;
    let ast = Parser::parse(tokens.as_slice())?;
    Executor::execute(ast, db)
}

/// What to do with one line of input.
#[derive(Debug, Clone, Copy, PartialEq, Eq, Structural)]
pub enum LineAction {
    /// End the session.
    Quit,
    /// Nothing to run.
    Skip,
    /// Run the line as SQL.
    Run,
}

/// What to do with a line, already trimmed: `exit` or `quit` in any case
/// ends the session, an empty line is skipped, anything else is run.
pub open spec fn line_action(line: Seq<char>) -> LineAction {
    if ascii_upper(line) == "EXIT"@ || ascii_upper(line) == "QUIT"@ {
        LineAction::Quit
    } else if line.len() == 0 {
        LineAction::Skip
    } else {
        LineAction::Run
    }
}

/// Decides what to do with a line, already trimmed.
pub fn classify_line(line: &str) -> (r: LineAction)
    ensures
        r == line_action(line@),
{
    let upper = upper_text(line);
    if upper == String::from_str("EXIT") || upper == String::from_str("QUIT") {
        LineAction::Quit
    } else if line.is_empty() {
        LineAction::Skip
    } else {
        LineAction::Run
    }
}

} // verus!
