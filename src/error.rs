//! The engine's error type: one category, carrying a descriptive message.

use vstd::prelude::*;

verus! {

/// An error of the engine. Every failure is reported as a message.
#[derive(Debug, PartialEq)]
pub enum SqlError {
    /// An error with a descriptive message.
    Core { message: String },
}

impl View for SqlError {
    type V = Seq<char>;

    /// An error is seen as its message.
    open spec fn view(&self) -> Seq<char> {
        match self {
            SqlError::Core { message } => message@,
        }
    }
}

impl SqlError {
    /// An error carrying a copy of `message`.
    pub fn new_core(message: &str) -> (r: SqlError)
        ensures
            r@ == message@,
    {
        SqlError::Core { message: String::from_str(message) }
    }

    /// An error carrying `message` itself.
    pub fn from_message(message: String) -> (r: SqlError)
        ensures
            r@ == message@,
    {
        SqlError::Core { message }
    }

    /// The error's message.
    pub fn message(&self) -> (r: &str)
        ensures
            r@ == self@,
    {
        match self {
            SqlError::Core { message } => message.as_str(),
        }
    }
}

/// The result type used throughout the engine.
pub type SqlResult<T> = Result<T, SqlError>;

/// What a result is seen as: its value's view, or the error's message.
pub open spec fn result_view<T: View>(r: Result<T, SqlError>) -> Result<T::V, Seq<char>> {
    match r {
        Ok(v) => Ok(v@),
        Err(e) => Err(e@),
    }
}

} // verus!
