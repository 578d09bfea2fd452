//! Scalar types and values, and the validated names of tables and columns.

use vstd::prelude::*;
use crate::text::chars_of;

verus! {

/// The declared type of a column.
#[derive(Clone, Copy, Debug, PartialEq, Eq, Structural)]
pub enum DataType {
    /// 64-bit signed integer.
    Int,
    /// UTF-8 text.
    Text,
}

/// What a value is seen as: its integer, or the characters of its text.
pub enum ValueView {
    Int(i64),
    Text(Seq<char>),
}

/// A value stored in a table.
#[derive(Debug, PartialEq)]
pub enum Value {
    /// 64-bit signed integer.
    Int(i64),
    /// UTF-8 text.
    Text(String),
}

impl View for Value {
    type V = ValueView;

    open spec fn view(&self) -> ValueView {
        match self {
            Value::Int(i) => ValueView::Int(*i),
            Value::Text(s) => ValueView::Text(s@),
        }
    }
}

/// The declared type that a value belongs to.
pub open spec fn kind_of(v: ValueView) -> DataType {
    match v {
        ValueView::Int(_) => DataType::Int,
        ValueView::Text(_) => DataType::Text,
    }
}

/// The views of a sequence of values.
pub open spec fn values_view(vs: Seq<Value>) -> Seq<ValueView> {
    vs.map_values(|v: Value| v@)
}

/// The name of a type as messages print it.
pub open spec fn type_word(d: DataType) -> Seq<char> {
    match d {
        DataType::Int => "Int"@,
        DataType::Text => "Text"@,
    }
}

impl DataType {
    /// Whether a value of this view may stand in a column of this type.
    pub open spec fn admits(self, v: ValueView) -> bool {
        kind_of(v) == self
    }

    /// Whether `value` may stand in a column of this type.
    pub fn matches(&self, value: &Value) -> (r: bool)
        ensures
            r == self.admits(value@),
    {
        match (self, value) {
            (DataType::Int, Value::Int(_)) => true,
            (DataType::Text, Value::Text(_)) => true,
            _ => false,
        }
    }

    /// The integer type.
    pub fn new_int() -> (r: DataType)
        ensures
            r == DataType::Int,
    {
        DataType::Int
    }

    /// The text type.
    pub fn new_text() -> (r: DataType)
        ensures
            r == DataType::Text,
    {
        DataType::Text
    }

    /// The name of this type as messages print it.
    pub fn word(&self) -> (r: String)
        ensures
            r@ == type_word(*self),
    {
        match self {
            DataType::Int => String::from_str("Int"),
            DataType::Text => String::from_str("Text"),
        }
    }
}

impl Clone for Value {
    fn clone(&self) -> (r: Value)
        ensures
            r == *self,
    {
        match self {
            Value::Int(i) => Value::Int(*i),
            Value::Text(s) => Value::Text(s.clone()),
        }
    }
}

impl Value {
    /// An integer value.
    pub fn new_int(val: i64) -> (r: Value)
        ensures
            r@ == ValueView::Int(val),
    {
        Value::Int(val)
    }

    /// A text value.
    pub fn new_text(val: String) -> (r: Value)
        ensures
            r@ == ValueView::Text(val@),
    {
        Value::Text(val)
    }

    /// The type this value belongs to.
    pub fn data_type(&self) -> (r: DataType)
        ensures
            r == kind_of(self@),
    {
        match self {
            Value::Int(_) => DataType::Int,
            Value::Text(_) => DataType::Text,
        }
    }
}

/// An ASCII letter.
pub open spec fn is_letter(c: char) -> bool {
    ('a' <= c && c <= 'z') || ('A' <= c && c <= 'Z')
}

/// An ASCII digit.
pub open spec fn is_digit(c: char) -> bool {
    '0' <= c && c <= '9'
}

/// A character that may follow the first one of a name.
pub open spec fn is_name_char(c: char) -> bool {
    is_letter(c) || is_digit(c) || c == '_'
}

/// A well-formed name: an ASCII letter, then letters, digits or underscores.
pub open spec fn valid_name(s: Seq<char>) -> bool {
    &&& s.len() > 0
    &&& is_letter(s[0])
    &&& forall|i: int| 1 <= i < s.len() ==> is_name_char(#[trigger] s[i])
}

/// The first position after the first character, and below `n`, that holds a
/// character no name may hold; -1 if there is none.
pub open spec fn first_bad_char(s: Seq<char>, n: int) -> int
    decreases n,
{
    if n <= 1 {
        -1
    } else if first_bad_char(s, n - 1) >= 0 {
        first_bad_char(s, n - 1)
    } else if !is_name_char(s[n - 1]) {
        n - 1
    } else {
        -1
    }
}

/// Why `s` is not a well-formed name of the given kind ("Table", "Column").
pub open spec fn name_error(kind: Seq<char>, s: Seq<char>) -> Seq<char> {
    if s.len() == 0 {
        kind + " name cannot be empty"@
    } else if !is_letter(s[0]) {
        kind + " name must start with a letter"@
    } else if s[first_bad_char(s, s.len() as int)] == ' ' {
        kind + " name cannot contain spaces"@
    } else {
        kind + " name can only contain ASCII letters, digits, or underscores"@
    }
}

/// The first character no name may hold is the first one that fails the rule.
pub proof fn lemma_first_bad_char(s: Seq<char>, n: int)
    requires
        n <= s.len(),
    ensures
        first_bad_char(s, n) == -1 <==> (forall|i: int| 1 <= i < n ==> is_name_char(#[trigger] s[i])),
        first_bad_char(s, n) != -1 ==> 1 <= first_bad_char(s, n) < n && !is_name_char(
            s[first_bad_char(s, n)],
        ),
    decreases n,
{
    if n > 1 {
        lemma_first_bad_char(s, n - 1);
    }
}

/// Checks that `name` is a well-formed name; `kind` prefixes the message.
fn validate_name(kind: &str, name: &str) -> (r: Result<(), String>)
    ensures
        r is Ok <==> valid_name(name@),
        r matches Err(m) ==> m@ == name_error(kind@, name@),
{
    let chars = chars_of(name);
    if chars.len() == 0 {
        return Err(String::from_str(kind).concat(" name cannot be empty"));
    }
    let first = chars[0];
    if !(('a' <= first && first <= 'z') || ('A' <= first && first <= 'Z')) {
        return Err(String::from_str(kind).concat(" name must start with a letter"));
    }
    let mut i: usize = 1;
    while i < chars.len()
        invariant
            chars@ == name@,
            1 <= i <= chars.len(),
            is_letter(name@[0]),
            first_bad_char(name@, i as int) == -1,
            forall|j: int| 1 <= j < i ==> is_name_char(#[trigger] name@[j]),
        decreases chars.len() - i,
    {
        let c = chars[i];
        if ('a' <= c && c <= 'z') || ('A' <= c && c <= 'Z') || ('0' <= c && c <= '9') || c
            == '_' {
            i = i + 1;
        } else {
            proof {
                assert(first_bad_char(name@, (i + 1) as int) == i as int);
                lemma_first_bad_char(name@, name@.len() as int);
                lemma_prefix_bad_char(name@, (i + 1) as int, name@.len() as int);
            }
            if c == ' ' {
                return Err(String::from_str(kind).concat(" name cannot contain spaces"));
            }
            return Err(
                String::from_str(kind).concat(
                    " name can only contain ASCII letters, digits, or underscores",
                ),
            );
        }
    }
    Ok(())
}

/// Once a bad character is found, looking further does not move it.
proof fn lemma_prefix_bad_char(s: Seq<char>, n: int, m: int)
    requires
        n <= m <= s.len(),
        first_bad_char(s, n) >= 0,
    ensures
        first_bad_char(s, m) == first_bad_char(s, n),
    decreases m - n,
{
    if m > n {
        lemma_prefix_bad_char(s, n, m - 1);
    }
}

/// The name of a table: always well formed.
#[derive(Debug, PartialEq, Eq)]
pub struct TableName(String);

impl TableName {
    #[verifier::type_invariant]
    spec fn well_formed(self) -> bool {
        valid_name(self.0@)
    }
}

impl View for TableName {
    type V = Seq<char>;

    closed spec fn view(&self) -> Seq<char> {
        self.0@
    }
}

impl Clone for TableName {
    fn clone(&self) -> (r: TableName)
        ensures
            r == *self,
    {
        proof {
            use_type_invariant(self);
        }
        TableName(self.0.clone())
    }
}

impl TableName {
    /// A table name, if `name` is well formed.
    pub fn new(name: &str) -> (r: Result<TableName, String>)
        ensures
            r is Ok <==> valid_name(name@),
            r matches Ok(t) ==> t@ == name@,
            r matches Err(m) ==> m@ == name_error("Table"@, name@),
    {
        validate_name("Table", name)?;
        Ok(TableName(String::from_str(name)))
    }

    /// The name's text.
    pub fn as_str(&self) -> (r: &str)
        ensures
            r@ == self@,
    {
        self.0.as_str()
    }

}

/// The name of a column: always well formed.
#[derive(Debug, PartialEq, Eq)]
pub struct ColumnName(String);

impl ColumnName {
    #[verifier::type_invariant]
    spec fn well_formed(self) -> bool {
        valid_name(self.0@)
    }
}

impl View for ColumnName {
    type V = Seq<char>;

    closed spec fn view(&self) -> Seq<char> {
        self.0@
    }
}

impl Clone for ColumnName {
    fn clone(&self) -> (r: ColumnName)
        ensures
            r == *self,
    {
        proof {
            use_type_invariant(self);
        }
        ColumnName(self.0.clone())
    }
}

impl ColumnName {
    /// A column name, if `name` is well formed.
    pub fn new(name: &str) -> (r: Result<ColumnName, String>)
        ensures
            r is Ok <==> valid_name(name@),
            r matches Ok(c) ==> c@ == name@,
            r matches Err(m) ==> m@ == name_error("Column"@, name@),
    {
        validate_name("Column", name)?;
        Ok(ColumnName(String::from_str(name)))
    }

    /// The name's text.
    pub fn as_str(&self) -> (r: &str)
        ensures
            r@ == self@,
    {
        self.0.as_str()
    }

    /// Whether two column names are the same.
    pub fn same_as(&self, other: &ColumnName) -> (r: bool)
        ensures
            r == (self@ == other@),
    {
        self.0 == other.0
    }
}

impl TableName {
    /// Whether two table names are the same.
    pub fn same_as(&self, other: &TableName) -> (r: bool)
        ensures
            r == (self@ == other@),
    {
        self.0 == other.0
    }
}

} // verus!
