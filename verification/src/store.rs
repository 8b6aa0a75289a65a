//! The persistent store as the rest of the library sees it: statements and rows.
use crate::text::{self, same_text};
use vstd::prelude::*;

verus! {

/// One stored column value.
#[derive(Debug, PartialEq, Eq)]
pub enum Value {
    Null,
    Text(String),
    Integer(i64),
    Unsigned(u64),
}

/// The mathematical content of a [`Value`].
pub enum Datum {
    Null,
    Text(Seq<char>),
    Integer(int),
}

impl View for Value {
    type V = Datum;

    open spec fn view(&self) -> Datum {
        match self {
            Value::Null => Datum::Null,
            Value::Text(text) => Datum::Text(text@),
            Value::Integer(number) => Datum::Integer(*number as int),
            Value::Unsigned(number) => Datum::Integer(*number as int),
        }
    }
}

impl Value {
    pub fn text(text: &str) -> (value: Value)
        ensures
            value@ == Datum::Text(text@),
    {
        Value::Text(text.to_owned())
    }

    pub fn integer(number: i64) -> (value: Value)
        ensures
            value@ == Datum::Integer(number as int),
    {
        Value::Integer(number)
    }

    /// The text, or null where there is none.
    pub fn optional_text(text: &Option<String>) -> (value: Value)
        ensures
            value@ == datum_of_option(text::opt_view(*text)),
    {
        match text {
            Some(text) => Value::Text(text.clone()),
            None => Value::Null,
        }
    }
}

pub open spec fn datum_of_option(text: Option<Seq<char>>) -> Datum {
    match text {
        Some(text) => Datum::Text(text),
        None => Datum::Null,
    }
}

/// What a statement does.
#[derive(Debug, Clone, Copy, PartialEq, Eq, Structural)]
pub enum Verb {
    Begin,
    Commit,
    Rollback,
    Select,
    Insert,
    Update,
    Upsert,
    Delete,
}

/// How a filter compares a column with a value.
#[derive(Debug, Clone, Copy, PartialEq, Eq, Structural)]
pub enum Relation {
    Equal,
    Greater,
}

/// The direction of a sort.
#[derive(Debug, Clone, Copy, PartialEq, Eq, Structural)]
pub enum Direction {
    Ascending,
    Descending,
}

/// One statement for the store.
///
/// `Update` and `Upsert` reply with the rows they wrote; `Select` replies with the rows it found.
#[derive(Debug, PartialEq, Eq)]
pub struct Statement {
    pub verb: Verb,
    pub table: &'static str,
    pub values: Vec<(&'static str, Value)>,
    pub filters: Vec<(&'static str, Relation, Value)>,
    pub order: Option<(&'static str, Direction)>,
    pub limit: Option<usize>,
}

/// The mathematical content of a [`Statement`].
#[verifier::ext_equal]
pub struct Op {
    pub verb: Verb,
    pub table: Seq<char>,
    pub values: Seq<(Seq<char>, Datum)>,
    pub filters: Seq<(Seq<char>, Relation, Datum)>,
    pub order: Option<(Seq<char>, Direction)>,
    pub limit: Option<int>,
}

pub open spec fn values_view(values: Seq<(&'static str, Value)>) -> Seq<(Seq<char>, Datum)> {
    Seq::new(values.len(), |i: int| (values[i].0@, values[i].1@))
}

pub open spec fn filters_view(filters: Seq<(&'static str, Relation, Value)>) -> Seq<
    (Seq<char>, Relation, Datum),
> {
    Seq::new(filters.len(), |i: int| (filters[i].0@, filters[i].1, filters[i].2@))
}

impl View for Statement {
    type V = Op;

    open spec fn view(&self) -> Op {
        Op {
            verb: self.verb,
            table: self.table@,
            values: values_view(self.values@),
            filters: filters_view(self.filters@),
            order: match self.order {
                Some((column, direction)) => Some((column@, direction)),
                None => None,
            },
            limit: match self.limit {
                Some(count) => Some(count as int),
                None => None,
            },
        }
    }
}

impl Op {
    pub open spec fn new(verb: Verb, table: Seq<char>) -> Op {
        Op {
            verb,
            table,
            values: Seq::empty(),
            filters: Seq::empty(),
            order: None,
            limit: None,
        }
    }

    pub open spec fn begin() -> Op {
        Op::new(Verb::Begin, ""@)
    }

    pub open spec fn commit() -> Op {
        Op::new(Verb::Commit, ""@)
    }

    pub open spec fn rollback() -> Op {
        Op::new(Verb::Rollback, ""@)
    }

    pub open spec fn select(table: Seq<char>) -> Op {
        Op::new(Verb::Select, table)
    }

    pub open spec fn insert(table: Seq<char>) -> Op {
        Op::new(Verb::Insert, table)
    }

    pub open spec fn update(table: Seq<char>) -> Op {
        Op::new(Verb::Update, table)
    }

    pub open spec fn upsert(table: Seq<char>) -> Op {
        Op::new(Verb::Upsert, table)
    }

    pub open spec fn delete(table: Seq<char>) -> Op {
        Op::new(Verb::Delete, table)
    }

    pub open spec fn value(self, column: Seq<char>, value: Datum) -> Op {
        Op { values: self.values.push((column, value)), ..self }
    }

    pub open spec fn text(self, column: Seq<char>, text: Seq<char>) -> Op {
        self.value(column, Datum::Text(text))
    }

    pub open spec fn integer(self, column: Seq<char>, number: int) -> Op {
        self.value(column, Datum::Integer(number))
    }

    pub open spec fn where_eq(self, column: Seq<char>, value: Datum) -> Op {
        Op { filters: self.filters.push((column, Relation::Equal, value)), ..self }
    }

    pub open spec fn where_text(self, column: Seq<char>, text: Seq<char>) -> Op {
        self.where_eq(column, Datum::Text(text))
    }

    pub open spec fn where_gt(self, column: Seq<char>, number: int) -> Op {
        Op {
            filters: self.filters.push((column, Relation::Greater, Datum::Integer(number))),
            ..self
        }
    }

    pub open spec fn sort(self, column: Seq<char>, direction: Direction) -> Op {
        Op { order: Some((column, direction)), ..self }
    }

    pub open spec fn limit_to(self, count: int) -> Op {
        Op { limit: Some(count), ..self }
    }
}

impl Statement {
    pub fn new(verb: Verb, table: &'static str) -> (statement: Statement)
        ensures
            statement@ == Op::new(verb, table@),
    {
        Statement { verb, table, values: Vec::new(), filters: Vec::new(), order: None, limit: None }
    }

    pub fn begin() -> (statement: Statement)
        ensures
            statement@ == Op::begin(),
    {
        Statement::new(Verb::Begin, "")
    }

    pub fn commit() -> (statement: Statement)
        ensures
            statement@ == Op::commit(),
    {
        Statement::new(Verb::Commit, "")
    }

    pub fn rollback() -> (statement: Statement)
        ensures
            statement@ == Op::rollback(),
    {
        Statement::new(Verb::Rollback, "")
    }

    pub fn select(table: &'static str) -> (statement: Statement)
        ensures
            statement@ == Op::select(table@),
    {
        Statement::new(Verb::Select, table)
    }

    pub fn insert(table: &'static str) -> (statement: Statement)
        ensures
            statement@ == Op::insert(table@),
    {
        Statement::new(Verb::Insert, table)
    }

    pub fn update(table: &'static str) -> (statement: Statement)
        ensures
            statement@ == Op::update(table@),
    {
        Statement::new(Verb::Update, table)
    }

    pub fn upsert(table: &'static str) -> (statement: Statement)
        ensures
            statement@ == Op::upsert(table@),
    {
        Statement::new(Verb::Upsert, table)
    }

    pub fn delete(table: &'static str) -> (statement: Statement)
        ensures
            statement@ == Op::delete(table@),
    {
        Statement::new(Verb::Delete, table)
    }

    /// Writes `value` into `column`.
    pub fn value(self, column: &'static str, value: Value) -> (statement: Statement)
        ensures
            statement@ == self@.value(column@, value@),
    {
        let mut statement = self;
        statement.values.push((column, value));
        assert(statement@ =~= self@.value(column@, value@));
        statement
    }

    pub fn text(self, column: &'static str, text: &str) -> (statement: Statement)
        ensures
            statement@ == self@.text(column@, text@),
    {
        self.value(column, Value::text(text))
    }

    pub fn integer(self, column: &'static str, number: i64) -> (statement: Statement)
        ensures
            statement@ == self@.integer(column@, number as int),
    {
        self.value(column, Value::integer(number))
    }

    /// Keeps only rows whose `column` holds `value`.
    pub fn where_eq(self, column: &'static str, value: Value) -> (statement: Statement)
        ensures
            statement@ == self@.where_eq(column@, value@),
    {
        let mut statement = self;
        statement.filters.push((column, Relation::Equal, value));
        assert(statement@ =~= self@.where_eq(column@, value@));
        statement
    }

    pub fn where_text(self, column: &'static str, text: &str) -> (statement: Statement)
        ensures
            statement@ == self@.where_text(column@, text@),
    {
        self.where_eq(column, Value::text(text))
    }

    /// Keeps only rows whose `column` holds a number above `number`.
    pub fn where_gt(self, column: &'static str, number: i64) -> (statement: Statement)
        ensures
            statement@ == self@.where_gt(column@, number as int),
    {
        let mut statement = self;
        statement.filters.push((column, Relation::Greater, Value::Integer(number)));
        assert(statement@ =~= self@.where_gt(column@, number as int));
        statement
    }

    pub fn sort(self, column: &'static str, direction: Direction) -> (statement: Statement)
        ensures
            statement@ == self@.sort(column@, direction),
    {
        let mut statement = self;
        statement.order = Some((column, direction));
        statement
    }

    pub fn limit_to(self, count: usize) -> (statement: Statement)
        ensures
            statement@ == self@.limit_to(count as int),
    {
        let mut statement = self;
        statement.limit = Some(count);
        statement
    }
}

/// One row of a reply: its columns by name.
#[derive(Debug, PartialEq, Eq)]
pub struct Row {
    pub columns: Vec<(String, Value)>,
}

/// The value of the first column of `columns` called `name`.
pub open spec fn find_column(columns: Seq<(String, Value)>, name: Seq<char>) -> Option<Value>
    decreases columns.len(),
{
    if columns.len() == 0 {
        None
    } else if columns[0].0@ == name {
        Some(columns[0].1)
    } else {
        find_column(columns.skip(1), name)
    }
}

impl Row {
    pub open spec fn column(self, name: Seq<char>) -> Option<Value> {
        find_column(self.columns@, name)
    }

    /// The text that the row holds under `name`, if it holds a text there.
    pub open spec fn text_at(self, name: Seq<char>) -> Option<Seq<char>> {
        match self.column(name) {
            Some(Value::Text(text)) => Some(text@),
            _ => None,
        }
    }

    /// The number that the row holds under `name`, if it holds a number there.
    pub open spec fn integer_at(self, name: Seq<char>) -> Option<i64> {
        match self.column(name) {
            Some(Value::Integer(number)) => Some(number),
            _ => None,
        }
    }

    /// The number of 0 or more that the row holds under `name`, if it holds one there.
    pub open spec fn unsigned_at(self, name: Seq<char>) -> Option<u64> {
        match self.column(name) {
            Some(Value::Integer(number)) => unsigned_of(Some(number)),
            Some(Value::Unsigned(number)) => Some(number),
            _ => None,
        }
    }

    pub fn get(&self, name: &str) -> (found: Option<&Value>)
        ensures
            match found {
                Some(value) => self.column(name@) == Some(*value),
                None => self.column(name@) is None,
            },
    {
        let mut at: usize = 0;
        proof {
            assert(self.columns@.skip(0) =~= self.columns@);
        }
        while at < self.columns.len()
            invariant
                at <= self.columns@.len(),
                self.column(name@) == find_column(self.columns@.skip(at as int), name@),
            decreases self.columns@.len() - at,
        {
            proof {
                assert(self.columns@.skip(at as int).skip(1) =~= self.columns@.skip(at + 1));
            }
            if same_text(self.columns[at].0.as_str(), name) {
                return Some(&self.columns[at].1);
            }
            at = at + 1;
        }
        None
    }

    pub fn get_text(&self, name: &str) -> (found: Option<String>)
        ensures
            text::opt_view(found) == self.text_at(name@),
    {
        match self.get(name) {
            Some(Value::Text(text)) => Some(text.clone()),
            _ => None,
        }
    }

    pub fn get_integer(&self, name: &str) -> (found: Option<i64>)
        ensures
            found == self.integer_at(name@),
    {
        match self.get(name) {
            Some(Value::Integer(number)) => Some(*number),
            _ => None,
        }
    }

    pub fn get_unsigned(&self, name: &str) -> (found: Option<u64>)
        ensures
            found == self.unsigned_at(name@),
    {
        match self.get(name) {
            Some(Value::Integer(number)) => unsigned(Some(*number)),
            Some(Value::Unsigned(number)) => Some(*number),
            _ => None,
        }
    }
}

/// The text in the first row under `name`, if there is a row that holds one.
pub open spec fn first_text_of(rows: Seq<Row>, name: Seq<char>) -> Option<Seq<char>> {
    if rows.len() > 0 {
        rows[0].text_at(name)
    } else {
        None
    }
}

/// The number in the first row under `name`, if there is a row that holds one.
pub open spec fn first_integer_of(rows: Seq<Row>, name: Seq<char>) -> Option<i64> {
    if rows.len() > 0 {
        rows[0].integer_at(name)
    } else {
        None
    }
}

pub fn first_text(rows: &Vec<Row>, name: &str) -> (found: Option<String>)
    ensures
        text::opt_view(found) == first_text_of(rows@, name@),
{
    if rows.len() > 0 {
        rows[0].get_text(name)
    } else {
        None
    }
}

pub fn first_integer(rows: &Vec<Row>, name: &str) -> (found: Option<i64>)
    ensures
        found == first_integer_of(rows@, name@),
{
    if rows.len() > 0 {
        rows[0].get_integer(name)
    } else {
        None
    }
}

/// The number as a signed one, where it fits.
pub open spec fn signed_of(number: u64) -> Option<i64> {
    if number <= i64::MAX {
        Some(number as i64)
    } else {
        None
    }
}

pub fn signed(number: u64) -> (value: Option<i64>)
    ensures
        value == signed_of(number),
{
    if number <= i64::MAX as u64 {
        Some(number as i64)
    } else {
        None
    }
}

/// The number as an unsigned one, where it is not negative.
pub open spec fn unsigned_of(number: Option<i64>) -> Option<u64> {
    match number {
        Some(number) => if number >= 0 {
            Some(number as u64)
        } else {
            None
        },
        None => None,
    }
}

pub fn unsigned(number: Option<i64>) -> (value: Option<u64>)
    ensures
        value == unsigned_of(number),
{
    match number {
        Some(number) => if number >= 0 {
            Some(number as u64)
        } else {
            None
        },
        None => None,
    }
}

} // verus!
