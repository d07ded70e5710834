//! The calls into the storage engine. Nothing here is proved: each function
//! hands its arguments to one engine call and hands the outcome back. What
//! the engine answers depends on the database, so no contract says what
//! comes back.

use vstd::prelude::*;
use crate::data::Value;

verus! {

/// An open connection to the engine; inside an engine transaction it is the
/// single-transaction view through which every statement runs.
#[verifier::external_type_specification]
#[verifier::external_body]
pub struct ExConnection(rusqlite::Connection);

/// A prepared statement of the engine.
#[verifier::external_type_specification]
#[verifier::external_body]
pub struct ExStatement<'a>(rusqlite::Statement<'a>);

/// The rows that a query of the engine yields.
#[verifier::external_type_specification]
#[verifier::external_body]
pub struct ExRows<'a>(rusqlite::Rows<'a>);

/// One row that a query of the engine yielded.
#[verifier::external_type_specification]
#[verifier::external_body]
pub struct ExEngineRow<'a>(rusqlite::Row<'a>);

/// A value in the form in which the engine binds it to a statement.
#[verifier::external_type_specification]
#[verifier::external_body]
pub struct ExToSqlOutput<'a>(rusqlite::types::ToSqlOutput<'a>);

/// Puts a value into the form in which the engine binds it: text, blob,
/// integer and boolean through `ToSqlOutput::from`, a real as the engine
/// value that it already is.
#[verifier::external_body]
pub(crate) fn bound<'v>(value: &'v Value) -> rusqlite::types::ToSqlOutput<'v> {
    match value {
        Value::String(text) => rusqlite::types::ToSqlOutput::from(text.as_str()),
        Value::Bytes(bytes) => rusqlite::types::ToSqlOutput::from(bytes.as_slice()),
        Value::Int64(x) => rusqlite::types::ToSqlOutput::from(*x),
        Value::Float64(x) => rusqlite::types::ToSqlOutput::Borrowed(*x),
        Value::Bool(x) => rusqlite::types::ToSqlOutput::from(*x),
    }
}

/// `rusqlite::Connection::prepare`: compiles one statement. Claims nothing
/// about the outcome.
#[verifier::external_body]
pub(crate) fn prepare<'c>(conn: &'c rusqlite::Connection, sql: &str) -> (outcome: Result<
    rusqlite::Statement<'c>,
    rusqlite::Error,
>) {
    conn.prepare(sql)
}

/// `rusqlite::Connection::execute`: runs one statement with `params` bound
/// by position and yields the number of rows it changed. Claims nothing
/// about the outcome.
#[verifier::external_body]
pub(crate) fn execute(conn: &rusqlite::Connection, sql: &str, params: &[Value]) -> (outcome:
    Result<usize, rusqlite::Error>) {
    conn.execute(sql, rusqlite::params_from_iter(params.iter().map(bound)))
}

/// `rusqlite::Statement::exists`: whether the statement, with `param` bound
/// as its one parameter, yields a row. Claims nothing about the outcome.
#[verifier::external_body]
pub(crate) fn yields_row(stmt: &mut rusqlite::Statement<'_>, param: &str) -> (outcome: Result<
    bool,
    rusqlite::Error,
>) {
    stmt.exists([param])
}

/// `rusqlite::Statement::insert`: runs an insert with `params` bound by
/// position and yields the id of the new row. Claims nothing about the
/// outcome.
#[verifier::external_body]
pub(crate) fn insert(stmt: &mut rusqlite::Statement<'_>, params: &[Value]) -> (outcome: Result<
    i64,
    rusqlite::Error,
>) {
    stmt.insert(rusqlite::params_from_iter(params.iter().map(bound)))
}

/// `rusqlite::Statement::query`: binds `id` as the one parameter and opens
/// the rows of the query. Claims nothing about the outcome.
#[verifier::external_body]
pub(crate) fn query<'s>(stmt: &'s mut rusqlite::Statement<'_>, id: i64) -> (outcome: Result<
    rusqlite::Rows<'s>,
    rusqlite::Error,
>) {
    stmt.query([id])
}

/// `rusqlite::Rows::next`: the next row, or none when the rows are used up.
/// Claims nothing about the outcome.
#[verifier::external_body]
pub(crate) fn next_row<'r, 's>(rows: &'r mut rusqlite::Rows<'s>) -> (outcome: Result<
    Option<&'r rusqlite::Row<'s>>,
    rusqlite::Error,
>) {
    rows.next()
}

/// `rusqlite::Row::get` for text: the named column as a `String`. Claims
/// nothing about the outcome.
#[verifier::external_body]
pub(crate) fn get_text(row: &rusqlite::Row<'_>, column: &str) -> (outcome: Result<
    String,
    rusqlite::Error,
>) {
    row.get(column)
}

/// `rusqlite::Row::get` for a blob: the named column as a `Vec<u8>`. Claims
/// nothing about the outcome.
#[verifier::external_body]
pub(crate) fn get_bytes(row: &rusqlite::Row<'_>, column: &str) -> (outcome: Result<
    Vec<u8>,
    rusqlite::Error,
>) {
    row.get(column)
}

/// `rusqlite::Row::get` for an integer: the named column as an `i64`.
/// Claims nothing about the outcome.
#[verifier::external_body]
pub(crate) fn get_int(row: &rusqlite::Row<'_>, column: &str) -> (outcome: Result<
    i64,
    rusqlite::Error,
>) {
    row.get(column)
}

/// `rusqlite::Row::get` for a real: the named column as the payload type of
/// `ValueRef::Real`, kept in that engine value. Claims nothing about the
/// outcome.
#[verifier::external_body]
pub(crate) fn get_real(row: &rusqlite::Row<'_>, column: &str) -> (outcome: Result<
    rusqlite::types::ValueRef<'static>,
    rusqlite::Error,
>) {
    row.get(column).map(rusqlite::types::ValueRef::Real)
}

/// `rusqlite::Row::get` for a boolean: the named column as a `bool`. Claims
/// nothing about the outcome.
#[verifier::external_body]
pub(crate) fn get_bool(row: &rusqlite::Row<'_>, column: &str) -> (outcome: Result<
    bool,
    rusqlite::Error,
>) {
    row.get(column)
}

} // verus!
