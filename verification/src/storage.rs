//! Row-level operations over one engine transaction.

use vstd::prelude::*;
use crate::backend;
use crate::data::{
    duplicate_row, row_types, row_view, value_of, Cell, DataType, ObjectId, Value, ValueView,
};
use crate::error::{fault_of, mapped_or_kept, ErrorCtx, ErrorView, OrmError};
use crate::object::{conforms, Schema};
use crate::sql;
use crate::transaction::Ending;

verus! {

/// `error` is what some engine failure maps to in the context `ctx`.
pub open spec fn engine_failure(error: ErrorView, ctx: ErrorCtx) -> bool {
    exists|source: rusqlite::Error| error == mapped_or_kept(fault_of(source), source, ctx)
}

/// The context of a call that knows its schema only.
pub open spec fn schema_ctx<'a>(schema: &'a Schema) -> ErrorCtx<'a> {
    ErrorCtx { schema: Some(schema), object_id: None }
}

/// The context of a call that knows its schema and its object.
pub open spec fn object_ctx<'a>(schema: &'a Schema, id: ObjectId) -> ErrorCtx<'a> {
    ErrorCtx { schema: Some(schema), object_id: Some(id) }
}

/// The context of a call that knows neither.
pub open spec fn no_ctx() -> ErrorCtx<'static> {
    ErrorCtx { schema: None, object_id: None }
}

/// Carries an engine outcome into the library's taxonomy: a success as it
/// is, a failure mapped in the context of the call.
pub fn lift<T>(outcome: Result<T, rusqlite::Error>, ctx: ErrorCtx<'_>) -> (lifted: Result<
    T,
    OrmError,
>)
    ensures
        match outcome {
            Ok(v) => lifted == Ok::<T, OrmError>(v),
            Err(source) => lifted is Err && lifted->Err_0@ == mapped_or_kept(
                fault_of(source),
                source,
                ctx,
            ),
        },
        lifted is Err ==> engine_failure(lifted->Err_0@, ctx),
{
    match outcome {
        Ok(v) => Ok(v),
        Err(source) => Err(OrmError::from_engine(source, ctx)),
    }
}

/// The bound parameters of an update: the row's values, then the id.
pub open spec fn update_params(row: Seq<ValueView>, id: ObjectId) -> Seq<ValueView> {
    row.push(ValueView::Int64(id.0))
}

/// The bound parameters of an update: the row's values, then the id.
pub fn params_for_update(row: &[Value], id: ObjectId) -> (params: Vec<Value>)
    ensures
        row_view(params@) == update_params(row_view(row@), id),
{
    let mut params = duplicate_row(row);
    let ghost copied = params@;
    params.push(Value::Int64(id.0));
    assert(row_view(params@) =~= row_view(copied).push(ValueView::Int64(id.0)));
    params
}

/// The bound parameter of a delete: the id.
pub fn params_for_delete(id: ObjectId) -> (params: Vec<Value>)
    ensures
        row_view(params@) == seq![ValueView::Int64(id.0)],
{
    let mut params: Vec<Value> = Vec::new();
    params.push(Value::Int64(id.0));
    assert(row_view(params@) =~= seq![ValueView::Int64(id.0)]);
    params
}

/// What a read by id makes of the first row that the query gave: the row
/// where there is one, `NotFound` for this object where there is none.
pub fn fetched<R>(next: Option<R>, id: ObjectId, schema: &Schema) -> (outcome: Result<R, OrmError>)
    ensures
        match next {
            Some(row) => outcome == Ok::<R, OrmError>(row),
            None => outcome is Err && outcome->Err_0@ == (ErrorView::NotFound {
                object_id: id,
                ty_name: schema.ty_name@,
            }),
        },
{
    match next {
        Some(row) => Ok(row),
        None => Err(OrmError::not_found(id, schema.ty_name)),
    }
}

/// Reads one column of an engine row as the given scalar kind and hands
/// what the engine gave to [`value_of`].
fn extract_value_from_row(
    column_type: DataType,
    row: &rusqlite::Row<'_>,
    column_name: &str,
) -> (outcome: Result<Value, rusqlite::Error>)
    ensures
        outcome matches Ok(v) ==> v@.data_type() == column_type,
{
    let cell = match column_type {
        DataType::String => Cell::Text(backend::get_text(row, column_name)?),
        DataType::Bytes => Cell::Blob(backend::get_bytes(row, column_name)?),
        DataType::Int64 => Cell::Int(backend::get_int(row, column_name)?),
        DataType::Float64 => Cell::Real(backend::get_real(row, column_name)?),
        DataType::Bool => Cell::Bool(backend::get_bool(row, column_name)?),
    };
    Ok(value_of(cell))
}

/// The operations of one engine transaction on the rows of persistable
/// types. Whether a call succeeds is the engine's to decide; a failure is
/// mapped in the context of the call.
pub trait StorageTransaction {
    /// Whether a table of that name exists.
    fn table_exists(&self, table: &str) -> (outcome: Result<bool, OrmError>)
        ensures
            outcome is Err ==> engine_failure(outcome->Err_0@, no_ctx()),
    ;

    /// Creates the table of a schema.
    fn create_table(&self, schema: &Schema) -> (outcome: Result<(), OrmError>)
        ensures
            outcome is Err ==> engine_failure(outcome->Err_0@, no_ctx()),
    ;

    /// Inserts a row and yields the id that the engine gave it.
    fn insert_row(&self, schema: &Schema, row: &[Value]) -> (outcome: Result<ObjectId, OrmError>)
        ensures
            outcome is Err ==> engine_failure(outcome->Err_0@, schema_ctx(schema)),
    ;

    /// Rewrites every field of the row with the given id.
    fn update_row(&self, id: ObjectId, schema: &Schema, row: &[Value]) -> (outcome: Result<
        (),
        OrmError,
    >)
        ensures
            outcome is Err ==> engine_failure(outcome->Err_0@, object_ctx(schema, id)),
    ;

    /// Reads the row with the given id: one owned value per field, each of
    /// the field's scalar kind. A row that is not there is `NotFound`.
    fn select_row(&self, id: ObjectId, schema: &Schema) -> (outcome: Result<Vec<Value>, OrmError>)
        ensures
            outcome matches Ok(row) ==> conforms(row_view(row@), *schema),
            outcome matches Err(e) ==> e@ == (ErrorView::NotFound {
                object_id: id,
                ty_name: schema.ty_name@,
            }) || engine_failure(e@, object_ctx(schema, id)),
    ;

    /// Deletes the row with the given id.
    fn delete_row(&self, id: ObjectId, schema: &Schema) -> (outcome: Result<(), OrmError>)
        ensures
            outcome is Err ==> engine_failure(outcome->Err_0@, object_ctx(schema, id)),
    ;

    /// Makes the writes of the transaction permanent.
    fn commit(&self) -> (outcome: Result<(), OrmError>)
        ensures
            outcome is Err ==> engine_failure(outcome->Err_0@, no_ctx()),
    ;

    /// Discards the writes of the transaction.
    fn rollback(&self) -> (outcome: Result<(), OrmError>)
        ensures
            outcome is Err ==> engine_failure(outcome->Err_0@, no_ctx()),
    ;
}

/// Runs a statement that yields nothing, and maps its failure.
fn run(conn: &rusqlite::Connection, sql: &str, params: &[Value], ctx: ErrorCtx<'_>) -> (outcome:
    Result<(), OrmError>)
    ensures
        outcome is Err ==> engine_failure(outcome->Err_0@, ctx),
{
    match lift(backend::execute(conn, sql, params), ctx) {
        Ok(_) => Ok(()),
        Err(e) => Err(e),
    }
}

impl StorageTransaction for rusqlite::Connection {
    fn table_exists(&self, table: &str) -> (outcome: Result<bool, OrmError>) {
        let ctx = ErrorCtx::default();
        let mut stmt = lift(backend::prepare(self, sql::table_exists_sql()), ctx)?;
        lift(backend::yields_row(&mut stmt, table), ctx)
    }

    fn create_table(&self, schema: &Schema) -> (outcome: Result<(), OrmError>) {
        let sql = sql::create_table_sql(schema);
        let none: Vec<Value> = Vec::new();
        run(self, sql.as_str(), none.as_slice(), ErrorCtx::default())
    }

    fn insert_row(&self, schema: &Schema, row: &[Value]) -> (outcome: Result<ObjectId, OrmError>) {
        let sql = sql::insert_sql(schema);
        let ctx = ErrorCtx { schema: Some(schema), object_id: None };
        let mut stmt = lift(backend::prepare(self, sql.as_str()), ctx)?;
        match lift(backend::insert(&mut stmt, row), ctx) {
            Ok(id) => Ok(ObjectId(id)),
            Err(e) => Err(e),
        }
    }

    fn update_row(&self, id: ObjectId, schema: &Schema, row: &[Value]) -> (outcome: Result<
        (),
        OrmError,
    >) {
        let sql = sql::update_sql(schema);
        let params = params_for_update(row, id);
        let ctx = ErrorCtx { schema: Some(schema), object_id: Some(id) };
        run(self, sql.as_str(), params.as_slice(), ctx)
    }

    fn select_row(&self, id: ObjectId, schema: &Schema) -> (outcome: Result<Vec<Value>, OrmError>) {
        let sql = sql::select_sql(schema);
        let ctx = ErrorCtx { schema: Some(schema), object_id: Some(id) };
        let mut stmt = lift(backend::prepare(self, sql.as_str()), ctx)?;
        let mut rows = lift(backend::query(&mut stmt, id.0), ctx)?;
        let row = fetched(lift(backend::next_row(&mut rows), ctx)?, id, schema)?;
        let mut values: Vec<Value> = Vec::new();
        let mut i: usize = 0;
        while i < schema.fields.len()
            invariant
                i <= schema.fields.len(),
                values.len() == i,
                ctx == object_ctx(schema, id),
                forall|j: int| 0 <= j < i ==> values[j]@.data_type() == schema.fields[j].column_type,
            decreases schema.fields.len() - i,
        {
            let field = schema.fields[i];
            let value = lift(extract_value_from_row(field.column_type, row, field.column_name), ctx)?;
            values.push(value);
            i += 1;
        }
        assert(row_types(row_view(values@)) =~= schema@.column_types());
        Ok(values)
    }

    fn delete_row(&self, id: ObjectId, schema: &Schema) -> (outcome: Result<(), OrmError>) {
        let sql = sql::delete_sql(schema);
        let params = params_for_delete(id);
        let ctx = ErrorCtx { schema: Some(schema), object_id: Some(id) };
        run(self, sql.as_str(), params.as_slice(), ctx)
    }

    fn commit(&self) -> (outcome: Result<(), OrmError>) {
        let none: Vec<Value> = Vec::new();
        run(self, sql::closing_sql(Ending::Commit), none.as_slice(), ErrorCtx::default())
    }

    fn rollback(&self) -> (outcome: Result<(), OrmError>) {
        let none: Vec<Value> = Vec::new();
        run(self, sql::closing_sql(Ending::Rollback), none.as_slice(), ErrorCtx::default())
    }
}

} // verus!
