//! The error taxonomy, and the mapping of engine failures into it.

use vstd::prelude::*;
use crate::data::{DataType, ObjectId};
use crate::object::{Field, Schema};
use crate::text::{chars_of, contains, find, first_occurrence, occurs, same_text, tail_from};

verus! {

/// A failure as the storage engine reports it. Opaque to the library, which
/// reads it only through [`classify`].
#[verifier::external_type_specification]
#[verifier::external_body]
pub struct ExEngineError(rusqlite::Error);

/// The object does not exist, or was deleted within the transaction.
#[derive(Debug)]
pub struct NotFoundError {
    pub object_id: ObjectId,
    pub ty_name: &'static str,
}

/// A column holds a value that is not of the field's scalar kind.
#[derive(Debug)]
pub struct UnexpectedTypeError {
    pub ty_name: &'static str,
    pub attr_name: &'static str,
    pub table_name: &'static str,
    pub column_name: &'static str,
    pub expected_type: DataType,
    pub got_type: String,
}

/// The table lacks a column that the schema requires.
#[derive(Debug)]
pub struct MissingColumnError {
    pub ty_name: &'static str,
    pub attr_name: &'static str,
    pub table_name: &'static str,
    pub column_name: &'static str,
}

/// Every failure the library reports.
#[derive(Debug)]
pub enum OrmError {
    NotFound(Box<NotFoundError>),
    UnexpectedType(Box<UnexpectedTypeError>),
    MissingColumn(Box<MissingColumnError>),
    /// The engine reports that the database is busy. Transient.
    LockConflict,
    /// Any other engine failure, kept as the engine reported it.
    Storage(rusqlite::Error),
}

/// What an [`OrmError`] denotes, with every name as a sequence of characters.
pub enum ErrorView {
    NotFound { object_id: ObjectId, ty_name: Seq<char> },
    UnexpectedType {
        ty_name: Seq<char>,
        attr_name: Seq<char>,
        table_name: Seq<char>,
        column_name: Seq<char>,
        expected_type: DataType,
        got_type: Seq<char>,
    },
    MissingColumn {
        ty_name: Seq<char>,
        attr_name: Seq<char>,
        table_name: Seq<char>,
        column_name: Seq<char>,
    },
    LockConflict,
    Storage(rusqlite::Error),
}

impl View for OrmError {
    type V = ErrorView;

    open spec fn view(&self) -> ErrorView {
        match *self {
            OrmError::NotFound(e) => ErrorView::NotFound {
                object_id: e.object_id,
                ty_name: e.ty_name@,
            },
            OrmError::UnexpectedType(e) => ErrorView::UnexpectedType {
                ty_name: e.ty_name@,
                attr_name: e.attr_name@,
                table_name: e.table_name@,
                column_name: e.column_name@,
                expected_type: e.expected_type,
                got_type: e.got_type@,
            },
            OrmError::MissingColumn(e) => ErrorView::MissingColumn {
                ty_name: e.ty_name@,
                attr_name: e.attr_name@,
                table_name: e.table_name@,
                column_name: e.column_name@,
            },
            OrmError::LockConflict => ErrorView::LockConflict,
            OrmError::Storage(source) => ErrorView::Storage(source),
        }
    }
}

/// What a storage call knows about its subject when it fails.
#[derive(Clone, Copy)]
pub struct ErrorCtx<'a> {
    pub schema: Option<&'a Schema>,
    pub object_id: Option<ObjectId>,
}

impl<'a> Default for ErrorCtx<'a> {
    /// A context that knows neither schema nor object.
    fn default() -> (ctx: ErrorCtx<'a>)
        ensures
            ctx.schema is None,
            ctx.object_id is None,
    {
        ErrorCtx { schema: None, object_id: None }
    }
}

/// A failure together with the context of the call that met it.
pub struct ErrorWithCtx<'a, E> {
    pub err: E,
    pub ctx: ErrorCtx<'a>,
}

impl<'a, E> ErrorWithCtx<'a, E> {
    pub fn new(err: E, ctx: ErrorCtx<'a>) -> (both: ErrorWithCtx<'a, E>)
        ensures
            both.err == err,
            both.ctx == ctx,
    {
        ErrorWithCtx { err, ctx }
    }
}

/// What the mapper reads off an engine failure.
#[derive(Debug)]
pub enum Fault {
    /// A failure of an engine call: whether the engine said it was busy, and
    /// its diagnostic text, if it gave one.
    Engine { busy: bool, message: Option<String> },
    /// A query that had to return a row returned none.
    NoRows,
    /// A column held a value of another storage class than the one asked for.
    ColumnType { column_name: String, got_type: String },
    /// Anything else.
    Other,
}

/// The [`Fault`] that [`classify`] reads off an engine failure.
pub uninterp spec fn fault_of(err: rusqlite::Error) -> Fault;

/// Reads off a `rusqlite::Error` what the mapper needs: for `SqliteFailure`
/// whether its code is `DatabaseBusy` and its message, for
/// `InvalidColumnType` the column's name and the storage class found (as
/// `rusqlite::types::Type` prints it), and which of these variants, or
/// `QueryReturnedNoRows`, or any other, it is.
#[verifier::external_body]
pub(crate) fn classify(err: &rusqlite::Error) -> (fault: Fault)
    ensures
        fault == fault_of(*err),
{
    match err {
        rusqlite::Error::SqliteFailure(e, message) => Fault::Engine {
            busy: e.code == rusqlite::ErrorCode::DatabaseBusy,
            message: message.clone(),
        },
        rusqlite::Error::QueryReturnedNoRows => Fault::NoRows,
        rusqlite::Error::InvalidColumnType(_, name, got) => Fault::ColumnType {
            column_name: name.clone(),
            got_type: got.to_string(),
        },
        _ => Fault::Other,
    }
}

/// The descriptor of the engine-managed `id` column, which stands in for a
/// column that the schema does not list.
pub open spec fn spec_id_field() -> Field {
    Field { attr_name: "id", column_name: "id", column_type: DataType::Int64 }
}

/// The descriptor of the engine-managed `id` column.
pub fn id_field() -> (field: Field)
    ensures
        field == spec_id_field(),
{
    Field { attr_name: "id", column_name: "id", column_type: DataType::Int64 }
}

/// `at` is the first field of `fields` that is stored in column `name`.
pub open spec fn is_first_field_named(fields: Seq<Field>, name: Seq<char>, at: int) -> bool {
    &&& 0 <= at < fields.len()
    &&& fields[at].column_name@ == name
    &&& forall|before: int| 0 <= before < at ==> fields[before].column_name@ != name
}

/// The first field stored in column `name`; the `id` descriptor if there is
/// none.
pub open spec fn field_by_name(fields: Seq<Field>, name: Seq<char>) -> Field {
    if exists|at: int| is_first_field_named(fields, name, at) {
        fields[choose|at: int| is_first_field_named(fields, name, at)]
    } else {
        spec_id_field()
    }
}

/// The first field of `schema` stored in the column whose name has the
/// characters `name`; the `id` descriptor if there is none.
pub fn field_with_column(schema: &Schema, name: &Vec<char>) -> (field: Field)
    ensures
        field == field_by_name(schema.fields@, name@),
{
    let mut i: usize = 0;
    while i < schema.fields.len()
        invariant
            i <= schema.fields.len(),
            forall|before: int| 0 <= before < i ==> schema.fields[before].column_name@ != name@,
        decreases schema.fields.len() - i,
    {
        let column = chars_of(schema.fields[i].column_name);
        if same_text(&column, name) {
            proof {
                let fields = schema.fields@;
                assert(is_first_field_named(fields, name@, i as int));
                let chosen = choose|at: int| is_first_field_named(fields, name@, at);
                assert(is_first_field_named(fields, name@, chosen));
                assert(chosen == i) by {
                    if chosen < i {
                        assert(fields[chosen].column_name@ != name@);
                    }
                    if i < chosen {
                        assert(fields[i as int].column_name@ != name@);
                    }
                }
            }
            return schema.fields[i];
        }
        i += 1;
    }
    assert(!exists|at: int| is_first_field_named(schema.fields@, name@, at));
    id_field()
}

/// The first field of `schema` stored in column `column_name`; the `id`
/// descriptor if there is none.
pub fn get_field_by_name(schema: &Schema, column_name: &str) -> (field: Field)
    ensures
        field == field_by_name(schema.fields@, column_name@),
{
    let name = chars_of(column_name);
    field_with_column(schema, &name)
}

/// The two phrasings by which the engine says that a column is missing.
pub open spec fn reports_missing_column(text: Seq<char>) -> bool {
    occurs(text, "no such column:"@) || occurs(text, "has no column named"@)
}

/// Whether a diagnostic is in one of the two phrasings by which the engine
/// says that a column is missing.
pub fn is_missing_column_text(text: &Vec<char>) -> (hit: bool)
    ensures
        hit == reports_missing_column(text@),
{
    contains(text, &chars_of("no such column:")) || contains(text, &chars_of("has no column named"))
}

/// What follows the first `marker` in `text`.
pub open spec fn text_after(text: Seq<char>, marker: Seq<char>) -> Option<Seq<char>> {
    match first_occurrence(text, marker) {
        Some(at) => Some(text.skip(at + marker.len())),
        None => None,
    }
}

/// The column that a missing-column diagnostic names: what follows
/// `no such column: `, else what follows `has no column named `, else
/// nothing.
pub open spec fn missing_column_name(text: Seq<char>) -> Option<Seq<char>> {
    match text_after(text, "no such column: "@) {
        Some(name) => Some(name),
        None => text_after(text, "has no column named "@),
    }
}

/// What follows the first `marker` in `text`.
pub fn after_marker(text: &Vec<char>, marker: &str) -> (rest: Option<Vec<char>>)
    ensures
        match rest {
            Some(r) => text_after(text@, marker@) == Some(r@),
            None => text_after(text@, marker@) is None,
        },
{
    let pat = chars_of(marker);
    match find(text, &pat) {
        Some(at) => {
            assert(crate::text::occurs_at(text@, pat@, at as int));
            assert(at + pat@.len() <= text.len());
            Some(tail_from(text, at + pat.len()))
        },
        None => None,
    }
}

/// The column that a missing-column diagnostic names.
pub fn parse_missing_column(text: &Vec<char>) -> (name: Option<Vec<char>>)
    ensures
        match name {
            Some(n) => missing_column_name(text@) == Some(n@),
            None => missing_column_name(text@) is None,
        },
{
    match after_marker(text, "no such column: ") {
        Some(name) => Some(name),
        None => after_marker(text, "has no column named "),
    }
}

/// The field that a missing-column diagnostic is about: the one stored in
/// the column it names, else the `id` descriptor.
pub open spec fn missing_field(fields: Seq<Field>, text: Seq<char>) -> Field {
    match missing_column_name(text) {
        Some(name) => field_by_name(fields, name),
        None => spec_id_field(),
    }
}

/// Whether `fault` is a diagnostic about a missing column.
pub open spec fn is_missing_column_fault(fault: Fault) -> bool {
    fault matches Fault::Engine { busy, message: Some(text) } && !busy && reports_missing_column(
        text@,
    )
}

/// Whether mapping `fault` reads the schema.
pub open spec fn needs_schema(fault: Fault) -> bool {
    is_missing_column_fault(fault) || fault is NoRows || fault is ColumnType
}

/// Whether mapping `fault` reads the object id.
pub open spec fn needs_object_id(fault: Fault) -> bool {
    fault is NoRows
}

/// The context holds what mapping `fault` reads.
pub open spec fn ctx_suffices(fault: Fault, ctx: ErrorCtx) -> bool {
    &&& needs_schema(fault) ==> ctx.schema is Some
    &&& needs_object_id(fault) ==> ctx.object_id is Some
}

/// The error that a fault maps to, given the failure it was read off and
/// the context of the call.
pub open spec fn mapped(fault: Fault, source: rusqlite::Error, ctx: ErrorCtx) -> ErrorView {
    match fault {
        Fault::Engine { busy, message } => {
            if busy {
                ErrorView::LockConflict
            } else if is_missing_column_fault(fault) {
                let schema = ctx.schema->0;
                let field = missing_field(schema.fields@, message->0@);
                ErrorView::MissingColumn {
                    ty_name: schema.ty_name@,
                    attr_name: field.attr_name@,
                    table_name: schema.table_name@,
                    column_name: field.column_name@,
                }
            } else {
                ErrorView::Storage(source)
            }
        },
        Fault::NoRows => ErrorView::NotFound {
            object_id: ctx.object_id->0,
            ty_name: ctx.schema->0.ty_name@,
        },
        Fault::ColumnType { column_name, got_type } => {
            let schema = ctx.schema->0;
            let field = field_by_name(schema.fields@, column_name@);
            ErrorView::UnexpectedType {
                ty_name: schema.ty_name@,
                attr_name: field.attr_name@,
                table_name: schema.table_name@,
                column_name: field.column_name@,
                expected_type: field.column_type,
                got_type: got_type@,
            }
        },
        Fault::Other => ErrorView::Storage(source),
    }
}

/// The error that a fault maps to where the context holds what the mapping
/// reads; the failure itself, as `Storage`, where it does not.
pub open spec fn mapped_or_kept(fault: Fault, source: rusqlite::Error, ctx: ErrorCtx) -> ErrorView {
    if ctx_suffices(fault, ctx) {
        mapped(fault, source, ctx)
    } else {
        ErrorView::Storage(source)
    }
}

impl OrmError {
    /// The error for an object that does not exist.
    pub fn not_found(object_id: ObjectId, ty_name: &'static str) -> (error: OrmError)
        ensures
            error@ == (ErrorView::NotFound { object_id, ty_name: ty_name@ }),
    {
        OrmError::NotFound(Box::new(NotFoundError { object_id, ty_name }))
    }

    /// Maps a classified engine failure into the taxonomy.
    pub fn from_fault(fault: Fault, source: rusqlite::Error, ctx: ErrorCtx<'_>) -> (error: OrmError)
        requires
            ctx_suffices(fault, ctx),
        ensures
            error@ == mapped(fault, source, ctx),
    {
        match fault {
            Fault::Engine { busy, message } => {
                if busy {
                    return OrmError::LockConflict;
                }
                match message {
                    Some(text) => {
                        let chars = chars_of(text.as_str());
                        if is_missing_column_text(&chars) {
                            let schema = ctx.schema.unwrap();
                            let field = match parse_missing_column(&chars) {
                                Some(name) => field_with_column(schema, &name),
                                None => id_field(),
                            };
                            OrmError::MissingColumn(
                                Box::new(
                                    MissingColumnError {
                                        ty_name: schema.ty_name,
                                        attr_name: field.attr_name,
                                        table_name: schema.table_name,
                                        column_name: field.column_name,
                                    },
                                ),
                            )
                        } else {
                            OrmError::Storage(source)
                        }
                    },
                    None => OrmError::Storage(source),
                }
            },
            Fault::NoRows => OrmError::NotFound(
                Box::new(
                    NotFoundError {
                        object_id: ctx.object_id.unwrap(),
                        ty_name: ctx.schema.unwrap().ty_name,
                    },
                ),
            ),
            Fault::ColumnType { column_name, got_type } => {
                let schema = ctx.schema.unwrap();
                let field = get_field_by_name(schema, column_name.as_str());
                OrmError::UnexpectedType(
                    Box::new(
                        UnexpectedTypeError {
                            ty_name: schema.ty_name,
                            attr_name: field.attr_name,
                            table_name: schema.table_name,
                            column_name: field.column_name,
                            expected_type: field.column_type,
                            got_type,
                        },
                    ),
                )
            },
            Fault::Other => OrmError::Storage(source),
        }
    }

    /// Maps an engine failure into the taxonomy. The context must hold what
    /// the mapping of this failure reads.
    pub fn from(err: ErrorWithCtx<'_, rusqlite::Error>) -> (error: OrmError)
        requires
            ctx_suffices(fault_of(err.err), err.ctx),
        ensures
            error@ == mapped(fault_of(err.err), err.err, err.ctx),
    {
        let fault = classify(&err.err);
        OrmError::from_fault(fault, err.err, err.ctx)
    }

    /// Maps an engine failure into the taxonomy where the context holds what
    /// the mapping reads, and keeps it as `Storage` where it does not.
    pub fn from_engine(source: rusqlite::Error, ctx: ErrorCtx<'_>) -> (error: OrmError)
        ensures
            error@ == mapped_or_kept(fault_of(source), source, ctx),
    {
        let fault = classify(&source);
        if OrmError::suffices(&fault, &ctx) {
            OrmError::from(ErrorWithCtx::new(source, ctx))
        } else {
            OrmError::Storage(source)
        }
    }

    /// Whether the context holds what the mapping of `fault` reads.
    pub fn suffices(fault: &Fault, ctx: &ErrorCtx<'_>) -> (enough: bool)
        ensures
            enough == ctx_suffices(*fault, *ctx),
    {
        match fault {
            Fault::Engine { busy, message } => {
                if *busy || ctx.schema.is_some() {
                    true
                } else {
                    match message {
                        Some(text) => !is_missing_column_text(&chars_of(text.as_str())),
                        None => true,
                    }
                }
            },
            Fault::NoRows => ctx.schema.is_some() && ctx.object_id.is_some(),
            Fault::ColumnType { .. } => ctx.schema.is_some(),
            Fault::Other => true,
        }
    }
}

} // verus!
