//! The text of the statements sent to the storage engine.

use vstd::prelude::*;
use vstd::string::StringExecFns;
use crate::data::DataType;
use crate::object::{Field, Schema};
use crate::transaction::Ending;

verus! {

/// The parts joined into one text, with `sep` between neighbours.
pub open spec fn joined(parts: Seq<Seq<char>>, sep: Seq<char>) -> Seq<char>
    decreases parts.len(),
{
    if parts.len() == 0 {
        Seq::empty()
    } else if parts.len() == 1 {
        parts[0]
    } else {
        joined(parts.drop_last(), sep) + sep + parts.last()
    }
}

/// The column type that stores a scalar kind.
pub open spec fn spec_sqlite_type(data_type: DataType) -> Seq<char> {
    match data_type {
        DataType::String => "TEXT"@,
        DataType::Bytes => "BLOB"@,
        DataType::Int64 => "BIGINT"@,
        DataType::Float64 => "REAL"@,
        DataType::Bool => "TINYINT"@,
    }
}

/// The column type that stores a scalar kind.
pub fn data_type_as_sqlite(data_type: DataType) -> (name: &'static str)
    ensures
        name@ == spec_sqlite_type(data_type),
{
    match data_type {
        DataType::String => "TEXT",
        DataType::Bytes => "BLOB",
        DataType::Int64 => "BIGINT",
        DataType::Float64 => "REAL",
        DataType::Bool => "TINYINT",
    }
}

/// `count` copies of `pattern`, with `, ` between neighbours.
pub open spec fn spec_repeat_with_comma(pattern: Seq<char>, count: nat) -> Seq<char> {
    joined(Seq::new(count, |i: int| pattern), ", "@)
}

/// `count` copies of `pattern`, with `, ` between neighbours.
pub fn repeat_with_comma(pattern: &str, count: usize) -> (text: String)
    ensures
        text@ == spec_repeat_with_comma(pattern@, count as nat),
{
    let mut text = String::new();
    let mut i: usize = 0;
    while i < count
        invariant
            i <= count,
            text@ == spec_repeat_with_comma(pattern@, i as nat),
        decreases count - i,
    {
        let ghost before = Seq::new(i as nat, |k: int| pattern@);
        let ghost after = Seq::new((i + 1) as nat, |k: int| pattern@);
        assert(after.drop_last() =~= before);
        assert(after.last() == pattern@);
        if i > 0 {
            text.append(", ");
        }
        text.append(pattern);
        assert(text@ =~= joined(after, ", "@));
        i += 1;
    }
    text
}

/// The column definitions of a table: the `id` key, then one per field.
pub open spec fn column_definitions(fields: Seq<Field>) -> Seq<Seq<char>> {
    seq!["id INTEGER PRIMARY KEY AUTOINCREMENT"@] + fields.map_values(
        |f: Field| f.column_name@ + " "@ + spec_sqlite_type(f.column_type),
    )
}

/// One `column = ?` per field.
pub open spec fn column_assignments(fields: Seq<Field>) -> Seq<Seq<char>> {
    fields.map_values(|f: Field| f.column_name@ + " = ?"@)
}

/// The statement that creates the table of a schema.
pub open spec fn spec_create_table_sql(schema: Schema) -> Seq<char> {
    "CREATE TABLE "@ + schema.table_name@ + " ("@ + joined(
        column_definitions(schema.fields@),
        ", "@,
    ) + ")"@
}

/// The statement that inserts one row of a schema.
pub open spec fn spec_insert_sql(schema: Schema) -> Seq<char> {
    if schema.fields@.len() > 0 {
        "INSERT INTO "@ + schema.table_name@ + " ("@ + joined(
            schema.spec_column_names(),
            ", "@,
        ) + ") VALUES("@ + spec_repeat_with_comma("?"@, schema.fields@.len()) + ")"@
    } else {
        "INSERT INTO "@ + schema.table_name@ + " DEFAULT VALUES"@
    }
}

/// The statement that rewrites every field of one row.
pub open spec fn spec_update_sql(schema: Schema) -> Seq<char> {
    "UPDATE "@ + schema.table_name@ + " SET "@ + joined(
        column_assignments(schema.fields@),
        ", "@,
    ) + " WHERE id = ?"@
}

/// The statement that reads the fields of one row.
pub open spec fn spec_select_sql(schema: Schema) -> Seq<char> {
    "SELECT "@ + (if schema.fields@.len() > 0 {
        joined(schema.spec_column_names(), ", "@)
    } else {
        "*"@
    }) + " FROM "@ + schema.table_name@ + " WHERE id = ?"@
}

/// The statement that deletes one row.
pub open spec fn spec_delete_sql(schema: Schema) -> Seq<char> {
    "DELETE FROM "@ + schema.table_name@ + " WHERE id = ?"@
}

/// Appends one more part to a text that joins the parts before it.
fn append_part(text: &mut String, part: &str, first: bool, Ghost(before): Ghost<Seq<Seq<char>>>)
    requires
        old(text)@ == joined(before, ", "@),
        first == (before.len() == 0),
    ensures
        final(text)@ == joined(before.push(part@), ", "@),
{
    assert(before.push(part@).drop_last() =~= before);
    if !first {
        text.append(", ");
    }
    proof {
        if before.len() == 0 {
            assert(joined(before, ", "@) =~= Seq::<char>::empty());
        }
    }
    text.append(part);
    assert(text@ =~= joined(before.push(part@), ", "@));
}

/// The column definitions of a schema, joined by `, `.
fn definitions_text(schema: &Schema) -> (text: String)
    ensures
        text@ == joined(column_definitions(schema.fields@), ", "@),
{
    let ghost all = column_definitions(schema.fields@);
    let mut text = String::new();
    text.append("id INTEGER PRIMARY KEY AUTOINCREMENT");
    assert(text@ =~= joined(all.take(1), ", "@)) by {
        assert(all.take(1).len() == 1);
        assert(all.take(1)[0] == "id INTEGER PRIMARY KEY AUTOINCREMENT"@);
    }
    let mut i: usize = 0;
    while i < schema.fields.len()
        invariant
            i <= schema.fields.len(),
            all == column_definitions(schema.fields@),
            text@ == joined(all.take(i + 1), ", "@),
        decreases schema.fields.len() - i,
    {
        let field = schema.fields[i];
        let mut part = String::new();
        part.append(field.column_name);
        part.append(" ");
        part.append(data_type_as_sqlite(field.column_type));
        assert(part@ =~= all[i + 1]);
        assert(all.take(i + 2) =~= all.take(i + 1).push(part@));
        append_part(&mut text, part.as_str(), false, Ghost(all.take(i + 1)));
        i += 1;
    }
    assert(all.take(schema.fields@.len() as int + 1) =~= all);
    text
}

/// The column names of a schema, joined by `, `.
fn names_text(schema: &Schema) -> (text: String)
    ensures
        text@ == joined(schema.spec_column_names(), ", "@),
{
    let ghost all = schema.spec_column_names();
    let mut text = String::new();
    assert(text@ =~= joined(all.take(0), ", "@));
    let mut i: usize = 0;
    while i < schema.fields.len()
        invariant
            i <= schema.fields.len(),
            all == schema.spec_column_names(),
            text@ == joined(all.take(i as int), ", "@),
        decreases schema.fields.len() - i,
    {
        let field = schema.fields[i];
        assert(all.take(i + 1) =~= all.take(i as int).push(field.column_name@));
        append_part(&mut text, field.column_name, i == 0, Ghost(all.take(i as int)));
        i += 1;
    }
    assert(all.take(schema.fields@.len() as int) =~= all);
    text
}

/// One `column = ?` per field of a schema, joined by `, `.
fn assignments_text(schema: &Schema) -> (text: String)
    ensures
        text@ == joined(column_assignments(schema.fields@), ", "@),
{
    let ghost all = column_assignments(schema.fields@);
    let mut text = String::new();
    assert(text@ =~= joined(all.take(0), ", "@));
    let mut i: usize = 0;
    while i < schema.fields.len()
        invariant
            i <= schema.fields.len(),
            all == column_assignments(schema.fields@),
            text@ == joined(all.take(i as int), ", "@),
        decreases schema.fields.len() - i,
    {
        let field = schema.fields[i];
        let mut part = String::new();
        part.append(field.column_name);
        part.append(" = ?");
        assert(part@ =~= all[i as int]);
        assert(all.take(i + 1) =~= all.take(i as int).push(part@));
        append_part(&mut text, part.as_str(), i == 0, Ghost(all.take(i as int)));
        i += 1;
    }
    assert(all.take(schema.fields@.len() as int) =~= all);
    text
}

/// The statement that asks whether a table exists; the table's name is its
/// one parameter.
pub fn table_exists_sql() -> (sql: &'static str)
    ensures
        sql@ == "SELECT 1 FROM sqlite_master WHERE name = ?"@,
{
    "SELECT 1 FROM sqlite_master WHERE name = ?"
}

/// The statement that ends the engine transaction in the given way.
pub open spec fn spec_closing_sql(ending: Ending) -> Seq<char> {
    match ending {
        Ending::Commit => "COMMIT"@,
        Ending::Rollback => "ROLLBACK"@,
    }
}

/// The statement that ends the engine transaction in the given way.
pub fn closing_sql(ending: Ending) -> (sql: &'static str)
    ensures
        sql@ == spec_closing_sql(ending),
{
    match ending {
        Ending::Commit => "COMMIT",
        Ending::Rollback => "ROLLBACK",
    }
}

/// The statement that creates the table of a schema: the `id` key, then
/// one column per field in declaration order.
pub fn create_table_sql(schema: &Schema) -> (sql: String)
    ensures
        sql@ == spec_create_table_sql(*schema),
{
    let columns = definitions_text(schema);
    let mut sql = String::new();
    sql.append("CREATE TABLE ");
    sql.append(schema.table_name);
    sql.append(" (");
    sql.append(columns.as_str());
    sql.append(")");
    assert(sql@ =~= spec_create_table_sql(*schema));
    sql
}

/// The statement that inserts one row of a schema, its values bound by
/// position; for a schema without fields, an insert of default values.
pub fn insert_sql(schema: &Schema) -> (sql: String)
    ensures
        sql@ == spec_insert_sql(*schema),
{
    let mut sql = String::new();
    sql.append("INSERT INTO ");
    sql.append(schema.table_name);
    if schema.fields.len() > 0 {
        let columns = names_text(schema);
        let marks = repeat_with_comma("?", schema.fields.len());
        sql.append(" (");
        sql.append(columns.as_str());
        sql.append(") VALUES(");
        sql.append(marks.as_str());
        sql.append(")");
    } else {
        sql.append(" DEFAULT VALUES");
    }
    assert(sql@ =~= spec_insert_sql(*schema));
    sql
}

/// The statement that rewrites every field of the row with a given id.
pub fn update_sql(schema: &Schema) -> (sql: String)
    ensures
        sql@ == spec_update_sql(*schema),
{
    let columns = assignments_text(schema);
    let mut sql = String::new();
    sql.append("UPDATE ");
    sql.append(schema.table_name);
    sql.append(" SET ");
    sql.append(columns.as_str());
    sql.append(" WHERE id = ?");
    assert(sql@ =~= spec_update_sql(*schema));
    sql
}

/// The statement that reads the fields of the row with a given id, by
/// name and in declaration order.
pub fn select_sql(schema: &Schema) -> (sql: String)
    ensures
        sql@ == spec_select_sql(*schema),
{
    let mut sql = String::new();
    sql.append("SELECT ");
    if schema.fields.len() > 0 {
        let columns = names_text(schema);
        sql.append(columns.as_str());
    } else {
        sql.append("*");
    }
    sql.append(" FROM ");
    sql.append(schema.table_name);
    sql.append(" WHERE id = ?");
    assert(sql@ =~= spec_select_sql(*schema));
    sql
}

/// The statement that deletes the row with a given id.
pub fn delete_sql(schema: &Schema) -> (sql: String)
    ensures
        sql@ == spec_delete_sql(*schema),
{
    let mut sql = String::new();
    sql.append("DELETE FROM ");
    sql.append(schema.table_name);
    sql.append(" WHERE id = ?");
    assert(sql@ =~= spec_delete_sql(*schema));
    sql
}

} // verus!
