use orm::sql::{
    closing_sql, create_table_sql, data_type_as_sqlite, delete_sql, insert_sql, repeat_with_comma,
    select_sql, table_exists_sql, update_sql,
};
use orm::{DataType, Ending, Field, Schema};

const ALL_KINDS: Schema = Schema {
    ty_name: "Sample",
    table_name: "samples",
    fields: &[
        Field { attr_name: "title", column_name: "title", column_type: DataType::String },
        Field { attr_name: "raw", column_name: "payload", column_type: DataType::Bytes },
        Field { attr_name: "count", column_name: "count", column_type: DataType::Int64 },
        Field { attr_name: "ratio", column_name: "ratio", column_type: DataType::Float64 },
        Field { attr_name: "done", column_name: "done", column_type: DataType::Bool },
    ],
};

const ONE: Schema = Schema {
    ty_name: "One",
    table_name: "One",
    fields: &[Field { attr_name: "x", column_name: "x", column_type: DataType::Int64 }],
};

const EMPTY: Schema = Schema { ty_name: "Unit", table_name: "units", fields: &[] };

#[test]
fn sqlite_type_names() {
    assert_eq!(data_type_as_sqlite(DataType::String), "TEXT");
    assert_eq!(data_type_as_sqlite(DataType::Bytes), "BLOB");
    assert_eq!(data_type_as_sqlite(DataType::Int64), "BIGINT");
    assert_eq!(data_type_as_sqlite(DataType::Float64), "REAL");
    assert_eq!(data_type_as_sqlite(DataType::Bool), "TINYINT");
}

#[test]
fn repeat_with_comma_joins_copies() {
    assert_eq!(repeat_with_comma("?", 0), "");
    assert_eq!(repeat_with_comma("?", 1), "?");
    assert_eq!(repeat_with_comma("?", 3), "?, ?, ?");
    assert_eq!(repeat_with_comma("ab", 2), "ab, ab");
}

#[test]
fn create_table_statement() {
    assert_eq!(
        create_table_sql(&ALL_KINDS),
        "CREATE TABLE samples (id INTEGER PRIMARY KEY AUTOINCREMENT, title TEXT, payload BLOB, \
         count BIGINT, ratio REAL, done TINYINT)"
    );
    assert_eq!(create_table_sql(&EMPTY), "CREATE TABLE units (id INTEGER PRIMARY KEY AUTOINCREMENT)");
}

#[test]
fn insert_statement() {
    assert_eq!(
        insert_sql(&ALL_KINDS),
        "INSERT INTO samples (title, payload, count, ratio, done) VALUES(?, ?, ?, ?, ?)"
    );
    assert_eq!(insert_sql(&ONE), "INSERT INTO One (x) VALUES(?)");
    assert_eq!(insert_sql(&EMPTY), "INSERT INTO units DEFAULT VALUES");
}

#[test]
fn update_statement() {
    assert_eq!(
        update_sql(&ALL_KINDS),
        "UPDATE samples SET title = ?, payload = ?, count = ?, ratio = ?, done = ? WHERE id = ?"
    );
    assert_eq!(update_sql(&ONE), "UPDATE One SET x = ? WHERE id = ?");
}

#[test]
fn select_statement() {
    assert_eq!(
        select_sql(&ALL_KINDS),
        "SELECT title, payload, count, ratio, done FROM samples WHERE id = ?"
    );
    assert_eq!(select_sql(&EMPTY), "SELECT * FROM units WHERE id = ?");
}

#[test]
fn delete_statement() {
    assert_eq!(delete_sql(&ALL_KINDS), "DELETE FROM samples WHERE id = ?");
}

#[test]
fn fixed_statements() {
    assert_eq!(table_exists_sql(), "SELECT 1 FROM sqlite_master WHERE name = ?");
    assert_eq!(closing_sql(Ending::Commit), "COMMIT");
    assert_eq!(closing_sql(Ending::Rollback), "ROLLBACK");
}
