use orm::data::{value_of, Cell};
use orm::{DataType, Field, Object, ObjectId, OrmError, Schema, StorageTransaction, Value};

#[derive(Debug, PartialEq, Clone)]
struct User {
    name: String,
    age: i64,
}

impl Object for User {
    const SCHEMA: Schema = Schema {
        ty_name: "User",
        table_name: "User",
        fields: &[
            Field { attr_name: "name", column_name: "name", column_type: DataType::String },
            Field { attr_name: "age", column_name: "age", column_type: DataType::Int64 },
        ],
    };

    fn as_row(&self) -> Vec<Value> {
        vec![Value::String(self.name.clone()), Value::Int64(self.age)]
    }

    fn from_row(row: Vec<Value>) -> Self {
        match (&row[0], &row[1]) {
            (Value::String(name), Value::Int64(age)) => User { name: name.clone(), age: *age },
            _ => panic!("not expected type"),
        }
    }
}

#[test]
fn storage_round_trip_through_the_engine() {
    let mut conn = rusqlite::Connection::open_in_memory().unwrap();
    let tx = conn.transaction().unwrap();
    let schema = User::SCHEMA;
    assert!(!tx.table_exists("User").unwrap());
    tx.create_table(&schema).unwrap();
    assert!(tx.table_exists("User").unwrap());
    let ada = User { name: "ada".to_string(), age: 36 };
    let id = tx.insert_row(&schema, &ada.as_row()).unwrap();
    assert_eq!(id, ObjectId(1));
    let row = tx.select_row(id, &schema).unwrap();
    assert_eq!(User::from_row(row), ada);
    let older = User { name: "ada".to_string(), age: 37 };
    tx.update_row(id, &schema, &older.as_row()).unwrap();
    assert_eq!(User::from_row(tx.select_row(id, &schema).unwrap()), older);
    tx.delete_row(id, &schema).unwrap();
    match tx.select_row(id, &schema) {
        Err(OrmError::NotFound(e)) => {
            assert_eq!(e.object_id, ObjectId(1));
            assert_eq!(e.ty_name, "User");
        }
        other => panic!("unexpected: {:?}", other),
    }
    StorageTransaction::commit(&*tx).unwrap();
}

const SAMPLE: Schema = Schema {
    ty_name: "Sample",
    table_name: "samples",
    fields: &[
        Field { attr_name: "title", column_name: "title", column_type: DataType::String },
        Field { attr_name: "raw", column_name: "payload", column_type: DataType::Bytes },
        Field { attr_name: "count", column_name: "count", column_type: DataType::Int64 },
        Field { attr_name: "ratio", column_name: "ratio", column_type: DataType::Float64 },
        Field { attr_name: "done", column_name: "done", column_type: DataType::Bool },
    ],
};

const UNIT: Schema = Schema { ty_name: "Unit", table_name: "units", fields: &[] };

#[test]
fn every_scalar_kind_round_trips_through_the_engine() {
    let mut conn = rusqlite::Connection::open_in_memory().unwrap();
    let tx = conn.transaction().unwrap();
    tx.create_table(&SAMPLE).unwrap();
    let row = vec![
        Value::String("caf\u{e9}".to_string()),
        Value::Bytes(vec![0, 1, 255]),
        Value::Int64(i64::MIN),
        Value::Float64(rusqlite::types::ValueRef::Real(36.6)),
        Value::Bool(true),
    ];
    let id = tx.insert_row(&SAMPLE, &row).unwrap();
    let back = tx.select_row(id, &SAMPLE).unwrap();
    assert_eq!(back.len(), 5);
    assert!(matches!(&back[0], Value::String(s) if s == "caf\u{e9}"));
    assert!(matches!(&back[1], Value::Bytes(b) if b == &vec![0u8, 1, 255]));
    assert!(matches!(&back[2], Value::Int64(i64::MIN)));
    assert!(matches!(&back[3], Value::Float64(rusqlite::types::ValueRef::Real(x)) if *x == 36.6));
    assert!(matches!(&back[4], Value::Bool(true)));
    for (value, field) in back.iter().zip(SAMPLE.fields.iter()) {
        assert_eq!(value.data_type(), field.column_type);
    }
}

#[test]
fn a_schema_without_fields_round_trips_as_empty_rows() {
    let mut conn = rusqlite::Connection::open_in_memory().unwrap();
    let tx = conn.transaction().unwrap();
    tx.create_table(&UNIT).unwrap();
    assert_eq!(tx.insert_row(&UNIT, &[]).unwrap(), ObjectId(1));
    assert_eq!(tx.insert_row(&UNIT, &[]).unwrap(), ObjectId(2));
    assert!(tx.select_row(ObjectId(2), &UNIT).unwrap().is_empty());
    tx.delete_row(ObjectId(2), &UNIT).unwrap();
    assert!(matches!(tx.select_row(ObjectId(2), &UNIT), Err(OrmError::NotFound(_))));
}

#[test]
fn update_binds_the_row_and_then_the_id() {
    let params = orm::storage::params_for_update(
        &[Value::String("ada".to_string()), Value::Int64(36)],
        ObjectId(9),
    );
    assert_eq!(params.len(), 3);
    assert!(matches!(&params[0], Value::String(s) if s == "ada"));
    assert!(matches!(&params[1], Value::Int64(36)));
    assert!(matches!(&params[2], Value::Int64(9)));
}

#[test]
fn lift_keeps_successes_and_maps_failures() {
    let ctx = orm::ErrorCtx { schema: Some(&SAMPLE), object_id: Some(ObjectId(4)) };
    assert_eq!(orm::storage::lift(Ok::<i64, rusqlite::Error>(7), ctx).ok(), Some(7));
    match orm::storage::lift(Err::<i64, rusqlite::Error>(rusqlite::Error::QueryReturnedNoRows), ctx) {
        Err(OrmError::NotFound(e)) => {
            assert_eq!(e.object_id, ObjectId(4));
            assert_eq!(e.ty_name, "Sample");
        }
        other => panic!("unexpected: {:?}", other),
    }
    assert!(matches!(
        orm::storage::lift(
            Err::<i64, rusqlite::Error>(rusqlite::Error::QueryReturnedNoRows),
            orm::ErrorCtx::default()
        ),
        Err(OrmError::Storage(rusqlite::Error::QueryReturnedNoRows))
    ));
}

#[test]
fn storage_failures_without_context_stay_storage_errors() {
    let mut conn = rusqlite::Connection::open_in_memory().unwrap();
    let tx = conn.transaction().unwrap();
    tx.create_table(&UNIT).unwrap();
    assert!(matches!(tx.create_table(&UNIT), Err(OrmError::Storage(_))));
    StorageTransaction::rollback(&*tx).unwrap();
    assert!(matches!(StorageTransaction::commit(&*tx), Err(OrmError::Storage(_))));
}

#[test]
fn a_read_without_a_row_is_not_found() {
    match orm::storage::fetched(None::<i64>, ObjectId(5), &SAMPLE) {
        Err(OrmError::NotFound(e)) => {
            assert_eq!(e.object_id, ObjectId(5));
            assert_eq!(e.ty_name, "Sample");
        }
        other => panic!("unexpected: {:?}", other),
    }
    assert_eq!(orm::storage::fetched(Some(7i64), ObjectId(5), &SAMPLE).ok(), Some(7));
}

#[test]
fn delete_binds_the_id() {
    let params = orm::storage::params_for_delete(ObjectId(9));
    assert_eq!(params.len(), 1);
    assert!(matches!(&params[0], Value::Int64(9)));
}

#[test]
fn engine_cells_become_values() {
    assert!(matches!(value_of(Cell::Text("a".to_string())), Value::String(s) if s == "a"));
    assert!(matches!(value_of(Cell::Blob(vec![1, 2])), Value::Bytes(b) if b == vec![1u8, 2]));
    assert!(matches!(value_of(Cell::Int(-7)), Value::Int64(-7)));
    assert!(matches!(
        value_of(Cell::Real(rusqlite::types::ValueRef::Real(1.5))),
        Value::Float64(rusqlite::types::ValueRef::Real(x)) if x == 1.5
    ));
    assert!(matches!(value_of(Cell::Bool(true)), Value::Bool(true)));
}
