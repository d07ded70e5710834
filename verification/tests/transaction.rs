use orm::{
    DataType, Ending, Field, Object, ObjectId, ObjectState, OrmError, Schema, Transaction, Value,
    Write,
};

#[derive(Debug, PartialEq, Clone)]
struct User {
    name: String,
    age: i64,
}

const USER: Schema = Schema {
    ty_name: "User",
    table_name: "User",
    fields: &[
        Field { attr_name: "name", column_name: "name", column_type: DataType::String },
        Field { attr_name: "age", column_name: "age", column_type: DataType::Int64 },
    ],
};

impl Object for User {
    const SCHEMA: Schema = USER;

    fn as_row(&self) -> Vec<Value> {
        vec![Value::String(self.name.clone()), Value::Int64(self.age)]
    }

    fn from_row(row: Vec<Value>) -> Self {
        match (&row[0], &row[1]) {
            (Value::String(name), Value::Int64(age)) => User { name: name.clone(), age: *age },
            _ => panic!("not expected type"),
        }
    }
}

#[derive(Debug, PartialEq, Clone)]
struct Pet {
    name: String,
}

impl Object for Pet {
    const SCHEMA: Schema = Schema {
        ty_name: "Pet",
        table_name: "pets",
        fields: &[Field { attr_name: "name", column_name: "pet_name", column_type: DataType::String }],
    };

    fn as_row(&self) -> Vec<Value> {
        vec![Value::String(self.name.clone())]
    }

    fn from_row(row: Vec<Value>) -> Self {
        match &row[0] {
            Value::String(name) => Pet { name: name.clone() },
            _ => panic!("not expected type"),
        }
    }
}

fn ada() -> User {
    User { name: "ada".to_string(), age: 36 }
}

fn stored_age(conn: &rusqlite::Connection, id: i64) -> Option<i64> {
    let mut stmt = conn.prepare("SELECT age FROM User WHERE id = ?").unwrap();
    let mut rows = stmt.query([id]).unwrap();
    rows.next().unwrap().map(|row| row.get(0).unwrap())
}

#[test]
fn create_then_commit() {
    let mut conn = rusqlite::Connection::open_in_memory().unwrap();
    {
        let inner = conn.transaction().unwrap();
        let mut tx = Transaction::new(&inner);
        let h = tx.create(ada()).unwrap();
        assert_eq!(h.id(), ObjectId(1));
        assert!(h.state(&tx) == ObjectState::Clean);
        tx.commit().unwrap();
    }
    {
        let inner = conn.transaction().unwrap();
        let mut tx = Transaction::new(&inner);
        let h = tx.get::<User>(ObjectId(1)).unwrap();
        assert_eq!(h.borrow(&tx).age, 36);
        assert_eq!(h.borrow(&tx), ada());
        assert!(h.state(&tx) == ObjectState::Clean);
    }
}

#[test]
fn mutate_then_commit() {
    let mut conn = rusqlite::Connection::open_in_memory().unwrap();
    {
        let inner = conn.transaction().unwrap();
        let mut tx = Transaction::new(&inner);
        tx.create(ada()).unwrap();
        tx.commit().unwrap();
    }
    {
        let inner = conn.transaction().unwrap();
        let mut tx = Transaction::new(&inner);
        let h = tx.get::<User>(ObjectId(1)).unwrap();
        let mut user = h.borrow_mut(&mut tx);
        assert!(h.state(&tx) == ObjectState::Modified);
        user.age = 37;
        h.set(&mut tx, &user);
        assert!(h.state(&tx) == ObjectState::Modified);
        tx.commit().unwrap();
    }
    {
        let inner = conn.transaction().unwrap();
        let mut tx = Transaction::new(&inner);
        let h = tx.get::<User>(ObjectId(1)).unwrap();
        assert_eq!(h.borrow(&tx).age, 37);
    }
}

#[test]
fn delete_shadows_the_stored_row() {
    let mut conn = rusqlite::Connection::open_in_memory().unwrap();
    {
        let inner = conn.transaction().unwrap();
        let mut tx = Transaction::new(&inner);
        tx.create(ada()).unwrap();
        tx.commit().unwrap();
    }
    {
        let inner = conn.transaction().unwrap();
        let mut tx = Transaction::new(&inner);
        let h = tx.get::<User>(ObjectId(1)).unwrap();
        let alias = h.clone();
        h.delete(&mut tx);
        assert!(alias.state(&tx) == ObjectState::Removed);
        match tx.get::<User>(ObjectId(1)) {
            Err(OrmError::NotFound(e)) => {
                assert_eq!(e.object_id, ObjectId(1));
                assert_eq!(e.ty_name, "User");
            }
            other => panic!("unexpected: {:?}", other.map(|h| h.id())),
        }
        assert_eq!(stored_age(&inner, 1), Some(36));
        tx.commit().unwrap();
    }
    assert_eq!(stored_age(&conn, 1), None);
}

#[test]
fn schema_drift_is_a_missing_column() {
    let mut conn = rusqlite::Connection::open_in_memory().unwrap();
    conn.execute("CREATE TABLE User (id INTEGER PRIMARY KEY AUTOINCREMENT, name TEXT)", []).unwrap();
    let inner = conn.transaction().unwrap();
    let mut tx = Transaction::new(&inner);
    match tx.create(ada()) {
        Err(OrmError::MissingColumn(e)) => {
            assert_eq!(e.ty_name, "User");
            assert_eq!(e.attr_name, "age");
            assert_eq!(e.table_name, "User");
            assert_eq!(e.column_name, "age");
        }
        other => panic!("unexpected: {:?}", other.map(|h| h.id())),
    }
    match tx.get::<User>(ObjectId(1)) {
        Err(OrmError::MissingColumn(e)) => {
            assert_eq!(e.attr_name, "age");
            assert_eq!(e.column_name, "age");
        }
        other => panic!("unexpected: {:?}", other.map(|h| h.id())),
    }
}

#[test]
fn type_mismatch_is_an_unexpected_type() {
    let mut conn = rusqlite::Connection::open_in_memory().unwrap();
    conn.execute("CREATE TABLE User (id INTEGER PRIMARY KEY AUTOINCREMENT, name TEXT, age TEXT)", [])
        .unwrap();
    conn.execute("INSERT INTO User (name, age) VALUES('ada', 'old')", []).unwrap();
    let inner = conn.transaction().unwrap();
    let mut tx = Transaction::new(&inner);
    match tx.get::<User>(ObjectId(1)) {
        Err(OrmError::UnexpectedType(e)) => {
            assert_eq!(e.ty_name, "User");
            assert_eq!(e.attr_name, "age");
            assert_eq!(e.table_name, "User");
            assert_eq!(e.column_name, "age");
            assert_eq!(e.expected_type, DataType::Int64);
            assert_eq!(e.got_type, "Text");
        }
        other => panic!("unexpected: {:?}", other.map(|h| h.id())),
    }
}

#[test]
fn lock_conflict_then_retry() {
    let path = "/tmp/orm_lock_conflict_test.sqlite3";
    let writer = rusqlite::Connection::open(path).unwrap();
    writer.execute_batch("DROP TABLE IF EXISTS User").unwrap();
    writer
        .execute("CREATE TABLE User (id INTEGER PRIMARY KEY AUTOINCREMENT, name TEXT, age BIGINT)", [])
        .unwrap();
    let mut conn = rusqlite::Connection::open(path).unwrap();
    conn.busy_timeout(std::time::Duration::from_millis(0)).unwrap();
    writer.execute_batch("BEGIN IMMEDIATE").unwrap();
    writer.execute("INSERT INTO User (name, age) VALUES('eve', 1)", []).unwrap();
    {
        let inner = conn.transaction().unwrap();
        let mut tx = Transaction::new(&inner);
        match tx.create(ada()) {
            Err(OrmError::LockConflict) => {}
            other => panic!("unexpected: {:?}", other.map(|h| h.id())),
        }
    }
    writer.execute_batch("COMMIT").unwrap();
    {
        let inner = conn.transaction().unwrap();
        let mut tx = Transaction::new(&inner);
        let h = tx.create(ada()).unwrap();
        assert_eq!(h.id(), ObjectId(2));
        tx.commit().unwrap();
    }
    writer.execute_batch("DROP TABLE User").unwrap();
}

#[test]
fn aliased_handles_are_coherent() {
    let mut conn = rusqlite::Connection::open_in_memory().unwrap();
    {
        let inner = conn.transaction().unwrap();
        let mut tx = Transaction::new(&inner);
        tx.create(ada()).unwrap();
        tx.commit().unwrap();
    }
    let inner = conn.transaction().unwrap();
    let mut tx = Transaction::new(&inner);
    let a = tx.get::<User>(ObjectId(1)).unwrap();
    let b = tx.get::<User>(ObjectId(1)).unwrap();
    assert_eq!(a.id(), b.id());
    let mut user = a.borrow_mut(&mut tx);
    user.age = 50;
    a.set(&mut tx, &user);
    assert_eq!(b.borrow(&tx).age, 50);
    assert!(b.state(&tx) == ObjectState::Modified);
}

#[test]
fn create_and_get_share_one_entry() {
    let mut conn = rusqlite::Connection::open_in_memory().unwrap();
    let inner = conn.transaction().unwrap();
    let mut tx = Transaction::new(&inner);
    let h = tx.create(ada()).unwrap();
    let g = tx.get::<User>(h.id()).unwrap();
    assert!(h.state(&tx) == ObjectState::Clean);
    assert!(g.state(&tx) == ObjectState::Clean);
    let mut user = g.borrow_mut(&mut tx);
    user.name = "lovelace".to_string();
    g.set(&mut tx, &user);
    assert_eq!(h.borrow(&tx).name, "lovelace");
    assert!(h.state(&tx) == ObjectState::Modified);
    assert!(tx.holds(&h) && tx.holds(&g));
}

#[test]
fn same_id_of_different_types_are_different_objects() {
    let mut conn = rusqlite::Connection::open_in_memory().unwrap();
    let inner = conn.transaction().unwrap();
    let mut tx = Transaction::new(&inner);
    let user = tx.create(ada()).unwrap();
    let pet = tx.create(Pet { name: "rex".to_string() }).unwrap();
    assert_eq!(user.id(), ObjectId(1));
    assert_eq!(pet.id(), ObjectId(1));
    pet.clone().delete(&mut tx);
    assert!(user.state(&tx) == ObjectState::Clean);
    assert!(pet.state(&tx) == ObjectState::Removed);
    assert_eq!(tx.get::<User>(ObjectId(1)).unwrap().borrow(&tx), ada());
    assert!(matches!(tx.get::<Pet>(ObjectId(1)), Err(OrmError::NotFound(_))));
}

#[test]
fn commit_flushes_one_write_per_dirty_entry() {
    let mut conn = rusqlite::Connection::open_in_memory().unwrap();
    {
        let inner = conn.transaction().unwrap();
        let mut tx = Transaction::new(&inner);
        let clean = tx.create(ada()).unwrap();
        let changed = tx.create(User { name: "bob".to_string(), age: 20 }).unwrap();
        let gone = tx.create(User { name: "cyd".to_string(), age: 30 }).unwrap();
        changed.set(&mut tx, &User { name: "bob".to_string(), age: 21 });
        gone.delete(&mut tx);
        let writes = tx.closing_writes(Ending::Commit);
        assert_eq!(writes.len(), 2);
        match &writes[0] {
            Write::Update { id, schema, row } => {
                assert_eq!(*id, ObjectId(2));
                assert_eq!(schema.table_name, "User");
                assert!(matches!(&row[0], Value::String(name) if name == "bob"));
                assert!(matches!(&row[1], Value::Int64(21)));
            }
            Write::Delete { .. } => panic!("expected an update"),
        }
        match &writes[1] {
            Write::Delete { id, schema } => {
                assert_eq!(*id, ObjectId(3));
                assert_eq!(schema.ty_name, "User");
            }
            Write::Update { .. } => panic!("expected a delete"),
        }
        assert!(tx.closing_writes(Ending::Rollback).is_empty());
        assert!(clean.state(&tx) == ObjectState::Clean);
        tx.commit().unwrap();
    }
    assert_eq!(stored_age(&conn, 1), Some(36));
    assert_eq!(stored_age(&conn, 2), Some(21));
    assert_eq!(stored_age(&conn, 3), None);
}

#[test]
fn rollback_writes_nothing() {
    let mut conn = rusqlite::Connection::open_in_memory().unwrap();
    {
        let inner = conn.transaction().unwrap();
        let mut tx = Transaction::new(&inner);
        tx.create(ada()).unwrap();
        tx.create(User { name: "bob".to_string(), age: 20 }).unwrap();
        tx.commit().unwrap();
    }
    {
        let inner = conn.transaction().unwrap();
        let mut tx = Transaction::new(&inner);
        let a = tx.get::<User>(ObjectId(1)).unwrap();
        let b = tx.get::<User>(ObjectId(2)).unwrap();
        a.set(&mut tx, &User { name: "ada".to_string(), age: 99 });
        b.delete(&mut tx);
        tx.rollback().unwrap();
    }
    assert_eq!(stored_age(&conn, 1), Some(36));
    assert_eq!(stored_age(&conn, 2), Some(20));
}

#[test]
fn get_of_a_missing_row_is_not_found() {
    let mut conn = rusqlite::Connection::open_in_memory().unwrap();
    let inner = conn.transaction().unwrap();
    let mut tx = Transaction::new(&inner);
    match tx.get::<User>(ObjectId(41)) {
        Err(OrmError::NotFound(e)) => {
            assert_eq!(e.object_id, ObjectId(41));
            assert_eq!(e.ty_name, "User");
        }
        other => panic!("unexpected: {:?}", other.map(|h| h.id())),
    }
    let stale: orm::Tx<User> = {
        let h = tx.create(ada()).unwrap();
        h
    };
    assert!(tx.holds(&stale));
}

#[test]
fn typed_write_through_a_handle() {
    let mut conn = rusqlite::Connection::open_in_memory().unwrap();
    {
        let inner = conn.transaction().unwrap();
        let mut tx = Transaction::new(&inner);
        let h = tx.create(ada()).unwrap();
        let alias = tx.get::<User>(h.id()).unwrap();
        let mut user = h.borrow(&tx);
        user.age = 37;
        h.set(&mut tx, &user);
        assert!(alias.state(&tx) == ObjectState::Modified);
        assert_eq!(alias.borrow(&tx), User { name: "ada".to_string(), age: 37 });
        assert!(matches!(alias.row(&tx)[1], Value::Int64(37)));
        tx.commit().unwrap();
    }
    assert_eq!(stored_age(&conn, 1), Some(37));
}

#[test]
fn borrow_mut_marks_modified_even_without_a_write() {
    let mut conn = rusqlite::Connection::open_in_memory().unwrap();
    let inner = conn.transaction().unwrap();
    let mut tx = Transaction::new(&inner);
    let h = tx.create(ada()).unwrap();
    assert_eq!(h.borrow_mut(&mut tx), ada());
    assert!(h.state(&tx) == ObjectState::Modified);
    let writes = tx.closing_writes(Ending::Commit);
    assert_eq!(writes.len(), 1);
    match &writes[0] {
        Write::Update { id, row, .. } => {
            assert_eq!(*id, ObjectId(1));
            assert_eq!(row.len(), 2);
            assert!(matches!(&row[1], Value::Int64(36)));
        }
        Write::Delete { .. } => panic!("expected an update"),
    }
}

#[test]
fn an_existing_table_is_left_alone_and_a_missing_one_created() {
    let mut conn = rusqlite::Connection::open_in_memory().unwrap();
    let inner = conn.transaction().unwrap();
    let tx = Transaction::new(&inner);
    let exists = |name: &str| -> bool {
        let mut stmt = inner.prepare("SELECT 1 FROM sqlite_master WHERE name = ?").unwrap();
        stmt.exists([name]).unwrap()
    };
    tx.settle_table(true, &USER).unwrap();
    assert!(!exists("User"));
    tx.settle_table(false, &USER).unwrap();
    assert!(exists("User"));
    tx.settle_table(true, &USER).unwrap();
    assert!(matches!(tx.settle_table(false, &USER), Err(OrmError::Storage(_))));
}
