use orm::data::duplicate_row;
use orm::error::{get_field_by_name, id_field};
use orm::{AsDataType, DataType, Field, ObjectId, Schema, Value};

const USER: Schema = Schema {
    ty_name: "User",
    table_name: "User",
    fields: &[
        Field { attr_name: "name", column_name: "name", column_type: DataType::String },
        Field { attr_name: "age", column_name: "years", column_type: DataType::Int64 },
        Field { attr_name: "old_age", column_name: "years", column_type: DataType::Bool },
    ],
};

#[test]
fn object_id_wraps_the_raw_id() {
    assert_eq!(ObjectId(7).into_i64(), 7);
    assert_eq!(ObjectId::from(-3), ObjectId(-3));
    assert_eq!(ObjectId::from(i64::MAX).into_i64(), i64::MAX);
}

#[test]
fn values_know_their_kind() {
    assert_eq!(Value::String("a".to_string()).data_type(), DataType::String);
    assert_eq!(Value::Bytes(vec![1, 2]).data_type(), DataType::Bytes);
    assert_eq!(Value::Int64(1).data_type(), DataType::Int64);
    assert_eq!(Value::Float64(rusqlite::types::ValueRef::Real(1.5)).data_type(), DataType::Float64);
    assert_eq!(Value::Bool(true).data_type(), DataType::Bool);
}

#[test]
fn attribute_codecs_round_trip() {
    assert_eq!(String::from_value(&"ada".to_string().as_value()), "ada");
    assert_eq!(Vec::<u8>::from_value(&vec![0u8, 255].as_value()), vec![0u8, 255]);
    assert_eq!(i64::from_value(&(-36i64).as_value()), -36);
    assert_eq!(bool::from_value(&true.as_value()), true);
    let real = rusqlite::types::ValueRef::Real(36.6);
    assert_eq!(rusqlite::types::ValueRef::from_value(&real.as_value()), real);
    assert_eq!(<String as AsDataType>::DATA_TYPE, DataType::String);
    assert_eq!(<Vec<u8> as AsDataType>::DATA_TYPE, DataType::Bytes);
    assert_eq!(<i64 as AsDataType>::DATA_TYPE, DataType::Int64);
    assert_eq!(<bool as AsDataType>::DATA_TYPE, DataType::Bool);
    assert_eq!(<rusqlite::types::ValueRef<'static> as AsDataType>::DATA_TYPE, DataType::Float64);
}

#[test]
fn duplicate_row_copies_every_value() {
    let row = vec![Value::String("ada".to_string()), Value::Int64(36), Value::Bytes(vec![9])];
    let copy = duplicate_row(&row);
    assert_eq!(copy.len(), 3);
    assert!(matches!(&copy[0], Value::String(s) if s == "ada"));
    assert!(matches!(&copy[1], Value::Int64(36)));
    assert!(matches!(&copy[2], Value::Bytes(b) if b == &vec![9u8]));
}

#[test]
fn schema_lists_columns_in_order() {
    assert_eq!(USER.column_names(), vec!["name", "years", "years"]);
    assert_eq!(USER.column_types(), vec![DataType::String, DataType::Int64, DataType::Bool]);
    assert!(USER.same_as(&USER));
    let renamed = Schema { ty_name: "User", table_name: "users", fields: USER.fields };
    assert!(!USER.same_as(&renamed));
}

#[test]
fn field_lookup_takes_the_first_match_or_the_id() {
    assert_eq!(get_field_by_name(&USER, "years").attr_name, "age");
    assert_eq!(get_field_by_name(&USER, "name").column_type, DataType::String);
    let missing = get_field_by_name(&USER, "height");
    assert_eq!(missing.attr_name, "id");
    assert_eq!(missing.column_name, "id");
    assert_eq!(missing.column_type, DataType::Int64);
    assert_eq!(id_field().column_name, "id");
}
