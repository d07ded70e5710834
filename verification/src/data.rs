//! Scalar payloads exchanged with the storage engine.

use vstd::prelude::*;

verus! {

/// A real number as the storage engine hands it out and takes it back.
/// The library never looks inside: it only carries such a value between
/// the engine and the caller.
#[verifier::external_type_specification]
#[verifier::external_body]
pub struct ExEngineReal<'a>(rusqlite::types::ValueRef<'a>);

/// Primary key of a stored object, assigned by the storage engine on insert.
#[derive(Clone, Copy, PartialEq, Eq, Structural, Debug, Hash)]
pub struct ObjectId(pub i64);

impl ObjectId {
    /// The raw row id.
    pub fn into_i64(&self) -> (raw: i64)
        ensures
            raw == self.0,
    {
        self.0
    }
}

impl From<i64> for ObjectId {
    fn from(value: i64) -> (id: ObjectId) {
        ObjectId(value)
    }
}

impl vstd::std_specs::convert::FromSpecImpl<i64> for ObjectId {
    open spec fn obeys_from_spec() -> bool {
        true
    }

    open spec fn from_spec(value: i64) -> ObjectId {
        ObjectId(value)
    }
}

/// The tag of a scalar kind. Every persistable attribute has exactly one.
#[derive(Clone, Copy, Debug, PartialEq, Eq, Structural)]
pub enum DataType {
    String,
    Bytes,
    Int64,
    Float64,
    Bool,
}

/// A scalar payload. `Float64` carries the engine's own representation of a
/// real number, which stays opaque to the library.
#[derive(Debug)]
pub enum Value {
    String(String),
    Bytes(Vec<u8>),
    Int64(i64),
    Float64(rusqlite::types::ValueRef<'static>),
    Bool(bool),
}

/// What a [`Value`] denotes: text as a sequence of characters, a blob as a
/// sequence of bytes.
pub enum ValueView {
    String(Seq<char>),
    Bytes(Seq<u8>),
    Int64(i64),
    Float64(rusqlite::types::ValueRef<'static>),
    Bool(bool),
}

impl ValueView {
    /// The scalar kind of the payload.
    pub open spec fn data_type(self) -> DataType {
        match self {
            ValueView::String(_) => DataType::String,
            ValueView::Bytes(_) => DataType::Bytes,
            ValueView::Int64(_) => DataType::Int64,
            ValueView::Float64(_) => DataType::Float64,
            ValueView::Bool(_) => DataType::Bool,
        }
    }
}

impl View for Value {
    type V = ValueView;

    open spec fn view(&self) -> ValueView {
        match *self {
            Value::String(s) => ValueView::String(s@),
            Value::Bytes(b) => ValueView::Bytes(b@),
            Value::Int64(x) => ValueView::Int64(x),
            Value::Float64(x) => ValueView::Float64(x),
            Value::Bool(x) => ValueView::Bool(x),
        }
    }
}

impl Value {
    /// The scalar kind of the payload.
    pub fn data_type(&self) -> (tag: DataType)
        ensures
            tag == self@.data_type(),
    {
        match self {
            Value::String(_) => DataType::String,
            Value::Bytes(_) => DataType::Bytes,
            Value::Int64(_) => DataType::Int64,
            Value::Float64(_) => DataType::Float64,
            Value::Bool(_) => DataType::Bool,
        }
    }

    /// An owned copy that denotes the same payload.
    pub fn duplicate(&self) -> (copy: Value)
        ensures
            copy@ == self@,
    {
        match self {
            Value::String(s) => Value::String(s.clone()),
            Value::Bytes(b) => Value::Bytes(b.clone()),
            Value::Int64(x) => Value::Int64(*x),
            Value::Float64(x) => Value::Float64(*x),
            Value::Bool(x) => Value::Bool(*x),
        }
    }
}

/// What the engine gave for one column, by the kind it was read as.
#[derive(Debug)]
pub enum Cell {
    Text(String),
    Blob(Vec<u8>),
    Int(i64),
    Real(rusqlite::types::ValueRef<'static>),
    Bool(bool),
}

/// The payload that a cell stands for.
pub open spec fn cell_view(cell: Cell) -> ValueView {
    match cell {
        Cell::Text(text) => ValueView::String(text@),
        Cell::Blob(bytes) => ValueView::Bytes(bytes@),
        Cell::Int(x) => ValueView::Int64(x),
        Cell::Real(x) => ValueView::Float64(x),
        Cell::Bool(x) => ValueView::Bool(x),
    }
}

/// The value that holds what the engine gave for one column.
pub fn value_of(cell: Cell) -> (value: Value)
    ensures
        value@ == cell_view(cell),
{
    match cell {
        Cell::Text(text) => Value::String(text),
        Cell::Blob(bytes) => Value::Bytes(bytes),
        Cell::Int(x) => Value::Int64(x),
        Cell::Real(x) => Value::Float64(x),
        Cell::Bool(x) => Value::Bool(x),
    }
}

/// What a row denotes: the views of its values, in column order.
pub open spec fn row_view(row: Seq<Value>) -> Seq<ValueView> {
    row.map_values(|v: Value| v@)
}

/// The scalar kinds of a row's values, in column order.
pub open spec fn row_types(row: Seq<ValueView>) -> Seq<DataType> {
    row.map_values(|v: ValueView| v.data_type())
}

/// An owned copy of a row that denotes the same values.
pub fn duplicate_row(row: &[Value]) -> (copy: Vec<Value>)
    ensures
        row_view(copy@) == row_view(row@),
{
    let mut copy: Vec<Value> = Vec::new();
    let mut i: usize = 0;
    while i < row.len()
        invariant
            i <= row.len(),
            copy.len() == i,
            forall|j: int| 0 <= j < i ==> copy[j]@ == row[j]@,
        decreases row.len() - i,
    {
        copy.push(row[i].duplicate());
        i += 1;
    }
    assert(row_view(copy@) =~= row_view(row@));
    copy
}

/// The codec of a persistable attribute type: its scalar kind, and the
/// passage between its values and payloads of that kind.
pub trait AsDataType: Sized {
    /// The scalar kind of the type.
    const DATA_TYPE: DataType;

    /// Encodes a value as a payload of the type's scalar kind.
    fn as_value(&self) -> (value: Value)
        ensures
            value@.data_type() == Self::DATA_TYPE,
    ;

    /// Decodes a value from a payload of the type's scalar kind.
    fn from_value(value: &Value) -> (decoded: Self)
        requires
            value@.data_type() == Self::DATA_TYPE,
    ;
}

impl AsDataType for String {
    const DATA_TYPE: DataType = DataType::String;

    fn as_value(&self) -> (value: Value)
        ensures
            value@ == ValueView::String(self@),
    {
        Value::String(self.clone())
    }

    fn from_value(value: &Value) -> (decoded: String)
        ensures
            value@ == ValueView::String(decoded@),
    {
        match value {
            Value::String(text) => text.clone(),
            _ => vstd::pervasive::unreached(),
        }
    }
}

impl AsDataType for Vec<u8> {
    const DATA_TYPE: DataType = DataType::Bytes;

    fn as_value(&self) -> (value: Value)
        ensures
            value@ == ValueView::Bytes(self@),
    {
        Value::Bytes(self.clone())
    }

    fn from_value(value: &Value) -> (decoded: Vec<u8>)
        ensures
            value@ == ValueView::Bytes(decoded@),
    {
        match value {
            Value::Bytes(bytes) => bytes.clone(),
            _ => vstd::pervasive::unreached(),
        }
    }
}

impl AsDataType for i64 {
    const DATA_TYPE: DataType = DataType::Int64;

    fn as_value(&self) -> (value: Value)
        ensures
            value@ == ValueView::Int64(*self),
    {
        Value::Int64(*self)
    }

    fn from_value(value: &Value) -> (decoded: i64)
        ensures
            value@ == ValueView::Int64(decoded),
    {
        match value {
            Value::Int64(x) => *x,
            _ => vstd::pervasive::unreached(),
        }
    }
}

impl AsDataType for bool {
    const DATA_TYPE: DataType = DataType::Bool;

    fn as_value(&self) -> (value: Value)
        ensures
            value@ == ValueView::Bool(*self),
    {
        Value::Bool(*self)
    }

    fn from_value(value: &Value) -> (decoded: bool)
        ensures
            value@ == ValueView::Bool(decoded),
    {
        match value {
            Value::Bool(x) => *x,
            _ => vstd::pervasive::unreached(),
        }
    }
}

impl AsDataType for rusqlite::types::ValueRef<'static> {
    const DATA_TYPE: DataType = DataType::Float64;

    fn as_value(&self) -> (value: Value)
        ensures
            value@ == ValueView::Float64(*self),
    {
        Value::Float64(*self)
    }

    fn from_value(value: &Value) -> (decoded: rusqlite::types::ValueRef<'static>)
        ensures
            value@ == ValueView::Float64(decoded),
    {
        match value {
            Value::Float64(x) => *x,
            _ => vstd::pervasive::unreached(),
        }
    }
}

/// Decoding an encoded text gives back the same characters.
pub proof fn law_text_round_trip(given: String, value: Value, decoded: String)
    requires
        call_ensures(<String as AsDataType>::as_value, (&given,), value),
        call_ensures(<String as AsDataType>::from_value, (&value,), decoded),
    ensures
        decoded@ == given@,
{
}

/// Decoding an encoded blob gives back the same bytes.
pub proof fn law_bytes_round_trip(given: Vec<u8>, value: Value, decoded: Vec<u8>)
    requires
        call_ensures(<Vec<u8> as AsDataType>::as_value, (&given,), value),
        call_ensures(<Vec<u8> as AsDataType>::from_value, (&value,), decoded),
    ensures
        decoded@ == given@,
{
}

/// Decoding an encoded integer gives back the same integer.
pub proof fn law_int_round_trip(given: i64, value: Value, decoded: i64)
    requires
        call_ensures(<i64 as AsDataType>::as_value, (&given,), value),
        call_ensures(<i64 as AsDataType>::from_value, (&value,), decoded),
    ensures
        decoded == given,
{
}

/// Decoding an encoded boolean gives back the same boolean.
pub proof fn law_bool_round_trip(given: bool, value: Value, decoded: bool)
    requires
        call_ensures(<bool as AsDataType>::as_value, (&given,), value),
        call_ensures(<bool as AsDataType>::from_value, (&value,), decoded),
    ensures
        decoded == given,
{
}

/// Decoding an encoded real gives back the same engine value.
pub proof fn law_real_round_trip(
    given: rusqlite::types::ValueRef<'static>,
    value: Value,
    decoded: rusqlite::types::ValueRef<'static>,
)
    requires
        call_ensures(
            <rusqlite::types::ValueRef<'static> as AsDataType>::as_value,
            (&given,),
            value,
        ),
        call_ensures(
            <rusqlite::types::ValueRef<'static> as AsDataType>::from_value,
            (&value,),
            decoded,
        ),
    ensures
        decoded == given,
{
}

} // verus!
