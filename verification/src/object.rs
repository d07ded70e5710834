//! Table shape of a persistable type.

use vstd::prelude::*;
use crate::data::{row_types, row_view, DataType, Value, ValueView};
use crate::text::{chars_of, same_text};

verus! {

/// One persistable attribute: the name the user's type exposes, the column
/// that stores it, and the scalar kind of that column.
#[derive(Clone, Copy, Debug)]
pub struct Field {
    pub attr_name: &'static str,
    pub column_name: &'static str,
    pub column_type: DataType,
}

/// Table shape of one persistable type. The order of `fields` is the order
/// of the values in every row of that type.
#[derive(Clone, Copy, Debug)]
pub struct Schema {
    pub ty_name: &'static str,
    pub table_name: &'static str,
    pub fields: &'static [Field],
}

/// What a [`Field`] denotes, with its names as sequences of characters.
pub struct FieldView {
    pub attr_name: Seq<char>,
    pub column_name: Seq<char>,
    pub column_type: DataType,
}

/// What a [`Schema`] denotes, with its names as sequences of characters.
pub struct SchemaView {
    pub ty_name: Seq<char>,
    pub table_name: Seq<char>,
    pub fields: Seq<FieldView>,
}

impl View for Field {
    type V = FieldView;

    open spec fn view(&self) -> FieldView {
        FieldView {
            attr_name: self.attr_name@,
            column_name: self.column_name@,
            column_type: self.column_type,
        }
    }
}

impl View for Schema {
    type V = SchemaView;

    open spec fn view(&self) -> SchemaView {
        SchemaView {
            ty_name: self.ty_name@,
            table_name: self.table_name@,
            fields: self.fields@.map_values(|f: Field| f@),
        }
    }
}

impl SchemaView {
    /// The scalar kinds of the columns, in declaration order.
    pub open spec fn column_types(self) -> Seq<DataType> {
        self.fields.map_values(|f: FieldView| f.column_type)
    }

    /// The row has one value per field of the schema, each of the field's
    /// scalar kind.
    pub open spec fn admits(self, row: Seq<ValueView>) -> bool {
        row_types(row) == self.column_types()
    }
}

/// Whether two texts hold the same characters.
pub fn same_name(a: &str, b: &str) -> (same: bool)
    ensures
        same == (a@ == b@),
{
    let x = chars_of(a);
    let y = chars_of(b);
    same_text(&x, &y)
}

impl Field {
    /// Whether two fields denote the same descriptor.
    pub fn same_as(&self, other: &Field) -> (same: bool)
        ensures
            same == (self@ == other@),
    {
        same_name(self.attr_name, other.attr_name) && same_name(
            self.column_name,
            other.column_name,
        ) && self.column_type == other.column_type
    }
}

impl Schema {
    /// Whether two schemas denote the same table shape.
    pub fn same_as(&self, other: &Schema) -> (same: bool)
        ensures
            same == (self@ == other@),
    {
        if !same_name(self.ty_name, other.ty_name) || !same_name(
            self.table_name,
            other.table_name,
        ) {
            return false;
        }
        if self.fields.len() != other.fields.len() {
            assert(self@.fields.len() != other@.fields.len());
            return false;
        }
        let mut i: usize = 0;
        while i < self.fields.len()
            invariant
                i <= self.fields.len(),
                self.fields.len() == other.fields.len(),
                forall|j: int| 0 <= j < i ==> self.fields[j]@ == other.fields[j]@,
            decreases self.fields.len() - i,
        {
            if !self.fields[i].same_as(&other.fields[i]) {
                assert(self@.fields[i as int] != other@.fields[i as int]);
                return false;
            }
            i += 1;
        }
        assert(self@.fields =~= other@.fields);
        true
    }

    /// The scalar kinds of the columns, in declaration order.
    pub open spec fn spec_column_types(&self) -> Seq<DataType> {
        self.fields@.map_values(|f: Field| f.column_type)
    }

    /// The column names, in declaration order.
    pub open spec fn spec_column_names(&self) -> Seq<Seq<char>> {
        self.fields@.map_values(|f: Field| f.column_name@)
    }

    /// The scalar kinds of the columns, in declaration order.
    pub fn column_types(&self) -> (types: Vec<DataType>)
        ensures
            types@ == self.spec_column_types(),
    {
        let mut types: Vec<DataType> = Vec::new();
        let mut i: usize = 0;
        while i < self.fields.len()
            invariant
                i <= self.fields.len(),
                types@ == self.spec_column_types().take(i as int),
            decreases self.fields.len() - i,
        {
            types.push(self.fields[i].column_type);
            assert(self.spec_column_types().take(i + 1) =~= self.spec_column_types().take(
                i as int,
            ).push(self.fields[i as int].column_type));
            i += 1;
        }
        assert(types@ =~= self.spec_column_types());
        types
    }

    /// The column names, in declaration order.
    pub fn column_names(&self) -> (names: Vec<&'static str>)
        ensures
            names@.map_values(|n: &'static str| n@) == self.spec_column_names(),
            names.len() == self.fields.len(),
            forall|i: int| 0 <= i < names.len() ==> names[i] == self.fields[i].column_name,
    {
        let mut names: Vec<&'static str> = Vec::new();
        let mut i: usize = 0;
        while i < self.fields.len()
            invariant
                i <= self.fields.len(),
                names.len() == i,
                forall|j: int| 0 <= j < i ==> names[j] == self.fields[j].column_name,
            decreases self.fields.len() - i,
        {
            names.push(self.fields[i].column_name);
            i += 1;
        }
        assert(names@.map_values(|n: &'static str| n@) =~= self.spec_column_names());
        names
    }
}

/// The row has one value per field of the schema, each of the field's
/// scalar kind.
pub open spec fn conforms(row: Seq<ValueView>, schema: Schema) -> bool {
    schema@.admits(row)
}

/// A persistable type: a table shape and a codec between its instances and
/// rows of that shape.
pub trait Object: Sized {
    /// The table shape of the type.
    const SCHEMA: Schema;

    /// Encodes an instance as a row: one value per field of the schema, in
    /// the order of the fields, each of the field's scalar kind.
    fn as_row(&self) -> (row: Vec<Value>)
        ensures
            conforms(row_view(row@), Self::SCHEMA),
    ;

    /// Decodes an instance from a row of the schema's shape. The instance
    /// holds, field by field, what the row holds: encoded again, it gives
    /// the row back.
    fn from_row(row: Vec<Value>) -> (object: Self)
        requires
            conforms(row_view(row@), Self::SCHEMA),
        ensures
            forall|again: Vec<Value>| #[trigger]
                call_ensures(Self::as_row, (&object,), again) ==> row_view(again@) == row_view(
                    row@,
                ),
    ;
}

/// Decoding what was encoded gives an instance that holds, field by field,
/// what the encoded one held: both encode to the same row, and that row
/// has the shape of the schema.
pub proof fn law_object_round_trip<T: Object>(given: T, row: Vec<Value>, decoded: T, again: Vec<Value>)
    requires
        call_ensures(T::as_row, (&given,), row),
        call_ensures(T::from_row, (row,), decoded),
        call_ensures(T::as_row, (&decoded,), again),
    ensures
        row_view(again@) == row_view(row@),
        conforms(row_view(row@), T::SCHEMA),
{
}

} // verus!
