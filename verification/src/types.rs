//! Records and schemas, as far as the environment reads them.
//!
//! The environment stores records and hands them back unchanged but for
//! their version. Of a schema it reads the identifier, the type and
//! nullability of each field, and whether there is a primary key.

use vstd::prelude::*;
use vstd::slice::slice_to_vec;

verus! {

/// The type of a field.
#[derive(Debug, Clone, Copy, PartialEq, Eq, Structural, Hash)]
pub enum FieldType {
    UInt,
    Int,
    Float,
    Boolean,
    String,
    Text,
    Binary,
    Decimal,
    Timestamp,
    Date,
    Bson,
    Point,
}

/// What a schema says of one field.
#[derive(Debug, Clone, Copy, PartialEq, Eq, Structural, Hash)]
pub struct FieldDefinition {
    pub typ: FieldType,
    pub nullable: bool,
}

/// The identity of a schema.
#[derive(Debug, Clone, Copy, PartialEq, Eq, Structural, Hash)]
pub struct SchemaIdentifier {
    pub id: u32,
    pub version: u16,
}

/// The layout of the records of one cache.
#[derive(Debug, PartialEq, Eq)]
pub struct Schema {
    pub identifier: Option<SchemaIdentifier>,
    pub fields: Vec<FieldDefinition>,
    /// The positions of the values that make up the primary key. Empty for an
    /// append-only schema.
    pub primary_index: Vec<usize>,
}

/// A schema as a mathematical value.
#[verifier::ext_equal]
pub struct SchemaView {
    pub identifier: Option<SchemaIdentifier>,
    pub fields: Seq<FieldDefinition>,
    pub primary_index: Seq<usize>,
}

impl SchemaView {
    /// Whether the schema has no primary key.
    pub open spec fn is_append_only(self) -> bool {
        self.primary_index.len() == 0
    }
}

impl View for Schema {
    type V = SchemaView;

    open spec fn view(&self) -> SchemaView {
        SchemaView {
            identifier: self.identifier,
            fields: self.fields@,
            primary_index: self.primary_index@,
        }
    }
}

impl Schema {
    /// Whether the schema has no primary key.
    pub fn is_append_only(&self) -> (append_only: bool)
        ensures
            append_only == self@.is_append_only(),
    {
        self.primary_index.len() == 0
    }
}

/// One value of a record. A float is held as the bit pattern of its 64-bit
/// IEEE 754 form, a decimal as mantissa and scale, a timestamp as seconds and
/// nanoseconds since the epoch with the offset of its time zone in seconds, a
/// date as days of the common era.
#[derive(Debug, PartialEq, Eq)]
pub enum Field {
    UInt(u64),
    Int(i64),
    Float(u64),
    Boolean(bool),
    String(String),
    Text(String),
    Binary(Vec<u8>),
    Decimal(i128, u32),
    Timestamp(i64, u32, i32),
    Date(i32),
    Bson(Vec<u8>),
    Point(u64, u64),
    Null,
}

/// A value of a record as a mathematical value.
pub enum FieldView {
    UInt(u64),
    Int(i64),
    Float(u64),
    Boolean(bool),
    String(Seq<char>),
    Text(Seq<char>),
    Binary(Seq<u8>),
    Decimal(i128, u32),
    Timestamp(i64, u32, i32),
    Date(i32),
    Bson(Seq<u8>),
    Point(u64, u64),
    Null,
}

impl FieldView {
    /// Whether the value is of the variant that belongs to `typ`. The null
    /// value has no type.
    pub open spec fn has_type(self, typ: FieldType) -> bool {
        match typ {
            FieldType::UInt => self is UInt,
            FieldType::Int => self is Int,
            FieldType::Float => self is Float,
            FieldType::Boolean => self is Boolean,
            FieldType::String => self is String,
            FieldType::Text => self is Text,
            FieldType::Binary => self is Binary,
            FieldType::Decimal => self is Decimal,
            FieldType::Timestamp => self is Timestamp,
            FieldType::Date => self is Date,
            FieldType::Bson => self is Bson,
            FieldType::Point => self is Point,
        }
    }

    /// Whether the value may stand in a field with this definition: it is
    /// null in a nullable field, or of the field's type.
    pub open spec fn fits(self, definition: FieldDefinition) -> bool {
        (definition.nullable && self is Null) || self.has_type(definition.typ)
    }
}

impl View for Field {
    type V = FieldView;

    open spec fn view(&self) -> FieldView {
        match *self {
            Field::UInt(v) => FieldView::UInt(v),
            Field::Int(v) => FieldView::Int(v),
            Field::Float(bits) => FieldView::Float(bits),
            Field::Boolean(v) => FieldView::Boolean(v),
            Field::String(v) => FieldView::String(v@),
            Field::Text(v) => FieldView::Text(v@),
            Field::Binary(v) => FieldView::Binary(v@),
            Field::Decimal(mantissa, scale) => FieldView::Decimal(mantissa, scale),
            Field::Timestamp(seconds, nanoseconds, offset) => FieldView::Timestamp(
                seconds,
                nanoseconds,
                offset,
            ),
            Field::Date(days) => FieldView::Date(days),
            Field::Bson(v) => FieldView::Bson(v@),
            Field::Point(x, y) => FieldView::Point(x, y),
            Field::Null => FieldView::Null,
        }
    }
}

impl Field {
    /// Whether the value is null.
    pub fn is_null(&self) -> (null: bool)
        ensures
            null == (self@ is Null),
    {
        match self {
            Field::Null => true,
            _ => false,
        }
    }

    /// Whether the value is of the variant that belongs to `typ`.
    pub fn has_type(&self, typ: FieldType) -> (matches: bool)
        ensures
            matches == self@.has_type(typ),
    {
        match (typ, self) {
            (FieldType::UInt, Field::UInt(_)) => true,
            (FieldType::Int, Field::Int(_)) => true,
            (FieldType::Float, Field::Float(_)) => true,
            (FieldType::Boolean, Field::Boolean(_)) => true,
            (FieldType::String, Field::String(_)) => true,
            (FieldType::Text, Field::Text(_)) => true,
            (FieldType::Binary, Field::Binary(_)) => true,
            (FieldType::Decimal, Field::Decimal(_, _)) => true,
            (FieldType::Timestamp, Field::Timestamp(_, _, _)) => true,
            (FieldType::Date, Field::Date(_)) => true,
            (FieldType::Bson, Field::Bson(_)) => true,
            (FieldType::Point, Field::Point(_, _)) => true,
            _ => false,
        }
    }
}

impl Clone for Field {
    fn clone(&self) -> (copy: Field)
        ensures
            copy@ == self@,
    {
        match self {
            Field::UInt(v) => Field::UInt(*v),
            Field::Int(v) => Field::Int(*v),
            Field::Float(bits) => Field::Float(*bits),
            Field::Boolean(v) => Field::Boolean(*v),
            Field::String(v) => Field::String(v.clone()),
            Field::Text(v) => Field::Text(v.clone()),
            Field::Binary(v) => Field::Binary(slice_to_vec(v.as_slice())),
            Field::Decimal(mantissa, scale) => Field::Decimal(*mantissa, *scale),
            Field::Timestamp(seconds, nanoseconds, offset) => Field::Timestamp(
                *seconds,
                *nanoseconds,
                *offset,
            ),
            Field::Date(days) => Field::Date(*days),
            Field::Bson(v) => Field::Bson(slice_to_vec(v.as_slice())),
            Field::Point(x, y) => Field::Point(*x, *y),
            Field::Null => Field::Null,
        }
    }
}

/// A row of a cache.
#[derive(Debug, PartialEq, Eq)]
pub struct Record {
    /// The identifier of the schema that the record was made for.
    pub schema_id: Option<SchemaIdentifier>,
    pub values: Vec<Field>,
    /// How many times a record was inserted under this record's primary key,
    /// this record included. Set by the insert.
    pub version: Option<u32>,
}

/// A record as a mathematical value.
#[verifier::ext_equal]
pub struct RecordView {
    pub schema_id: Option<SchemaIdentifier>,
    pub values: Seq<FieldView>,
    pub version: Option<u32>,
}

impl RecordView {
    /// The record with its version set to `version`.
    pub open spec fn with_version(self, version: u32) -> RecordView {
        RecordView { version: Some(version), ..self }
    }
}

impl View for Record {
    type V = RecordView;

    open spec fn view(&self) -> RecordView {
        RecordView {
            schema_id: self.schema_id,
            values: self.values@.map_values(|value: Field| value@),
            version: self.version,
        }
    }
}

impl Record {
    /// A record of the given values, without a version.
    pub fn new(schema_id: Option<SchemaIdentifier>, values: Vec<Field>) -> (record: Record)
        ensures
            record.schema_id == schema_id,
            record.values == values,
            record.version is None,
    {
        Record { schema_id, values, version: None }
    }
}

impl Clone for Record {
    fn clone(&self) -> (copy: Record)
        ensures
            copy@ == self@,
    {
        let mut values: Vec<Field> = Vec::new();
        let mut i: usize = 0;
        while i < self.values.len()
            invariant
                i <= self.values@.len(),
                values@.len() == i,
                forall|j: int| 0 <= j < i ==> values@[j]@ == self.values@[j]@,
            decreases self.values@.len() - i,
        {
            values.push(self.values[i].clone());
            i += 1;
        }
        let copy = Record { schema_id: self.schema_id, values, version: self.version };
        assert(copy@.values =~= self@.values);
        copy
    }
}

/// A record together with its record id.
#[derive(Debug, PartialEq, Eq)]
pub struct RecordWithId {
    pub id: u64,
    pub record: Record,
}

/// A record with its id as a mathematical value.
pub struct RecordWithIdView {
    pub id: u64,
    pub record: RecordView,
}

impl View for RecordWithId {
    type V = RecordWithIdView;

    open spec fn view(&self) -> RecordWithIdView {
        RecordWithIdView { id: self.id, record: self.record@ }
    }
}

impl RecordWithId {
    pub fn new(id: u64, record: Record) -> (with_id: RecordWithId)
        ensures
            with_id.id == id,
            with_id.record == record,
    {
        RecordWithId { id, record }
    }
}

impl Clone for RecordWithId {
    fn clone(&self) -> (copy: RecordWithId)
        ensures
            copy@ == self@,
    {
        RecordWithId { id: self.id, record: self.record.clone() }
    }
}

/// Whether a record has the shape that a schema asks for: the record names
/// the schema, it has one value for each field, and each value fits its field.
pub open spec fn schema_record_consistent(schema: SchemaView, record: RecordView) -> bool {
    &&& schema.identifier == record.schema_id
    &&& schema.fields.len() == record.values.len()
    &&& forall|i: int|
        0 <= i < schema.fields.len() ==> (#[trigger] record.values[i]).fits(schema.fields[i])
}

/// Whether two optional schema identifiers are the same.
fn same_identifier(a: Option<SchemaIdentifier>, b: Option<SchemaIdentifier>) -> (same: bool)
    ensures
        same == (a == b),
{
    match (a, b) {
        (None, None) => true,
        (Some(a), Some(b)) => a.id == b.id && a.version == b.version,
        _ => false,
    }
}

/// Checks that a record has the shape that a schema asks for.
pub fn check_schema_record_consistency(schema: &Schema, record: &Record) -> (consistent: bool)
    ensures
        consistent == schema_record_consistent(schema@, record@),
{
    if !same_identifier(schema.identifier, record.schema_id) {
        return false;
    }
    if schema.fields.len() != record.values.len() {
        return false;
    }
    let mut i: usize = 0;
    while i < schema.fields.len()
        invariant
            schema.fields@.len() == record.values@.len(),
            i <= schema.fields@.len(),
            forall|j: int| 0 <= j < i ==> (#[trigger] record@.values[j]).fits(schema@.fields[j]),
        decreases schema.fields@.len() - i,
    {
        let definition = schema.fields[i];
        let value = &record.values[i];
        let fits = (definition.nullable && value.is_null()) || value.has_type(definition.typ);
        assert(fits == record@.values[i as int].fits(schema@.fields[i as int]));
        if !fits {
            return false;
        }
        i += 1;
    }
    true
}

} // verus!
