use record_cache::operation::Operation;
use record_cache::types::{
    check_schema_record_consistency, Field, FieldDefinition, FieldType, Record, RecordWithId,
    Schema, SchemaIdentifier,
};

fn identifier() -> Option<SchemaIdentifier> {
    Some(SchemaIdentifier { id: 3, version: 2 })
}

fn schema_of(fields: Vec<FieldDefinition>) -> Schema {
    Schema { identifier: identifier(), fields, primary_index: vec![0] }
}

fn every_type() -> Vec<(FieldType, Field)> {
    vec![
        (FieldType::UInt, Field::UInt(1)),
        (FieldType::Int, Field::Int(-1)),
        (FieldType::Float, Field::Float(1.5f64.to_bits())),
        (FieldType::Boolean, Field::Boolean(true)),
        (FieldType::String, Field::String("s".to_string())),
        (FieldType::Text, Field::Text("t".to_string())),
        (FieldType::Binary, Field::Binary(vec![1, 2])),
        (FieldType::Decimal, Field::Decimal(12345, 2)),
        (FieldType::Timestamp, Field::Timestamp(1_700_000_000, 5, 3600)),
        (FieldType::Date, Field::Date(738_000)),
        (FieldType::Bson, Field::Bson(vec![5, 0, 0, 0, 0])),
        (FieldType::Point, Field::Point(1.0f64.to_bits(), 2.0f64.to_bits())),
    ]
}

#[test]
fn each_value_fits_the_field_of_its_type() {
    let fields = every_type()
        .iter()
        .map(|(typ, _)| FieldDefinition { typ: *typ, nullable: false })
        .collect();
    let values = every_type().into_iter().map(|(_, value)| value).collect();
    assert!(check_schema_record_consistency(&schema_of(fields), &Record::new(identifier(), values)));
}

#[test]
fn a_value_fits_no_field_of_another_type() {
    for (i, (typ, _)) in every_type().into_iter().enumerate() {
        for (j, (_, value)) in every_type().into_iter().enumerate() {
            let expected = i == j;
            assert_eq!(value.has_type(typ), expected);
            let schema = schema_of(vec![FieldDefinition { typ, nullable: true }]);
            let record = Record::new(identifier(), vec![value]);
            assert_eq!(check_schema_record_consistency(&schema, &record), expected);
        }
    }
}

#[test]
fn null_fits_only_a_nullable_field() {
    for (typ, _) in every_type() {
        assert!(!Field::Null.has_type(typ));
        let record = Record::new(identifier(), vec![Field::Null]);
        let nullable = schema_of(vec![FieldDefinition { typ, nullable: true }]);
        let required = schema_of(vec![FieldDefinition { typ, nullable: false }]);
        assert!(check_schema_record_consistency(&nullable, &record));
        assert!(!check_schema_record_consistency(&required, &record));
    }
    assert!(Field::Null.is_null());
    assert!(!Field::UInt(0).is_null());
}

#[test]
fn the_record_must_name_the_schema() {
    let schema = schema_of(vec![FieldDefinition { typ: FieldType::UInt, nullable: false }]);
    let other = Some(SchemaIdentifier { id: 3, version: 3 });
    assert!(check_schema_record_consistency(&schema, &Record::new(identifier(), vec![Field::UInt(1)])));
    assert!(!check_schema_record_consistency(&schema, &Record::new(other, vec![Field::UInt(1)])));
    assert!(!check_schema_record_consistency(&schema, &Record::new(None, vec![Field::UInt(1)])));
    let unnamed = Schema { identifier: None, fields: vec![], primary_index: vec![] };
    assert!(check_schema_record_consistency(&unnamed, &Record::new(None, vec![])));
    assert!(!check_schema_record_consistency(&unnamed, &Record::new(identifier(), vec![])));
}

#[test]
fn the_record_must_have_one_value_for_each_field() {
    let schema = schema_of(vec![
        FieldDefinition { typ: FieldType::UInt, nullable: false },
        FieldDefinition { typ: FieldType::String, nullable: true },
    ]);
    let short = Record::new(identifier(), vec![Field::UInt(1)]);
    let exact = Record::new(identifier(), vec![Field::UInt(1), Field::Null]);
    let long = Record::new(identifier(), vec![Field::UInt(1), Field::Null, Field::Null]);
    assert!(!check_schema_record_consistency(&schema, &short));
    assert!(check_schema_record_consistency(&schema, &exact));
    assert!(!check_schema_record_consistency(&schema, &long));
}

#[test]
fn a_schema_without_primary_key_is_append_only() {
    let keyed = schema_of(vec![]);
    let append_only = Schema { identifier: identifier(), fields: vec![], primary_index: vec![] };
    assert!(!keyed.is_append_only());
    assert!(append_only.is_append_only());
}

#[test]
fn clones_hold_the_same_values() {
    let values: Vec<Field> = every_type().into_iter().map(|(_, value)| value).collect();
    for value in &values {
        assert_eq!(&value.clone(), value);
    }
    assert_eq!(Field::Null.clone(), Field::Null);
    let mut record = Record::new(identifier(), values);
    record.version = Some(4);
    assert_eq!(record.clone(), record);
    let with_id = RecordWithId::new(8, record.clone());
    assert_eq!(with_id.id, 8);
    assert_eq!(with_id.record, record);
    let insert = Operation::Insert { record_id: 8, record };
    assert_eq!(insert.clone(), insert);
    let delete = Operation::Delete { operation_id: 3 };
    assert_eq!(delete.clone(), delete);
}

#[test]
fn a_new_record_has_no_version() {
    let record = Record::new(None, vec![Field::Boolean(false)]);
    assert_eq!(record.version, None);
    assert_eq!(record.schema_id, None);
    assert_eq!(record.values, vec![Field::Boolean(false)]);
}
