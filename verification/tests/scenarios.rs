use record_cache::errors::CacheError;
use record_cache::main_environment::MainEnvironment;
use record_cache::types::{Field, FieldDefinition, FieldType, Record, Schema, SchemaIdentifier};

fn identifier() -> Option<SchemaIdentifier> {
    Some(SchemaIdentifier { id: 7, version: 1 })
}

fn fields() -> Vec<FieldDefinition> {
    vec![
        FieldDefinition { typ: FieldType::UInt, nullable: false },
        FieldDefinition { typ: FieldType::String, nullable: false },
    ]
}

fn keyed_schema() -> Schema {
    Schema { identifier: identifier(), fields: fields(), primary_index: vec![0] }
}

fn append_only_schema() -> Schema {
    Schema { identifier: identifier(), fields: fields(), primary_index: vec![] }
}

fn record(id: u64, name: &str) -> Record {
    Record::new(identifier(), vec![Field::UInt(id), Field::String(name.to_string())])
}

fn pk(id: u64) -> Vec<u8> {
    id.to_be_bytes().to_vec()
}

fn after_two_inserts() -> MainEnvironment {
    let mut environment = MainEnvironment::new();
    let schema = keyed_schema();
    environment.insert(&mut record(1, "a"), &schema, &pk(1)).unwrap();
    environment.insert(&mut record(2, "b"), &schema, &pk(2)).unwrap();
    environment
}

#[test]
fn empty_environment_counts_nothing() {
    let environment = MainEnvironment::new();
    assert_eq!(environment.count(false), 0);
    assert_eq!(environment.count(true), 0);
    assert_eq!(environment.next_operation_id(), 0);
    assert_eq!(environment.present_operation_ids(false), Vec::<u64>::new());
    assert_eq!(environment.present_operation_ids(true), Vec::<u64>::new());
}

#[test]
fn first_insert_gets_record_id_zero_and_version_one() {
    let mut environment = MainEnvironment::new();
    let schema = keyed_schema();
    let mut a = record(1, "a");
    assert_eq!(environment.insert(&mut a, &schema, &pk(1)), Ok((0, 0)));
    assert_eq!(a.version, Some(1));
    let found = environment.get(&pk(1)).unwrap();
    assert_eq!(found.id, 0);
    assert_eq!(found.record.values[1], Field::String("a".to_string()));
    assert_eq!(found.record, a);
    assert_eq!(environment.count(false), 1);
}

#[test]
fn second_key_gets_the_next_record_id() {
    let mut environment = MainEnvironment::new();
    let schema = keyed_schema();
    assert_eq!(environment.insert(&mut record(1, "a"), &schema, &pk(1)), Ok((0, 0)));
    assert_eq!(environment.insert(&mut record(2, "b"), &schema, &pk(2)), Ok((1, 1)));
    assert_eq!(environment.count(false), 2);
    assert_eq!(environment.present_operation_ids(false), vec![0, 1]);
}

#[test]
fn delete_returns_version_and_insert_operation() {
    let mut environment = after_two_inserts();
    assert_eq!(environment.next_operation_id(), 2);
    assert_eq!(environment.delete(&pk(1)), Ok((1, 0)));
    assert_eq!(environment.count(false), 1);
    assert_eq!(environment.get_by_operation_id(0, false), None);
    assert_eq!(environment.next_operation_id(), 3);
    assert_eq!(environment.present_operation_ids(false), vec![1]);
    assert_eq!(environment.get(&pk(1)), Err(CacheError::PrimaryKeyNotFound));
}

#[test]
fn insert_after_delete_keeps_the_record_id() {
    let mut environment = after_two_inserts();
    environment.delete(&pk(1)).unwrap();
    let schema = keyed_schema();
    let mut again = record(1, "a2");
    assert_eq!(environment.insert(&mut again, &schema, &pk(1)), Ok((0, 3)));
    assert_eq!(again.version, Some(2));
    let found = environment.get(&pk(1)).unwrap();
    assert_eq!(found.id, 0);
    assert_eq!(found.record.version, Some(2));
    assert_eq!(found.record.values[1], Field::String("a2".to_string()));
    assert_eq!(environment.count(false), 2);
    assert_eq!(environment.present_operation_ids(false), vec![1, 3]);
}

#[test]
fn append_only_inserts_use_the_operation_id() {
    let mut environment = MainEnvironment::new();
    let schema = append_only_schema();
    let mut first = record(1, "a");
    assert_eq!(environment.insert(&mut first, &schema, &[]), Ok((0, 0)));
    assert_eq!(environment.insert(&mut record(1, "a"), &schema, &[]), Ok((1, 1)));
    assert_eq!(environment.insert(&mut record(3, "c"), &schema, &[]), Ok((2, 2)));
    assert_eq!(first.version, Some(1));
    assert_eq!(environment.count(true), 3);
    assert_eq!(environment.present_operation_ids(true), vec![0, 1, 2]);
    assert_eq!(environment.count(false), 0);
    assert_eq!(environment.present_operation_ids(false), Vec::<u64>::new());
    for operation_id in 0..3u64 {
        let found = environment.get_by_operation_id(operation_id, true).unwrap();
        assert_eq!(found.id, operation_id);
        assert_eq!(found.record.version, Some(1));
    }
    assert_eq!(environment.get_by_operation_id(3, true), None);
    assert_eq!(environment.get_by_operation_id(0, true).unwrap().record, first);
    // No primary key was stored, and none can be found or deleted.
    assert_eq!(environment.metadata(&[]), None);
    assert_eq!(environment.get(&[]), Err(CacheError::PrimaryKeyNotFound));
    assert_eq!(environment.delete(&[]), Err(CacheError::PrimaryKeyNotFound));
    assert_eq!(environment.next_operation_id(), 3);
}

#[test]
fn operation_ids_are_dense_after_any_mix() {
    let mut environment = MainEnvironment::new();
    let schema = keyed_schema();
    let mut accepted = 0;
    for step in 0..40u64 {
        let key = pk(step % 7);
        let done = if step % 3 == 2 {
            environment.delete(&key).is_ok()
        } else {
            environment.insert(&mut record(step % 7, "x"), &schema, &key).is_ok()
        };
        if done {
            accepted += 1;
        }
        assert_eq!(environment.next_operation_id(), accepted);
        assert_eq!(environment.count(true), accepted as usize);
        assert_eq!(
            environment.present_operation_ids(true),
            (0..accepted).collect::<Vec<u64>>()
        );
    }
    assert!(accepted > 0 && accepted < 40);
}

#[test]
fn double_insert_is_refused_and_changes_nothing() {
    let mut environment = MainEnvironment::new();
    let schema = keyed_schema();
    environment.insert(&mut record(1, "a"), &schema, &pk(1)).unwrap();
    let mut second = record(1, "other");
    assert_eq!(
        environment.insert(&mut second, &schema, &pk(1)),
        Err(CacheError::PrimaryKeyExists)
    );
    assert_eq!(second.version, None);
    assert_eq!(environment.next_operation_id(), 1);
    assert_eq!(environment.count(false), 1);
    assert_eq!(environment.count(true), 1);
    assert_eq!(environment.present_operation_ids(false), vec![0]);
    let found = environment.get(&pk(1)).unwrap();
    assert_eq!(found.record.values[1], Field::String("a".to_string()));
    assert_eq!(found.record.version, Some(1));
}

#[test]
fn delete_of_unknown_key_is_refused() {
    let mut environment = after_two_inserts();
    assert_eq!(environment.delete(&pk(3)), Err(CacheError::PrimaryKeyNotFound));
    assert_eq!(environment.next_operation_id(), 2);
    assert_eq!(environment.count(false), 2);
}

#[test]
fn delete_of_tombstoned_key_is_refused() {
    let mut environment = after_two_inserts();
    assert_eq!(environment.delete(&pk(2)), Ok((1, 1)));
    assert_eq!(environment.delete(&pk(2)), Err(CacheError::PrimaryKeyNotFound));
    assert_eq!(environment.next_operation_id(), 3);
    assert_eq!(environment.count(false), 1);
    assert_eq!(environment.count(true), 3);
}

#[test]
fn get_of_unknown_key_is_refused() {
    let environment = after_two_inserts();
    assert_eq!(environment.get(&pk(9)), Err(CacheError::PrimaryKeyNotFound));
    assert_eq!(environment.get(&[]), Err(CacheError::PrimaryKeyNotFound));
}

#[test]
fn tombstone_operation_ids_stand_for_no_record() {
    let mut environment = after_two_inserts();
    environment.delete(&pk(1)).unwrap();
    // Operation 0 is the superseded insert, operation 2 the delete itself.
    assert_eq!(environment.get_by_operation_id(0, false), None);
    assert_eq!(environment.get_by_operation_id(2, false), None);
    assert_eq!(environment.get_by_operation_id(5, false), None);
    let live = environment.get_by_operation_id(1, false).unwrap();
    assert_eq!(live.id, 1);
    assert_eq!(live.record.values[0], Field::UInt(2));
}

#[test]
fn version_counts_inserts_across_deletes() {
    let mut environment = MainEnvironment::new();
    let schema = keyed_schema();
    for round in 1..=5u32 {
        let mut r = record(1, "a");
        let (record_id, _) = environment.insert(&mut r, &schema, &pk(1)).unwrap();
        assert_eq!(record_id, 0);
        assert_eq!(r.version, Some(round));
        assert_eq!(environment.metadata(&pk(1)).unwrap().version, round);
        let (version, _) = environment.delete(&pk(1)).unwrap();
        assert_eq!(version, round);
        assert_eq!(environment.metadata(&pk(1)).unwrap().version, round);
        assert_eq!(environment.metadata(&pk(1)).unwrap().id, 0);
    }
    assert_eq!(environment.next_operation_id(), 10);
    assert_eq!(environment.count(true), 10);
    assert_eq!(environment.count(false), 0);
}

#[test]
fn present_operation_ids_are_the_live_inserts() {
    let mut environment = MainEnvironment::new();
    let schema = keyed_schema();
    for id in 0..6u64 {
        environment.insert(&mut record(id, "x"), &schema, &pk(id)).unwrap();
    }
    environment.delete(&pk(2)).unwrap();
    environment.delete(&pk(4)).unwrap();
    environment.insert(&mut record(2, "y"), &schema, &pk(2)).unwrap();
    let present = environment.present_operation_ids(false);
    assert_eq!(present, vec![0, 1, 3, 5, 8]);
    let mut live = Vec::new();
    for id in 0..6u64 {
        if let Some(operation_id) = environment.metadata(&pk(id)).unwrap().insert_operation_id {
            live.push(operation_id);
        }
    }
    live.sort();
    assert_eq!(live, present);
    assert_eq!(environment.count(false), 5);
    assert_eq!(environment.present_operation_ids(true), (0..9u64).collect::<Vec<u64>>());
}

#[test]
fn get_returns_what_get_by_operation_id_returns() {
    let mut environment = MainEnvironment::new();
    let schema = keyed_schema();
    let mut r = record(5, "five");
    let (record_id, operation_id) = environment.insert(&mut r, &schema, &pk(5)).unwrap();
    let by_key = environment.get(&pk(5)).unwrap();
    let by_operation = environment.get_by_operation_id(operation_id, false).unwrap();
    assert_eq!(by_key, by_operation);
    assert_eq!(by_key.id, record_id);
    assert_eq!(by_key.record, r);
    assert_eq!(by_key.clone(), by_key);
}

#[test]
fn keys_are_compared_byte_by_byte() {
    let mut environment = MainEnvironment::new();
    let schema = keyed_schema();
    assert_eq!(environment.insert(&mut record(1, "a"), &schema, &[1, 2, 3]), Ok((0, 0)));
    assert_eq!(environment.insert(&mut record(1, "a"), &schema, &[1, 2]), Ok((1, 1)));
    assert_eq!(environment.insert(&mut record(1, "a"), &schema, &[1, 2, 4]), Ok((2, 2)));
    assert_eq!(environment.insert(&mut record(1, "a"), &schema, &[]), Ok((3, 3)));
    assert_eq!(
        environment.insert(&mut record(1, "a"), &schema, &[1, 2, 3]),
        Err(CacheError::PrimaryKeyExists)
    );
    assert_eq!(environment.get(&[1, 2]).unwrap().id, 1);
    assert_eq!(environment.metadata(&[1, 2, 4]).unwrap().insert_operation_id, Some(2));
    assert_eq!(environment.metadata(&[1]), None);
}
