use record_cache::metadata::RecordMetadata;
use record_cache::operation::Operation;
use record_cache::plan::{plan_delete, plan_get, plan_insert, DeletePlan, InsertPlan};
use record_cache::errors::CacheError;
use record_cache::store::{MetadataMap, OperationIdSet, OperationLog};
use record_cache::types::{Field, Record};

fn entry(id: u64) -> RecordMetadata {
    RecordMetadata { id, version: 1, insert_operation_id: Some(10 + id) }
}

#[test]
fn metadata_map_stores_and_overwrites() {
    let mut map = MetadataMap::new();
    assert_eq!(map.count(), 0);
    assert_eq!(map.get(b"a"), None);
    map.insert_overwrite(b"a", entry(0));
    map.insert_overwrite(b"b", entry(1));
    map.insert_overwrite(b"", entry(2));
    assert_eq!(map.count(), 3);
    assert_eq!(map.get(b"a"), Some(entry(0)));
    assert_eq!(map.get(b"b"), Some(entry(1)));
    assert_eq!(map.get(b""), Some(entry(2)));
    assert_eq!(map.get(b"ab"), None);
    let tombstone = RecordMetadata { id: 0, version: 1, insert_operation_id: None };
    map.insert_overwrite(b"a", tombstone);
    assert_eq!(map.count(), 3);
    assert_eq!(map.get(b"a"), Some(tombstone));
    assert_eq!(map.get(b"b"), Some(entry(1)));
}

#[test]
fn operation_id_set_keeps_its_ids_in_order() {
    let mut set = OperationIdSet::new();
    assert_eq!(set.count(), 0);
    assert!(set.insert(5));
    assert!(set.insert(1));
    assert!(set.insert(9));
    assert!(set.insert(3));
    assert!(!set.insert(5));
    assert_eq!(set.to_vec(), vec![1, 3, 5, 9]);
    assert_eq!(set.count(), 4);
    assert!(set.contains(1));
    assert!(set.contains(9));
    assert!(!set.contains(0));
    assert!(!set.contains(4));
    assert!(!set.contains(10));
    assert!(set.remove(3));
    assert!(!set.remove(3));
    assert!(!set.remove(4));
    assert_eq!(set.to_vec(), vec![1, 5, 9]);
    assert!(set.remove(1));
    assert!(set.remove(9));
    assert!(set.remove(5));
    assert_eq!(set.to_vec(), Vec::<u64>::new());
    assert_eq!(set.count(), 0);
    assert!(set.insert(u64::MAX));
    assert!(set.insert(0));
    assert_eq!(set.to_vec(), vec![0, u64::MAX]);
}

#[test]
fn operation_log_numbers_its_operations() {
    let mut log = OperationLog::new();
    assert_eq!(log.count(), 0);
    assert_eq!(log.get(0), None);
    assert_eq!(log.keys(), Vec::<u64>::new());
    let record = Record::new(None, vec![Field::Int(-4)]);
    assert_eq!(log.append(Operation::Insert { record_id: 0, record: record.clone() }), 0);
    assert_eq!(log.append(Operation::Delete { operation_id: 0 }), 1);
    assert_eq!(log.append(Operation::Insert { record_id: 0, record: record.clone() }), 2);
    assert_eq!(log.count(), 3);
    assert_eq!(log.keys(), vec![0, 1, 2]);
    assert_eq!(log.get(0), Some(&Operation::Insert { record_id: 0, record }));
    assert_eq!(log.get(1), Some(&Operation::Delete { operation_id: 0 }));
    assert_eq!(log.get(3), None);
    assert_eq!(log.get(u64::MAX), None);
}

#[test]
fn append_only_insert_plan_uses_the_operation_id() {
    let live = RecordMetadata { id: 2, version: 3, insert_operation_id: Some(5) };
    for existing in [None, Some(live)] {
        assert_eq!(
            plan_insert(true, existing, 4, 10),
            Ok(InsertPlan { record_id: 10, version: 1, operation_id: 10, metadata: None })
        );
    }
}

#[test]
fn keyed_insert_plan_follows_the_state_of_the_key() {
    let first = RecordMetadata { id: 4, version: 1, insert_operation_id: Some(10) };
    assert_eq!(
        plan_insert(false, None, 4, 10),
        Ok(InsertPlan { record_id: 4, version: 1, operation_id: 10, metadata: Some(first) })
    );
    let tombstone = RecordMetadata { id: 2, version: 3, insert_operation_id: None };
    let again = RecordMetadata { id: 2, version: 4, insert_operation_id: Some(10) };
    assert_eq!(
        plan_insert(false, Some(tombstone), 4, 10),
        Ok(InsertPlan { record_id: 2, version: 4, operation_id: 10, metadata: Some(again) })
    );
    let live = RecordMetadata { id: 2, version: 3, insert_operation_id: Some(5) };
    assert_eq!(plan_insert(false, Some(live), 4, 10), Err(CacheError::PrimaryKeyExists));
}

#[test]
fn delete_plan_keeps_id_and_version() {
    let live = RecordMetadata { id: 2, version: 3, insert_operation_id: Some(5) };
    let tombstone = RecordMetadata { id: 2, version: 3, insert_operation_id: None };
    assert_eq!(plan_delete(Some(live)), Ok(DeletePlan { tombstone, superseded: 5 }));
    assert_eq!(plan_delete(Some(tombstone)), Err(CacheError::PrimaryKeyNotFound));
    assert_eq!(plan_delete(None), Err(CacheError::PrimaryKeyNotFound));
}

#[test]
fn get_plan_finds_the_insert_of_a_live_key() {
    let live = RecordMetadata { id: 2, version: 3, insert_operation_id: Some(5) };
    let tombstone = RecordMetadata { id: 2, version: 3, insert_operation_id: None };
    assert_eq!(plan_get(Some(live)), Ok(5));
    assert_eq!(plan_get(Some(tombstone)), Err(CacheError::PrimaryKeyNotFound));
    assert_eq!(plan_get(None), Err(CacheError::PrimaryKeyNotFound));
}
