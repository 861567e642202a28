//! The main environment: the collections that give records their identity,
//! version them across inserts and deletes, and log every mutation.

use vstd::prelude::*;
use crate::errors::CacheError;
use crate::metadata::RecordMetadata;
use crate::operation::Operation;
use crate::plan::{plan_delete, plan_get, plan_insert};
use crate::state::EnvironmentState;
use crate::store::{strictly_increasing, MetadataMap, OperationIdSet, OperationLog};
use crate::types::{schema_record_consistent, Record, RecordWithId, Schema};

verus! {

/// The main environment of a record cache.
#[derive(Debug)]
pub struct MainEnvironment {
    /// Record primary key -> metadata. Empty if the schema has no primary
    /// key. Its size never shrinks.
    primary_key_to_metadata: MetadataMap,
    /// The operation ids of the latest inserts of the live keys. Empty if
    /// the schema has no primary key.
    present_operation_ids: OperationIdSet,
    /// The next operation id. It only grows.
    next_operation_id: u64,
    /// Operation id -> operation.
    operation_id_to_operation: OperationLog,
}

impl View for MainEnvironment {
    type V = EnvironmentState;

    closed spec fn view(&self) -> EnvironmentState {
        EnvironmentState {
            primary_key_to_metadata: self.primary_key_to_metadata@,
            present_operation_ids: self.present_operation_ids@,
            next_operation_id: self.next_operation_id,
            operation_id_to_operation: self.operation_id_to_operation@,
        }
    }
}

impl MainEnvironment {
    /// What the collections promise each other: each is in order, and the
    /// counter stands at the size of the log.
    pub closed spec fn represented(self) -> bool {
        &&& self.primary_key_to_metadata.wf()
        &&& self.present_operation_ids.wf()
        &&& self.next_operation_id == self.operation_id_to_operation.size()
    }

    /// What holds of an environment between any two calls.
    pub open spec fn wf(self) -> bool {
        &&& self.represented()
        &&& self@.wf()
    }

    /// An environment in which nothing has happened yet.
    pub fn new() -> (environment: MainEnvironment)
        ensures
            environment.wf(),
            environment@ == EnvironmentState::empty(),
    {
        let environment = MainEnvironment {
            primary_key_to_metadata: MetadataMap::new(),
            present_operation_ids: OperationIdSet::new(),
            next_operation_id: 0,
            operation_id_to_operation: OperationLog::new(),
        };
        proof {
            EnvironmentState::lemma_empty_wf();
        }
        environment
    }

    /// The id that the next operation gets.
    pub fn next_operation_id(&self) -> (next: u64)
        ensures
            next == self@.next_operation_id,
    {
        self.next_operation_id
    }

    /// What is stored under a primary key.
    pub fn metadata(&self, key: &[u8]) -> (metadata: Option<RecordMetadata>)
        requires
            self.wf(),
        ensures
            metadata == self@.metadata_of(key@),
    {
        self.primary_key_to_metadata.get(key)
    }

    /// The number of records that can be read: under an append-only schema
    /// the size of the log, else the number of present operation ids.
    pub fn count(&self, schema_is_append_only: bool) -> (count: usize)
        requires
            self.wf(),
        ensures
            count == self@.count(schema_is_append_only),
    {
        if schema_is_append_only {
            self.operation_id_to_operation.count()
        } else {
            self.present_operation_ids.count()
        }
    }

    /// The operation ids under which a record can be read, in increasing
    /// order: under an append-only schema the keys of the log, else the
    /// present operation ids.
    pub fn present_operation_ids(&self, schema_is_append_only: bool) -> (ids: Vec<u64>)
        requires
            self.wf(),
        ensures
            strictly_increasing(ids@),
            ids@.to_set() == self@.readable_operation_ids(schema_is_append_only),
    {
        if schema_is_append_only {
            self.operation_id_to_operation.keys()
        } else {
            self.present_operation_ids.to_vec()
        }
    }

    /// The live record under a primary key, with its record id. Fails where
    /// the key was never inserted or its record is deleted.
    pub fn get(&self, key: &[u8]) -> (result: Result<RecordWithId, CacheError>)
        requires
            self.wf(),
        ensures
            self@.get(key@) == (match result {
                Ok(found) => Ok::<_, CacheError>(found@),
                Err(error) => Err(error),
            }),
    {
        let operation_id = plan_get(self.primary_key_to_metadata.get(key))?;
        assert(self@.primary_key_to_metadata.dom().contains(key@));
        match self.get_by_operation_id_unchecked(operation_id) {
            Some(found) => Ok(found),
            // Never taken: the latest insert of a live key is in the log.
            None => Err(CacheError::PrimaryKeyNotFound),
        }
    }

    /// The record that an operation id stands for, with its record id.
    ///
    /// Under a schema with a primary key, only a present operation id stands
    /// for a record: not a delete, and not an insert that a delete has
    /// superseded. Under an append-only schema every operation id of the log
    /// does, and the log must hold an insert there, as it does in every
    /// append-only environment.
    pub fn get_by_operation_id(&self, operation_id: u64, schema_is_append_only: bool) -> (result:
        Option<RecordWithId>)
        requires
            self.wf(),
            schema_is_append_only && self@.operation_id_to_operation.dom().contains(operation_id)
                ==> self@.operation_id_to_operation[operation_id] is Insert,
        ensures
            self@.get_by_operation_id(operation_id, schema_is_append_only) == (match result {
                Some(found) => Some(found@),
                None => None,
            }),
    {
        if !schema_is_append_only && !self.present_operation_ids.contains(operation_id) {
            None
        } else {
            proof {
                if !schema_is_append_only {
                    self@.lemma_present_id_is_logged(operation_id);
                }
            }
            self.get_by_operation_id_unchecked(operation_id)
        }
    }

    /// The record of the insert that the log holds under an operation id.
    /// `None` where the log holds nothing there. The caller knows that the
    /// log holds no delete there.
    fn get_by_operation_id_unchecked(&self, operation_id: u64) -> (found: Option<RecordWithId>)
        requires
            self@.operation_id_to_operation.dom().contains(operation_id)
                ==> self@.operation_id_to_operation[operation_id] is Insert,
        ensures
            (match found {
                Some(record) => {
                    &&& self@.operation_id_to_operation.dom().contains(operation_id)
                    &&& record@ == self@.operation_id_to_operation[operation_id].inserted()
                },
                None => !self@.operation_id_to_operation.dom().contains(operation_id),
            }),
    {
        match self.operation_id_to_operation.get(operation_id) {
            Some(Operation::Insert { record_id, record }) => Some(
                RecordWithId::new(*record_id, record.clone()),
            ),
            _ => None,
        }
    }

    /// Inserts the record under its primary key and sets the record's
    /// version. Returns the record id and the operation id.
    ///
    /// Under a schema with a primary key, the first insert of a key gives the
    /// record the next record id and the initial version. An insert after a
    /// delete keeps the record id and moves to the next version. An insert
    /// under a live key is refused and changes nothing. Under an append-only
    /// schema the primary key is not read, the record id is the operation id,
    /// and the version the initial one.
    pub fn insert(&mut self, record: &mut Record, schema: &Schema, primary_key: &[u8]) -> (result:
        Result<(u64, u64), CacheError>)
        requires
            old(self).wf(),
            schema_record_consistent(schema@, old(record)@),
            old(self)@.has_room_for_insert(primary_key@, schema@.is_append_only()),
        ensures
            final(self).wf(),
            result == old(self)@.insert_result(primary_key@, schema@.is_append_only()),
            final(self)@ == old(self)@.after_insert(
                primary_key@,
                old(record)@,
                schema@.is_append_only(),
            ),
            final(record)@ == old(self)@.inserted_record(
                primary_key@,
                old(record)@,
                schema@.is_append_only(),
            ),
    {
        let append_only = schema.is_append_only();
        proof {
            self@.lemma_insert_preserves_wf(primary_key@, record@, append_only);
            self@.lemma_next_operation_id_is_fresh();
        }
        // Generate the operation id.
        let operation_id = self.next_operation_id;
        // Decide the record id and the version.
        let existing = if append_only {
            None
        } else {
            self.primary_key_to_metadata.get(primary_key)
        };
        let next_record_id = self.primary_key_to_metadata.count() as u64;
        let plan = plan_insert(append_only, existing, next_record_id, operation_id)?;
        // Update `primary_key_to_metadata` and `present_operation_ids`.
        if let Some(metadata) = plan.metadata {
            self.primary_key_to_metadata.insert_overwrite(primary_key, metadata);
            let added = self.present_operation_ids.insert(operation_id);
            assert(added);
        }
        // Update the record version.
        record.version = Some(plan.version);
        // Record the operation. The operation id is new.
        let logged = self.operation_id_to_operation.append(
            Operation::Insert { record_id: plan.record_id, record: record.clone() },
        );
        assert(logged == operation_id);
        self.next_operation_id = operation_id + 1;
        Ok((plan.record_id, operation_id))
    }

    /// Deletes the live record under a primary key. Returns the version of
    /// the deleted record and the operation id of its insert. The version
    /// stays with the key. Fails, and changes nothing, where the key was never
    /// inserted or its record is deleted already.
    pub fn delete(&mut self, primary_key: &[u8]) -> (result: Result<(u32, u64), CacheError>)
        requires
            old(self).wf(),
            old(self)@.has_room_for_delete(),
        ensures
            final(self).wf(),
            result == old(self)@.delete_result(primary_key@),
            final(self)@ == old(self)@.after_delete(primary_key@),
    {
        proof {
            self@.lemma_delete_preserves_wf(primary_key@);
        }
        // Find the operation id by the primary key.
        let plan = plan_delete(self.primary_key_to_metadata.get(primary_key))?;
        // Store the tombstone.
        self.primary_key_to_metadata.insert_overwrite(primary_key, plan.tombstone);
        // Remove the superseded operation id. It is present.
        let removed = self.present_operation_ids.remove(plan.superseded);
        assert(removed) by {
            assert(old(self)@.primary_key_to_metadata.dom().contains(primary_key@));
            assert(old(self)@.live_insert_ids().contains(plan.superseded));
        }
        // Record the delete under a new operation id.
        let operation_id = self.operation_id_to_operation.append(
            Operation::Delete { operation_id: plan.superseded },
        );
        self.next_operation_id = operation_id + 1;
        Ok((plan.tombstone.version, plan.superseded))
    }
}

} // verus!
