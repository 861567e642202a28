//! The environment as a mathematical value, and what each operation makes
//! of it.

use vstd::prelude::*;
use crate::errors::CacheError;
use crate::metadata::{KeyState, RecordMetadata, INITIAL_RECORD_VERSION};
use crate::operation::OperationView;
use crate::plan::{delete_plan, get_plan, insert_plan, DeletePlan, InsertPlan};
use crate::types::{RecordView, RecordWithIdView};

verus! {

/// The four collections of an environment.
#[verifier::ext_equal]
pub struct EnvironmentState {
    /// Primary key to metadata. Entries are added and overwritten, never removed.
    pub primary_key_to_metadata: Map<Seq<u8>, RecordMetadata>,
    /// The operation ids of the inserts that no delete has superseded.
    pub present_operation_ids: Set<u64>,
    /// The id that the next operation gets.
    pub next_operation_id: u64,
    /// The log: operation id to operation.
    pub operation_id_to_operation: Map<u64, OperationView>,
}

impl EnvironmentState {
    /// The environment in which nothing has happened yet.
    pub open spec fn empty() -> EnvironmentState {
        EnvironmentState {
            primary_key_to_metadata: Map::empty(),
            present_operation_ids: Set::empty(),
            next_operation_id: 0,
            operation_id_to_operation: Map::empty(),
        }
    }

    /// What is stored under a primary key.
    pub open spec fn metadata_of(self, key: Seq<u8>) -> Option<RecordMetadata> {
        if self.primary_key_to_metadata.dom().contains(key) {
            Some(self.primary_key_to_metadata[key])
        } else {
            None
        }
    }

    /// Where a primary key stands in its life.
    pub open spec fn key_state(self, key: Seq<u8>) -> KeyState {
        RecordMetadata::state_of(self.metadata_of(key))
    }

    /// The record id that the next unknown key gets: the number of keys seen
    /// so far.
    pub open spec fn next_record_id(self) -> u64 {
        self.primary_key_to_metadata.len() as u64
    }

    /// The operation ids of the latest inserts of the live keys.
    pub open spec fn live_insert_ids(self) -> Set<u64> {
        Set::new(
            |operation_id: u64|
                exists|key: Seq<u8>|
                    #[trigger] self.primary_key_to_metadata.dom().contains(key)
                        && self.primary_key_to_metadata[key].insert_operation_id == Some(
                        operation_id,
                    ),
        )
    }

    /// The operation ids are dense: the log holds exactly the ids below the
    /// counter.
    pub open spec fn log_is_dense(self) -> bool {
        forall|operation_id: u64|
            #[trigger] self.operation_id_to_operation.dom().contains(operation_id)
                <==> operation_id < self.next_operation_id
    }

    /// The latest insert of every live key is in the log, under the record
    /// id of the key.
    pub open spec fn live_inserts_are_logged(self) -> bool {
        forall|key: Seq<u8>|
            #[trigger] self.primary_key_to_metadata.dom().contains(key)
                ==> (self.primary_key_to_metadata[key].insert_operation_id matches Some(
                operation_id,
            ) ==> {
                &&& self.operation_id_to_operation.dom().contains(operation_id)
                &&& self.operation_id_to_operation[operation_id] is Insert
                &&& self.operation_id_to_operation[operation_id]->record_id
                    == self.primary_key_to_metadata[key].id
            })
    }

    /// The present operation ids are exactly the latest inserts of the live
    /// keys.
    pub open spec fn present_ids_are_live_inserts(self) -> bool {
        self.present_operation_ids =~= self.live_insert_ids()
    }

    /// The record ids of the keys are the numbers below the number of keys,
    /// each used once.
    pub open spec fn record_ids_are_dense(self) -> bool {
        &&& forall|key: Seq<u8>|
            #[trigger] self.primary_key_to_metadata.dom().contains(key)
                ==> self.primary_key_to_metadata[key].id < self.primary_key_to_metadata.len()
        &&& forall|a: Seq<u8>, b: Seq<u8>|
            #[trigger] self.primary_key_to_metadata.dom().contains(a)
                && #[trigger] self.primary_key_to_metadata.dom().contains(b)
                && self.primary_key_to_metadata[a].id == self.primary_key_to_metadata[b].id ==> a
                == b
    }

    /// Every key has been inserted at least once.
    pub open spec fn versions_are_positive(self) -> bool {
        forall|key: Seq<u8>|
            #[trigger] self.primary_key_to_metadata.dom().contains(key)
                ==> self.primary_key_to_metadata[key].version >= INITIAL_RECORD_VERSION
    }

    /// Every delete in the log names an earlier insert.
    pub open spec fn deletes_follow_inserts(self) -> bool {
        forall|operation_id: u64|
            #[trigger] self.operation_id_to_operation.dom().contains(operation_id) ==> (
            self.operation_id_to_operation[operation_id] matches OperationView::Delete {
                operation_id: superseded,
            } ==> {
                &&& superseded < operation_id
                &&& self.operation_id_to_operation.dom().contains(superseded)
                &&& self.operation_id_to_operation[superseded] is Insert
                &&& !self.present_operation_ids.contains(superseded)
            })
    }

    /// What holds of an environment between any two operations.
    pub open spec fn wf(self) -> bool {
        &&& self.primary_key_to_metadata.dom().finite()
        &&& self.present_operation_ids.finite()
        &&& self.primary_key_to_metadata.len() <= self.next_operation_id
        &&& self.log_is_dense()
        &&& self.live_inserts_are_logged()
        &&& self.present_ids_are_live_inserts()
        &&& self.record_ids_are_dense()
        &&& self.versions_are_positive()
        &&& self.deletes_follow_inserts()
    }

    /// What holds of an environment that only ever took inserts under
    /// append-only schemas: no key, no present operation id, and a log of
    /// inserts whose record ids are their operation ids.
    pub open spec fn is_append_only(self) -> bool {
        &&& self.primary_key_to_metadata =~= Map::empty()
        &&& self.present_operation_ids =~= Set::empty()
        &&& forall|operation_id: u64|
            #[trigger] self.operation_id_to_operation.dom().contains(operation_id) ==> {
                &&& self.operation_id_to_operation[operation_id] is Insert
                &&& self.operation_id_to_operation[operation_id]->record_id == operation_id
            }
    }

    /// Whether the counters that an insert under `key` moves have room to
    /// move.
    pub open spec fn has_room_for_insert(self, key: Seq<u8>, append_only: bool) -> bool {
        &&& self.next_operation_id < u64::MAX
        &&& !append_only ==> RecordMetadata::version_has_room(self.metadata_of(key))
    }

    /// Whether the operation counter has room for a delete.
    pub open spec fn has_room_for_delete(self) -> bool {
        self.next_operation_id < u64::MAX
    }

    /// What an insert is to write, or why it is refused.
    pub open spec fn insert_plan(self, key: Seq<u8>, append_only: bool) -> Result<
        InsertPlan,
        CacheError,
    > {
        insert_plan(
            append_only,
            self.metadata_of(key),
            self.next_record_id(),
            self.next_operation_id,
        )
    }

    /// What an insert returns: the record id and the operation id.
    pub open spec fn insert_result(self, key: Seq<u8>, append_only: bool) -> Result<
        (u64, u64),
        CacheError,
    > {
        match self.insert_plan(key, append_only) {
            Ok(plan) => Ok((plan.record_id, plan.operation_id)),
            Err(error) => Err(error),
        }
    }

    /// The record as an insert stores it and leaves it with the caller: with
    /// its version set. A refused insert leaves the record as it was.
    pub open spec fn inserted_record(
        self,
        key: Seq<u8>,
        record: RecordView,
        append_only: bool,
    ) -> RecordView {
        match self.insert_plan(key, append_only) {
            Ok(plan) => record.with_version(plan.version),
            Err(_) => record,
        }
    }

    /// The environment after the plan of an insert of `record` under `key`
    /// is carried out.
    pub open spec fn with_insert(
        self,
        key: Seq<u8>,
        record: RecordView,
        plan: InsertPlan,
    ) -> EnvironmentState {
        EnvironmentState {
            primary_key_to_metadata: match plan.metadata {
                Some(metadata) => self.primary_key_to_metadata.insert(key, metadata),
                None => self.primary_key_to_metadata,
            },
            present_operation_ids: match plan.metadata {
                Some(_) => self.present_operation_ids.insert(plan.operation_id),
                None => self.present_operation_ids,
            },
            next_operation_id: (plan.operation_id + 1) as u64,
            operation_id_to_operation: self.operation_id_to_operation.insert(
                plan.operation_id,
                OperationView::Insert {
                    record_id: plan.record_id,
                    record: record.with_version(plan.version),
                },
            ),
        }
    }

    /// The environment after an insert. A refused insert changes nothing.
    pub open spec fn after_insert(
        self,
        key: Seq<u8>,
        record: RecordView,
        append_only: bool,
    ) -> EnvironmentState {
        match self.insert_plan(key, append_only) {
            Ok(plan) => self.with_insert(key, record, plan),
            Err(_) => self,
        }
    }

    /// What a delete is to write, or why it is refused.
    pub open spec fn delete_plan(self, key: Seq<u8>) -> Result<DeletePlan, CacheError> {
        delete_plan(self.metadata_of(key))
    }

    /// What a delete returns: the version of the deleted record and the
    /// operation id of its insert.
    pub open spec fn delete_result(self, key: Seq<u8>) -> Result<(u32, u64), CacheError> {
        match self.delete_plan(key) {
            Ok(plan) => Ok((plan.tombstone.version, plan.superseded)),
            Err(error) => Err(error),
        }
    }

    /// The environment after the plan of a delete under `key` is carried out.
    pub open spec fn with_delete(self, key: Seq<u8>, plan: DeletePlan) -> EnvironmentState {
        EnvironmentState {
            primary_key_to_metadata: self.primary_key_to_metadata.insert(key, plan.tombstone),
            present_operation_ids: self.present_operation_ids.remove(plan.superseded),
            next_operation_id: (self.next_operation_id + 1) as u64,
            operation_id_to_operation: self.operation_id_to_operation.insert(
                self.next_operation_id,
                OperationView::Delete { operation_id: plan.superseded },
            ),
        }
    }

    /// The environment after a delete. A refused delete changes nothing.
    pub open spec fn after_delete(self, key: Seq<u8>) -> EnvironmentState {
        match self.delete_plan(key) {
            Ok(plan) => self.with_delete(key, plan),
            Err(_) => self,
        }
    }

    /// The live record under a primary key: the record of the latest insert
    /// under the key, as the log holds it.
    pub open spec fn get(self, key: Seq<u8>) -> Result<RecordWithIdView, CacheError> {
        match get_plan(self.metadata_of(key)) {
            Ok(operation_id) => Ok(self.operation_id_to_operation[operation_id].inserted()),
            Err(error) => Err(error),
        }
    }

    /// The operation ids under which a record can be read: all of the log
    /// under an append-only schema, else the present ones.
    pub open spec fn readable_operation_ids(self, append_only: bool) -> Set<u64> {
        if append_only {
            self.operation_id_to_operation.dom()
        } else {
            self.present_operation_ids
        }
    }

    /// The record that an operation id stands for, if it can be read.
    pub open spec fn get_by_operation_id(self, operation_id: u64, append_only: bool) -> Option<
        RecordWithIdView,
    > {
        if self.readable_operation_ids(append_only).contains(operation_id) {
            Some(self.operation_id_to_operation[operation_id].inserted())
        } else {
            None
        }
    }

    /// The number of records that can be read.
    pub open spec fn count(self, append_only: bool) -> nat {
        self.readable_operation_ids(append_only).len()
    }
}


impl EnvironmentState {
    /// The empty environment is well formed, and append-only.
    pub proof fn lemma_empty_wf()
        ensures
            EnvironmentState::empty().wf(),
            EnvironmentState::empty().is_append_only(),
    {
        let empty = EnvironmentState::empty();
        assert(empty.primary_key_to_metadata.dom() =~= Set::empty());
        assert(empty.present_operation_ids =~= empty.live_insert_ids());
    }

    /// The record id that the next unknown key gets is the number of keys,
    /// and no key has it yet.
    pub proof fn lemma_next_record_id_is_unused(self)
        requires
            self.wf(),
        ensures
            self.next_record_id() == self.primary_key_to_metadata.len(),
            forall|key: Seq<u8>|
                #[trigger] self.primary_key_to_metadata.dom().contains(key)
                    ==> self.primary_key_to_metadata[key].id != self.next_record_id(),
    {
    }

    /// The next operation id is new: neither in the log nor present.
    pub proof fn lemma_next_operation_id_is_fresh(self)
        requires
            self.wf(),
        ensures
            !self.operation_id_to_operation.dom().contains(self.next_operation_id),
            !self.present_operation_ids.contains(self.next_operation_id),
    {
        if self.present_operation_ids.contains(self.next_operation_id) {
            self.lemma_present_id_is_logged(self.next_operation_id);
        }
    }

    /// Two live keys never share an insert.
    pub proof fn lemma_live_inserts_differ(self, a: Seq<u8>, b: Seq<u8>)
        requires
            self.wf(),
            self.primary_key_to_metadata.dom().contains(a),
            self.primary_key_to_metadata.dom().contains(b),
            self.primary_key_to_metadata[a].is_live(),
            self.primary_key_to_metadata[a].insert_operation_id
                == self.primary_key_to_metadata[b].insert_operation_id,
        ensures
            a == b,
    {
    }

    /// Every present operation id is the latest insert of a live key, lies
    /// below the counter, and names an insert in the log.
    pub proof fn lemma_present_id_is_logged(self, operation_id: u64)
        requires
            self.wf(),
            self.present_operation_ids.contains(operation_id),
        ensures
            operation_id < self.next_operation_id,
            self.operation_id_to_operation.dom().contains(operation_id),
            self.operation_id_to_operation[operation_id] is Insert,
    {
        assert(self.live_insert_ids().contains(operation_id));
        let key = choose|key: Seq<u8>|
            #[trigger] self.primary_key_to_metadata.dom().contains(key)
                && self.primary_key_to_metadata[key].insert_operation_id == Some(operation_id);
        assert(self.primary_key_to_metadata.dom().contains(key));
    }

    /// An insert keeps the environment well formed.
    pub proof fn lemma_insert_preserves_wf(self, key: Seq<u8>, record: RecordView, append_only: bool)
        requires
            self.wf(),
            self.has_room_for_insert(key, append_only),
        ensures
            self.after_insert(key, record, append_only).wf(),
    {
        let after = self.after_insert(key, record, append_only);
        let operation_id = self.next_operation_id;
        match self.insert_plan(key, append_only) {
            Err(_) => {},
            Ok(plan) => {
                let record_id = plan.record_id;
                let version = plan.version;
                assert(after.log_is_dense());
                assert forall|id: u64| #[trigger]
                    after.operation_id_to_operation.dom().contains(id) implies (
                after.operation_id_to_operation[id] matches OperationView::Delete {
                    operation_id: superseded,
                } ==> {
                    &&& superseded < id
                    &&& after.operation_id_to_operation.dom().contains(superseded)
                    &&& after.operation_id_to_operation[superseded] is Insert
                    &&& !after.present_operation_ids.contains(superseded)
                }) by {
                    if id != operation_id {
                        assert(self.operation_id_to_operation.dom().contains(id));
                    }
                }
                if append_only {
                    assert(after.primary_key_to_metadata == self.primary_key_to_metadata);
                    assert(after.live_insert_ids() =~= self.live_insert_ids());
                    assert forall|k: Seq<u8>| #[trigger]
                        after.primary_key_to_metadata.dom().contains(k) implies (
                    after.primary_key_to_metadata[k].insert_operation_id matches Some(op) ==> {
                        &&& after.operation_id_to_operation.dom().contains(op)
                        &&& after.operation_id_to_operation[op] is Insert
                        &&& after.operation_id_to_operation[op]->record_id
                            == after.primary_key_to_metadata[k].id
                    }) by {
                        assert(self.primary_key_to_metadata.dom().contains(k));
                    }
                } else {
                    let stored = RecordMetadata {
                        id: record_id,
                        version,
                        insert_operation_id: Some(operation_id),
                    };
                    assert(plan.metadata == Some(stored));
                    assert(after.primary_key_to_metadata.dom()
                        =~= self.primary_key_to_metadata.dom().insert(key));
                    let known = self.primary_key_to_metadata.dom().contains(key);
                    if !known {
                        assert(after.primary_key_to_metadata.len()
                            == self.primary_key_to_metadata.len() + 1);
                        assert(record_id == self.primary_key_to_metadata.len());
                    } else {
                        assert(after.primary_key_to_metadata.dom()
                            =~= self.primary_key_to_metadata.dom());
                        assert(!self.primary_key_to_metadata[key].is_live());
                        assert(record_id == self.primary_key_to_metadata[key].id);
                    }
                    // The latest insert of every live key is in the log.
                    assert forall|k: Seq<u8>| #[trigger]
                        after.primary_key_to_metadata.dom().contains(k) implies (
                    after.primary_key_to_metadata[k].insert_operation_id matches Some(op) ==> {
                        &&& after.operation_id_to_operation.dom().contains(op)
                        &&& after.operation_id_to_operation[op] is Insert
                        &&& after.operation_id_to_operation[op]->record_id
                            == after.primary_key_to_metadata[k].id
                    }) by {
                        if k != key {
                            assert(self.primary_key_to_metadata.dom().contains(k));
                        }
                    }
                    // The present ids are the latest inserts of the live keys.
                    assert forall|id: u64|
                        after.present_operation_ids.contains(id)
                            == after.live_insert_ids().contains(id) by {
                        if after.present_operation_ids.contains(id) {
                            if id == operation_id {
                                assert(after.primary_key_to_metadata.dom().contains(key));
                            } else {
                                assert(self.live_insert_ids().contains(id));
                                let owner = choose|k: Seq<u8>|
                                    #[trigger] self.primary_key_to_metadata.dom().contains(k)
                                        && self.primary_key_to_metadata[k].insert_operation_id
                                        == Some(id);
                                assert(owner != key);
                                assert(after.primary_key_to_metadata.dom().contains(owner));
                            }
                        }
                        if after.live_insert_ids().contains(id) {
                            let owner = choose|k: Seq<u8>|
                                #[trigger] after.primary_key_to_metadata.dom().contains(k)
                                    && after.primary_key_to_metadata[k].insert_operation_id
                                    == Some(id);
                            if owner != key {
                                assert(self.primary_key_to_metadata.dom().contains(owner));
                                assert(self.live_insert_ids().contains(id));
                            }
                        }
                    }
                    // The record ids stay dense.
                    assert forall|k: Seq<u8>| #[trigger]
                        after.primary_key_to_metadata.dom().contains(
                            k,
                        ) implies after.primary_key_to_metadata[k].id
                        < after.primary_key_to_metadata.len() by {
                        if k != key {
                            assert(self.primary_key_to_metadata.dom().contains(k));
                        }
                    }
                    assert forall|a: Seq<u8>, b: Seq<u8>|
                        #[trigger] after.primary_key_to_metadata.dom().contains(a)
                            && #[trigger] after.primary_key_to_metadata.dom().contains(b)
                            && after.primary_key_to_metadata[a].id
                            == after.primary_key_to_metadata[b].id implies a == b by {
                        if a != key {
                            assert(self.primary_key_to_metadata.dom().contains(a));
                        }
                        if b != key {
                            assert(self.primary_key_to_metadata.dom().contains(b));
                        }
                    }
                    assert forall|k: Seq<u8>| #[trigger]
                        after.primary_key_to_metadata.dom().contains(
                            k,
                        ) implies after.primary_key_to_metadata[k].version
                        >= INITIAL_RECORD_VERSION by {
                        if k != key {
                            assert(self.primary_key_to_metadata.dom().contains(k));
                        }
                    }
                }
            },
        }
    }

    /// A delete keeps the environment well formed.
    pub proof fn lemma_delete_preserves_wf(self, key: Seq<u8>)
        requires
            self.wf(),
            self.has_room_for_delete(),
        ensures
            self.after_delete(key).wf(),
    {
        let after = self.after_delete(key);
        match self.delete_plan(key) {
            Err(_) => {},
            Ok(plan) => {
                let superseded = plan.superseded;
                let operation_id = self.next_operation_id;
                assert(self.primary_key_to_metadata.dom().contains(key));
                assert(self.primary_key_to_metadata[key].insert_operation_id == Some(superseded));
                assert(after.primary_key_to_metadata.dom() =~= self.primary_key_to_metadata.dom());
                assert(after.log_is_dense());
                assert forall|k: Seq<u8>| #[trigger]
                    after.primary_key_to_metadata.dom().contains(k) implies (
                after.primary_key_to_metadata[k].insert_operation_id matches Some(op) ==> {
                    &&& after.operation_id_to_operation.dom().contains(op)
                    &&& after.operation_id_to_operation[op] is Insert
                    &&& after.operation_id_to_operation[op]->record_id
                        == after.primary_key_to_metadata[k].id
                }) by {
                    assert(self.primary_key_to_metadata.dom().contains(k));
                }
                assert forall|id: u64|
                    after.present_operation_ids.contains(id) == after.live_insert_ids().contains(
                        id,
                    ) by {
                    if after.present_operation_ids.contains(id) {
                        assert(self.live_insert_ids().contains(id));
                        let owner = choose|k: Seq<u8>|
                            #[trigger] self.primary_key_to_metadata.dom().contains(k)
                                && self.primary_key_to_metadata[k].insert_operation_id == Some(id);
                        assert(owner != key);
                        assert(after.primary_key_to_metadata.dom().contains(owner));
                    }
                    if after.live_insert_ids().contains(id) {
                        let owner = choose|k: Seq<u8>|
                            #[trigger] after.primary_key_to_metadata.dom().contains(k)
                                && after.primary_key_to_metadata[k].insert_operation_id == Some(id);
                        assert(owner != key);
                        assert(self.primary_key_to_metadata.dom().contains(owner));
                        assert(self.live_insert_ids().contains(id));
                        if id == superseded {
                            self.lemma_live_inserts_differ(owner, key);
                        }
                    }
                }
                assert forall|k: Seq<u8>| #[trigger]
                    after.primary_key_to_metadata.dom().contains(
                        k,
                    ) implies after.primary_key_to_metadata[k].id
                    < after.primary_key_to_metadata.len() by {
                    assert(self.primary_key_to_metadata.dom().contains(k));
                }
                assert forall|a: Seq<u8>, b: Seq<u8>|
                    #[trigger] after.primary_key_to_metadata.dom().contains(a)
                        && #[trigger] after.primary_key_to_metadata.dom().contains(b)
                        && after.primary_key_to_metadata[a].id
                        == after.primary_key_to_metadata[b].id implies a == b by {
                    assert(self.primary_key_to_metadata.dom().contains(a));
                    assert(self.primary_key_to_metadata.dom().contains(b));
                }
                assert forall|k: Seq<u8>| #[trigger]
                    after.primary_key_to_metadata.dom().contains(
                        k,
                    ) implies after.primary_key_to_metadata[k].version
                    >= INITIAL_RECORD_VERSION by {
                    assert(self.primary_key_to_metadata.dom().contains(k));
                }
                assert forall|id: u64| #[trigger]
                    after.operation_id_to_operation.dom().contains(id) implies (
                after.operation_id_to_operation[id] matches OperationView::Delete {
                    operation_id: earlier,
                } ==> {
                    &&& earlier < id
                    &&& after.operation_id_to_operation.dom().contains(earlier)
                    &&& after.operation_id_to_operation[earlier] is Insert
                    &&& !after.present_operation_ids.contains(earlier)
                }) by {
                    if id != operation_id {
                        assert(self.operation_id_to_operation.dom().contains(id));
                    }
                }
            },
        }
    }
}

} // verus!
