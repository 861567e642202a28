//! What holds of an environment over its whole life: after any sequence of
//! inserts and deletes, and across single steps of it.

use vstd::prelude::*;
use crate::errors::CacheError;
use crate::metadata::INITIAL_RECORD_VERSION;
use crate::operation::OperationView;
use crate::state::EnvironmentState;
use crate::store::{ids_below, lemma_ids_below};
use crate::types::{RecordView, RecordWithIdView};

verus! {

/// One mutation asked of an environment.
pub enum Command {
    /// An insert of `record` under `key`. Under an append-only schema the
    /// key is not read.
    Insert { key: Seq<u8>, record: RecordView, append_only: bool },
    /// A delete of the record under `key`.
    Delete { key: Seq<u8> },
}

impl EnvironmentState {
    /// Whether the environment carries out the command, rather than refuse it.
    pub open spec fn accepts(self, command: Command) -> bool {
        match command {
            Command::Insert { key, record, append_only } => self.insert_result(
                key,
                append_only,
            ) is Ok,
            Command::Delete { key } => self.delete_result(key) is Ok,
        }
    }

    /// The environment after the command. A refused command changes nothing.
    pub open spec fn apply(self, command: Command) -> EnvironmentState {
        match command {
            Command::Insert { key, record, append_only } => self.after_insert(
                key,
                record,
                append_only,
            ),
            Command::Delete { key } => self.after_delete(key),
        }
    }

    /// Whether the counters that the command moves have room to move.
    pub open spec fn has_room_for(self, command: Command) -> bool {
        match command {
            Command::Insert { key, record, append_only } => self.has_room_for_insert(
                key,
                append_only,
            ),
            Command::Delete { key } => self.has_room_for_delete(),
        }
    }

    /// The environment after the commands, carried out in order.
    pub open spec fn run(self, commands: Seq<Command>) -> EnvironmentState
        decreases commands.len(),
    {
        if commands.len() == 0 {
            self
        } else {
            self.run(commands.drop_last()).apply(commands.last())
        }
    }

    /// Whether every command of the run finds room in the counters.
    pub open spec fn has_room_for_all(self, commands: Seq<Command>) -> bool
        decreases commands.len(),
    {
        commands.len() > 0 ==> {
            &&& self.has_room_for_all(commands.drop_last())
            &&& self.run(commands.drop_last()).has_room_for(commands.last())
        }
    }

    /// How many commands of the run are carried out.
    pub open spec fn accepted(self, commands: Seq<Command>) -> nat
        decreases commands.len(),
    {
        if commands.len() == 0 {
            0
        } else {
            self.accepted(commands.drop_last()) + if self.run(commands.drop_last()).accepts(
                commands.last(),
            ) {
                1nat
            } else {
                0nat
            }
        }
    }

    /// Whether the command is an insert under `key`, for a schema with a
    /// primary key, that the environment carries out.
    pub open spec fn accepts_insert_under(self, command: Command, key: Seq<u8>) -> bool {
        &&& command matches Command::Insert { key: inserted, append_only, .. }
        &&& inserted == key
        &&& !append_only
        &&& self.accepts(command)
    }

    /// How many inserts under `key` the run carries out.
    pub open spec fn accepted_inserts_under(self, commands: Seq<Command>, key: Seq<u8>) -> nat
        decreases commands.len(),
    {
        if commands.len() == 0 {
            0
        } else {
            self.accepted_inserts_under(commands.drop_last(), key) + if self.run(
                commands.drop_last(),
            ).accepts_insert_under(commands.last(), key) {
                1nat
            } else {
                0nat
            }
        }
    }

    /// The version that stands under a key: zero before its first insert.
    pub open spec fn version_of(self, key: Seq<u8>) -> nat {
        match self.metadata_of(key) {
            Some(metadata) => metadata.version as nat,
            None => 0,
        }
    }

    /// Every command keeps the environment well formed.
    pub proof fn lemma_apply_preserves_wf(self, command: Command)
        requires
            self.wf(),
            self.has_room_for(command),
        ensures
            self.apply(command).wf(),
    {
        match command {
            Command::Insert { key, record, append_only } => {
                self.lemma_insert_preserves_wf(key, record, append_only);
            },
            Command::Delete { key } => {
                self.lemma_delete_preserves_wf(key);
            },
        }
    }

    /// A refused command changes nothing, and an accepted one takes the next
    /// operation id.
    pub proof fn lemma_apply_counts(self, command: Command)
        requires
            self.has_room_for(command),
        ensures
            !self.accepts(command) ==> self.apply(command) == self,
            self.accepts(command) ==> self.apply(command).next_operation_id
                == self.next_operation_id + 1,
    {
    }

    /// At every point of its life the environment is well formed: the log is
    /// dense, the latest insert of every live key is logged under the key's
    /// record id, and the present operation ids are exactly the latest inserts
    /// of the live keys.
    pub proof fn lemma_run_preserves_wf(self, commands: Seq<Command>)
        requires
            self.wf(),
            self.has_room_for_all(commands),
        ensures
            self.run(commands).wf(),
            self.run(commands).present_operation_ids == self.run(commands).live_insert_ids(),
        decreases commands.len(),
    {
        if commands.len() > 0 {
            self.lemma_run_preserves_wf(commands.drop_last());
            self.run(commands.drop_last()).lemma_apply_preserves_wf(commands.last());
        }
    }

    /// The counter moves by one with every command that is carried out, and
    /// stays where it is with every one that is refused.
    pub proof fn lemma_run_counts(self, commands: Seq<Command>)
        requires
            self.has_room_for_all(commands),
        ensures
            self.run(commands).next_operation_id == self.next_operation_id + self.accepted(
                commands,
            ),
        decreases commands.len(),
    {
        if commands.len() > 0 {
            self.lemma_run_counts(commands.drop_last());
            self.run(commands.drop_last()).lemma_apply_counts(commands.last());
        }
    }

    /// After `n` inserts and deletes were carried out on a new environment,
    /// the counter stands at `n`, and the log holds `n` operations, under the
    /// operation ids below `n`.
    pub proof fn lemma_operation_ids_are_dense(commands: Seq<Command>)
        requires
            EnvironmentState::empty().has_room_for_all(commands),
        ensures
            ({
                let n = EnvironmentState::empty().accepted(commands);
                let end = EnvironmentState::empty().run(commands);
                &&& end.next_operation_id == n
                &&& end.operation_id_to_operation.dom().finite()
                &&& end.operation_id_to_operation.len() == n
                &&& forall|operation_id: u64|
                    end.operation_id_to_operation.dom().contains(operation_id) <==> operation_id
                        < n
            }),
    {
        let start = EnvironmentState::empty();
        EnvironmentState::lemma_empty_wf();
        start.lemma_run_preserves_wf(commands);
        start.lemma_run_counts(commands);
        start.run(commands).lemma_log_size();
    }

    /// A key keeps its record id for good: whatever is inserted and deleted
    /// after its first insert, under this key or another.
    pub proof fn lemma_record_id_is_stable(self, commands: Seq<Command>, key: Seq<u8>)
        requires
            self.primary_key_to_metadata.dom().contains(key),
        ensures
            self.run(commands).primary_key_to_metadata.dom().contains(key),
            self.run(commands).primary_key_to_metadata[key].id
                == self.primary_key_to_metadata[key].id,
        decreases commands.len(),
    {
        if commands.len() > 0 {
            self.lemma_record_id_is_stable(commands.drop_last(), key);
        }
    }

    /// The version under a key moves by one with every insert under the key
    /// that is carried out, and with nothing else: it never falls.
    pub proof fn lemma_run_versions(self, commands: Seq<Command>, key: Seq<u8>)
        requires
            self.has_room_for_all(commands),
        ensures
            self.run(commands).version_of(key) == self.version_of(key)
                + self.accepted_inserts_under(commands, key),
            self.run(commands).version_of(key) >= self.version_of(key),
        decreases commands.len(),
    {
        if commands.len() > 0 {
            self.lemma_run_versions(commands.drop_last(), key);
        }
    }

    /// On an environment that started empty, the version under a key is the
    /// number of inserts that were carried out under the key. A delete does
    /// not change it.
    pub proof fn lemma_version_counts_inserts(commands: Seq<Command>, key: Seq<u8>)
        requires
            EnvironmentState::empty().has_room_for_all(commands),
        ensures
            EnvironmentState::empty().run(commands).version_of(key)
                == EnvironmentState::empty().accepted_inserts_under(commands, key),
    {
        EnvironmentState::empty().lemma_run_versions(commands, key);
    }

    /// An environment that takes only inserts under append-only schemas
    /// stays append-only: it has no key and no present operation id, and the
    /// record id of every insert in its log is the operation id.
    pub proof fn lemma_append_only_is_kept(self, commands: Seq<Command>)
        requires
            self.is_append_only(),
            (forall|i: int|
                0 <= i < commands.len() ==> (#[trigger] commands[i] matches Command::Insert {
                    append_only,
                    ..
                } && append_only)),
        ensures
            self.run(commands).is_append_only(),
        decreases commands.len(),
    {
        if commands.len() > 0 {
            self.lemma_append_only_is_kept(commands.drop_last());
            let last = commands[commands.len() - 1];
            assert(last matches Command::Insert { append_only, .. } && append_only);
        }
    }

    /// The number of operations in the log of a well-formed environment is
    /// the counter.
    pub proof fn lemma_log_size(self)
        requires
            self.wf(),
        ensures
            self.operation_id_to_operation.dom().finite(),
            self.operation_id_to_operation.len() == self.next_operation_id,
    {
        lemma_ids_below(self.next_operation_id);
        assert(self.operation_id_to_operation.dom() =~= ids_below(self.next_operation_id));
    }

    /// A record that was inserted is read back as it was given, with the
    /// version that the insert set: under its primary key, where the schema has
    /// one, and under the operation id of the insert.
    pub proof fn lemma_insert_round_trip(self, key: Seq<u8>, record: RecordView, append_only: bool)
        requires
            self.wf(),
            self.has_room_for_insert(key, append_only),
            self.insert_result(key, append_only) is Ok,
        ensures
            ({
                let after = self.after_insert(key, record, append_only);
                let (record_id, operation_id) = self.insert_result(key, append_only)->Ok_0;
                let stored = RecordWithIdView {
                    id: record_id,
                    record: self.inserted_record(key, record, append_only),
                };
                &&& stored.record.values == record.values
                &&& stored.record.schema_id == record.schema_id
                &&& append_only ==> stored.record.version == Some(INITIAL_RECORD_VERSION)
                &&& !append_only ==> stored.record.version == Some(
                    after.primary_key_to_metadata[key].version,
                )
                &&& !append_only ==> after.get(key) == Ok::<_, CacheError>(stored)
                &&& after.get_by_operation_id(operation_id, append_only) == Some(stored)
            }),
    {
    }

    /// A second insert under a live key is refused, and changes nothing.
    pub proof fn lemma_insert_under_live_key(self, key: Seq<u8>, record: RecordView)
        requires
            self.key_state(key) is Live,
        ensures
            self.insert_result(key, false) == Err::<(u64, u64), _>(CacheError::PrimaryKeyExists),
            self.after_insert(key, record, false) == self,
    {
    }

    /// A delete under a key that is unknown or tombstoned is refused, and
    /// changes nothing: the counter stays where it is.
    pub proof fn lemma_delete_without_live_record(self, key: Seq<u8>)
        requires
            !(self.key_state(key) is Live),
        ensures
            self.delete_result(key) == Err::<(u32, u64), _>(CacheError::PrimaryKeyNotFound),
            self.after_delete(key) == self,
    {
    }

    /// The life of a key: an insert makes an unknown or tombstoned key live,
    /// a delete makes a live key tombstoned, and no step makes a key unknown
    /// again.
    pub proof fn lemma_key_life(self, key: Seq<u8>, record: RecordView)
        ensures
            !(self.key_state(key) is Live) ==> self.after_insert(key, record, false).key_state(key)
                is Live,
            self.key_state(key) is Live ==> self.after_delete(key).key_state(key) is Tombstoned,
            !(self.key_state(key) is Unknown) ==> !(self.after_delete(key).key_state(key)
                is Unknown) && !(self.after_insert(key, record, false).key_state(key) is Unknown),
    {
    }

    /// After a delete, neither the operation id of the delete nor that of
    /// the insert that it supersedes stands for a record.
    pub proof fn lemma_deleted_is_unreadable(self, key: Seq<u8>)
        requires
            self.wf(),
            self.has_room_for_delete(),
            self.delete_result(key) is Ok,
        ensures
            ({
                let after = self.after_delete(key);
                let (version, superseded) = self.delete_result(key)->Ok_0;
                &&& after.get_by_operation_id(superseded, false) is None
                &&& after.get_by_operation_id(self.next_operation_id, false) is None
                &&& after.get(key) == Err::<RecordWithIdView, _>(CacheError::PrimaryKeyNotFound)
                &&& version == self.version_of(key)
                &&& version == after.version_of(key)
            }),
    {
        if self.present_operation_ids.contains(self.next_operation_id) {
            self.lemma_present_id_is_logged(self.next_operation_id);
        }
    }

    /// No operation id that the log holds a delete under, and no operation
    /// id that a delete has superseded, stands for a record, at any later time.
    pub proof fn lemma_superseded_stays_unreadable(self, operation_id: u64)
        requires
            self.wf(),
            self.operation_id_to_operation.dom().contains(operation_id),
        ensures
            (self.operation_id_to_operation[operation_id] matches OperationView::Delete {
                operation_id: superseded,
            } ==> {
                &&& self.get_by_operation_id(operation_id, false) is None
                &&& self.get_by_operation_id(superseded, false) is None
            }),
    {
        if self.present_operation_ids.contains(operation_id) {
            self.lemma_present_id_is_logged(operation_id);
        }
    }
}

} // verus!
