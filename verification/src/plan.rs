//! What an insert or a delete is to write, and where a read is to look,
//! decided from what is stored.
//!
//! A decision reads nothing but its arguments. Whoever holds the collections
//! looks up what the decision needs, and carries out what it says.

use vstd::prelude::*;
use crate::errors::CacheError;
use crate::metadata::{RecordMetadata, INITIAL_RECORD_VERSION};

verus! {

/// What an insert is to write.
///
/// The record is logged under `operation_id` with `record_id`, and with its
/// version set to `version`. Under a schema with a primary key, `metadata` is
/// stored under the key, and `operation_id` joins the present operation ids.
#[derive(Debug, Clone, Copy, PartialEq, Eq, Structural, Hash)]
pub struct InsertPlan {
    pub record_id: u64,
    pub version: u32,
    pub operation_id: u64,
    /// The entry to store under the primary key. `None` under an
    /// append-only schema, where there is no key to store it under.
    pub metadata: Option<RecordMetadata>,
}

/// What a delete is to write.
///
/// `tombstone` is stored under the key, `superseded` leaves the present
/// operation ids, and a delete of `superseded` is logged under the next
/// operation id.
#[derive(Debug, Clone, Copy, PartialEq, Eq, Structural, Hash)]
pub struct DeletePlan {
    pub tombstone: RecordMetadata,
    /// The operation id of the insert that the delete supersedes.
    pub superseded: u64,
}

/// The plan of an insert that gets `operation_id`.
///
/// Under an append-only schema the record id is the operation id and the
/// version the initial one. Under a schema with a primary key, `existing` is
/// what is stored under the key, and `next_record_id` the record id for a key
/// that is new: an unknown key gets `next_record_id` and the initial version,
/// a tombstoned key keeps its record id and moves to the next version, and a
/// live key refuses the insert.
pub open spec fn insert_plan(
    append_only: bool,
    existing: Option<RecordMetadata>,
    next_record_id: u64,
    operation_id: u64,
) -> Result<InsertPlan, CacheError> {
    if append_only {
        Ok(
            InsertPlan {
                record_id: operation_id,
                version: INITIAL_RECORD_VERSION,
                operation_id,
                metadata: None,
            },
        )
    } else if existing matches Some(metadata) && metadata.is_live() {
        Err(CacheError::PrimaryKeyExists)
    } else {
        let (record_id, version) = match existing {
            Some(tombstone) => (tombstone.id, (tombstone.version + 1) as u32),
            None => (next_record_id, INITIAL_RECORD_VERSION),
        };
        Ok(
            InsertPlan {
                record_id,
                version,
                operation_id,
                metadata: Some(
                    RecordMetadata { id: record_id, version, insert_operation_id: Some(operation_id) },
                ),
            },
        )
    }
}

/// The plan of a delete under a key with the entry `existing`. Only a live
/// key can be deleted. The tombstone keeps the record id and the version.
pub open spec fn delete_plan(existing: Option<RecordMetadata>) -> Result<DeletePlan, CacheError> {
    match existing {
        Some(RecordMetadata { id, version, insert_operation_id: Some(superseded) }) => Ok(
            DeletePlan {
                tombstone: RecordMetadata { id, version, insert_operation_id: None },
                superseded,
            },
        ),
        _ => Err(CacheError::PrimaryKeyNotFound),
    }
}

/// The operation id under which the live record of a key is logged, where
/// `existing` is the entry of the key. An unknown key and a tombstoned one
/// have no live record.
pub open spec fn get_plan(existing: Option<RecordMetadata>) -> Result<u64, CacheError> {
    match existing {
        Some(RecordMetadata { insert_operation_id: Some(operation_id), .. }) => Ok(operation_id),
        _ => Err(CacheError::PrimaryKeyNotFound),
    }
}

/// Decides an insert. Under an append-only schema `existing` and
/// `next_record_id` are not read.
pub fn plan_insert(
    append_only: bool,
    existing: Option<RecordMetadata>,
    next_record_id: u64,
    operation_id: u64,
) -> (plan: Result<InsertPlan, CacheError>)
    requires
        !append_only ==> RecordMetadata::version_has_room(existing),
    ensures
        plan == insert_plan(append_only, existing, next_record_id, operation_id),
{
    if append_only {
        return Ok(
            InsertPlan {
                record_id: operation_id,
                version: INITIAL_RECORD_VERSION,
                operation_id,
                metadata: None,
            },
        );
    }
    let (record_id, version) = match existing {
        // The primary key was never inserted before: it gets the next record id.
        None => (next_record_id, INITIAL_RECORD_VERSION),
        Some(metadata) => {
            if metadata.insert_operation_id.is_some() {
                // The primary key is present.
                return Err(CacheError::PrimaryKeyExists);
            } else {
                // The primary key was deleted: it keeps the record id of its first insert.
                (metadata.id, metadata.version + 1)
            }
        },
    };
    Ok(
        InsertPlan {
            record_id,
            version,
            operation_id,
            metadata: Some(
                RecordMetadata { id: record_id, version, insert_operation_id: Some(operation_id) },
            ),
        },
    )
}

/// Decides where a read by primary key finds its record.
pub fn plan_get(existing: Option<RecordMetadata>) -> (plan: Result<u64, CacheError>)
    ensures
        plan == get_plan(existing),
{
    match existing {
        Some(RecordMetadata { insert_operation_id: Some(operation_id), .. }) => Ok(operation_id),
        _ => Err(CacheError::PrimaryKeyNotFound),
    }
}

/// Decides a delete.
pub fn plan_delete(existing: Option<RecordMetadata>) -> (plan: Result<DeletePlan, CacheError>)
    ensures
        plan == delete_plan(existing),
{
    match existing {
        Some(RecordMetadata { id, version, insert_operation_id: Some(superseded) }) => Ok(
            DeletePlan {
                tombstone: RecordMetadata { id, version, insert_operation_id: None },
                superseded,
            },
        ),
        _ => Err(CacheError::PrimaryKeyNotFound),
    }
}

} // verus!
