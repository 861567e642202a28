//! The entries of the operation log.

use vstd::prelude::*;
use crate::types::{Record, RecordView, RecordWithIdView};

verus! {

/// One mutation of the environment. Every insert and every delete is logged
/// under an operation id of its own, and never changed afterwards.
#[derive(Debug, PartialEq, Eq)]
pub enum Operation {
    Delete {
        /// The operation id of the insert that this delete supersedes.
        operation_id: u64,
    },
    Insert { record_id: u64, record: Record },
}

/// A log entry as a mathematical value.
pub enum OperationView {
    Delete { operation_id: u64 },
    Insert { record_id: u64, record: RecordView },
}

impl OperationView {
    /// The record of an insert, with its id.
    pub open spec fn inserted(self) -> RecordWithIdView
        recommends
            self is Insert,
    {
        RecordWithIdView { id: self->record_id, record: self->record }
    }
}

impl View for Operation {
    type V = OperationView;

    open spec fn view(&self) -> OperationView {
        match *self {
            Operation::Delete { operation_id } => OperationView::Delete { operation_id },
            Operation::Insert { record_id, record } => OperationView::Insert {
                record_id,
                record: record@,
            },
        }
    }
}

impl Clone for Operation {
    fn clone(&self) -> (copy: Operation)
        ensures
            copy@ == self@,
    {
        match self {
            Operation::Delete { operation_id } => Operation::Delete { operation_id: *operation_id },
            Operation::Insert { record_id, record } => Operation::Insert {
                record_id: *record_id,
                record: record.clone(),
            },
        }
    }
}

} // verus!
