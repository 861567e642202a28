//! Record metadata: what the environment remembers of a primary key.
//!
//! A primary key is unknown until its first insert. From then on it has a
//! metadata entry that is either live (its latest insert has not been
//! deleted) or tombstoned. The entry is never removed, so the record id that
//! the first insert assigned stays with the key for good.

use vstd::prelude::*;
use crate::bytes::{
    lemma_u32_be_bytes_of_value, lemma_u32_be_round_trip, lemma_u64_be_bytes_of_value,
    lemma_u64_be_round_trip, u32_be_bytes, u32_from_be_bytes, u32_to_be, u64_be_bytes,
    u64_from_be_bytes, u64_to_be, u32_from_be, u64_from_be,
};

verus! {

/// The version that the first insert of a primary key gives its record.
pub const INITIAL_RECORD_VERSION: u32 = 1;

/// The number of bytes of an encoded [`RecordMetadata`].
pub const METADATA_LEN: usize = 21;

/// What is stored under a primary key.
#[derive(Debug, Clone, Copy, PartialEq, Eq, Structural, Hash)]
pub struct RecordMetadata {
    /// The record id. The same across every insert and delete of the key.
    pub id: u64,
    /// The latest record version, also while the record is deleted.
    pub version: u32,
    /// The operation id of the latest insert. `None` while the record is deleted.
    pub insert_operation_id: Option<u64>,
}

/// Where a primary key stands in its life.
#[derive(Debug, Clone, Copy, PartialEq, Eq, Structural, Hash)]
pub enum KeyState {
    /// The key was never inserted: it has no metadata entry.
    Unknown,
    /// The latest insert under the key has not been deleted.
    Live,
    /// The latest insert under the key has been deleted.
    Tombstoned,
}

impl RecordMetadata {
    /// Whether the latest insert under the key has not been deleted.
    pub open spec fn is_live(self) -> bool {
        self.insert_operation_id is Some
    }

    /// The state of a key, given what is stored under it.
    pub open spec fn state_of(existing: Option<RecordMetadata>) -> KeyState {
        match existing {
            None => KeyState::Unknown,
            Some(metadata) => if metadata.is_live() {
                KeyState::Live
            } else {
                KeyState::Tombstoned
            },
        }
    }

    /// Whether an insert under a key with this entry stays within the range
    /// of the version counter.
    pub open spec fn version_has_room(existing: Option<RecordMetadata>) -> bool {
        existing matches Some(metadata) ==> metadata.is_live() || metadata.version < u32::MAX
    }

    /// The fixed layout of a metadata entry: the id in bytes 0 to 7, the
    /// version in bytes 8 to 11, the presence tag in byte 12 (1 for live, 0 for
    /// tombstoned) and the operation id of the latest insert in bytes 13 to
    /// 20, which are zero in a tombstone. All integers are big-endian.
    pub open spec fn encoding(self) -> Seq<u8> {
        u64_be_bytes(self.id) + u32_be_bytes(self.version) + match self.insert_operation_id {
            Some(operation_id) => seq![1u8] + u64_be_bytes(operation_id),
            None => seq![0u8] + u64_be_bytes(0),
        }
    }

    /// The entry that 21 bytes stand for. A presence tag other than 1 reads
    /// as a tombstone.
    pub open spec fn decoding(bytes: Seq<u8>) -> RecordMetadata
        recommends
            bytes.len() == METADATA_LEN,
    {
        RecordMetadata {
            id: u64_from_be_bytes(bytes.subrange(0, 8)),
            version: u32_from_be_bytes(bytes.subrange(8, 12)),
            insert_operation_id: if bytes[12] == 1 {
                Some(u64_from_be_bytes(bytes.subrange(13, 21)))
            } else {
                None
            },
        }
    }

    /// Whether `bytes` is what [`RecordMetadata::encode`] writes for some entry.
    pub open spec fn is_canonical(bytes: Seq<u8>) -> bool {
        &&& bytes.len() == METADATA_LEN
        &&& bytes[12] == 1 || (bytes[12] == 0 && bytes.subrange(13, 21) == u64_be_bytes(0))
    }

    /// Writes the entry in its fixed 21-byte layout.
    pub fn encode(&self) -> (bytes: [u8; 21])
        ensures
            bytes@ == self.encoding(),
    {
        let id = u64_to_be(self.id);
        let version = u32_to_be(self.version);
        let (tag, operation_id) = match self.insert_operation_id {
            Some(operation_id) => (1u8, u64_to_be(operation_id)),
            None => (0u8, u64_to_be(0)),
        };
        let bytes = [
            id[0], id[1], id[2], id[3], id[4], id[5], id[6], id[7],
            version[0], version[1], version[2], version[3],
            tag,
            operation_id[0], operation_id[1], operation_id[2], operation_id[3],
            operation_id[4], operation_id[5], operation_id[6], operation_id[7],
        ];
        assert(bytes@ =~= self.encoding());
        bytes
    }

    /// Reads an entry from its 21 bytes.
    pub fn decode(bytes: &[u8]) -> (metadata: RecordMetadata)
        requires
            bytes@.len() == METADATA_LEN,
        ensures
            metadata == RecordMetadata::decoding(bytes@),
    {
        let id = u64_from_be(bytes, 0);
        let version = u32_from_be(bytes, 8);
        let insert_operation_id = if bytes[12] == 1 {
            Some(u64_from_be(bytes, 13))
        } else {
            None
        };
        RecordMetadata { id, version, insert_operation_id }
    }

    /// Decoding what was encoded gives the entry back.
    pub proof fn lemma_decode_encode(self)
        ensures
            self.encoding().len() == METADATA_LEN,
            RecordMetadata::is_canonical(self.encoding()),
            RecordMetadata::decoding(self.encoding()) == self,
    {
        let bytes = self.encoding();
        lemma_u64_be_round_trip(self.id);
        lemma_u32_be_round_trip(self.version);
        lemma_u64_be_round_trip(0);
        assert(bytes.subrange(0, 8) =~= u64_be_bytes(self.id));
        assert(bytes.subrange(8, 12) =~= u32_be_bytes(self.version));
        match self.insert_operation_id {
            Some(operation_id) => {
                lemma_u64_be_round_trip(operation_id);
                assert(bytes.subrange(13, 21) =~= u64_be_bytes(operation_id));
            },
            None => {
                assert(bytes.subrange(13, 21) =~= u64_be_bytes(0));
            },
        }
    }

    /// Encoding what was decoded gives the bytes back, where the bytes are
    /// canonical.
    pub proof fn lemma_encode_decode(bytes: Seq<u8>)
        requires
            RecordMetadata::is_canonical(bytes),
        ensures
            RecordMetadata::decoding(bytes).encoding() == bytes,
    {
        lemma_u64_be_bytes_of_value(bytes.subrange(0, 8));
        lemma_u32_be_bytes_of_value(bytes.subrange(8, 12));
        lemma_u64_be_bytes_of_value(bytes.subrange(13, 21));
        assert(RecordMetadata::decoding(bytes).encoding() =~= bytes);
    }
}

} // verus!
