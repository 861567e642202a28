//! The collections of the environment, held in memory.
//!
//! A map from primary key to metadata, an ordered set of operation ids, and
//! the operation log. Each is a mathematical map or set to its callers, who
//! never see how it is laid out.

use vstd::prelude::*;
use vstd::seq_lib::seq_to_set_is_finite;
use vstd::slice::slice_to_vec;
use crate::bytes::bytes_equal;
use crate::metadata::RecordMetadata;
use crate::operation::{Operation, OperationView};

verus! {

/// Whether the ids stand in strictly increasing order.
pub open spec fn strictly_increasing(ids: Seq<u64>) -> bool {
    forall|i: int, j: int| 0 <= i < j < ids.len() ==> ids[i] < ids[j]
}

/// The operation ids below `bound`.
pub open spec fn ids_below(bound: u64) -> Set<u64> {
    Set::new(|id: u64| id < bound)
}

/// There are `bound` operation ids below `bound`.
pub proof fn lemma_ids_below(bound: u64)
    ensures
        ids_below(bound).finite(),
        ids_below(bound).len() == bound,
    decreases bound,
{
    if bound == 0 {
        assert(ids_below(bound) =~= Set::empty());
    } else {
        let smaller = (bound - 1) as u64;
        lemma_ids_below(smaller);
        assert(ids_below(bound) =~= ids_below(smaller).insert(smaller));
    }
}

/// A strictly increasing sequence holds each of its ids once.
pub proof fn lemma_increasing_ids_are_distinct(ids: Seq<u64>)
    requires
        strictly_increasing(ids),
    ensures
        ids.no_duplicates(),
        ids.to_set().finite(),
        ids.to_set().len() == ids.len(),
{
    assert forall|i: int, j: int| 0 <= i < ids.len() && 0 <= j < ids.len() && i != j implies ids[i]
        != ids[j] by {
        if i < j {
            assert(ids[i] < ids[j]);
        } else {
            assert(ids[j] < ids[i]);
        }
    }
    ids.unique_seq_to_set();
    seq_to_set_is_finite(ids);
}

/// The map that sends each key to the metadata at the key's position.
spec fn metadata_map(keys: Seq<Seq<u8>>, metadata: Seq<RecordMetadata>) -> Map<
    Seq<u8>,
    RecordMetadata,
> {
    Map::new(|key: Seq<u8>| keys.contains(key), |key: Seq<u8>| metadata[keys.index_of(key)])
}

/// A key that is new goes to the end of the keys, and into the map.
proof fn lemma_metadata_map_push(
    keys: Seq<Seq<u8>>,
    metadata: Seq<RecordMetadata>,
    key: Seq<u8>,
    entry: RecordMetadata,
)
    requires
        keys.len() == metadata.len(),
        keys.no_duplicates(),
        !keys.contains(key),
    ensures
        keys.push(key).no_duplicates(),
        metadata_map(keys.push(key), metadata.push(entry)) == metadata_map(keys, metadata).insert(
            key,
            entry,
        ),
{
    let longer = keys.push(key);
    assert forall|i: int, j: int|
        0 <= i < longer.len() && 0 <= j < longer.len() && i != j implies longer[i]
        != longer[j] by {
        if i < keys.len() && j < keys.len() {
            assert(keys[i] != keys[j]);
        } else if i < keys.len() {
            assert(keys.contains(keys[i]));
        } else {
            assert(keys.contains(keys[j]));
        }
    }
    let before = metadata_map(keys, metadata);
    let after = metadata_map(longer, metadata.push(entry));
    assert forall|k: Seq<u8>| after.dom().contains(k) == before.insert(key, entry).dom().contains(
        k,
    ) by {
        if keys.contains(k) {
            let i = keys.index_of(k);
            assert(longer[i] == k);
        }
        if longer.contains(k) && k != key {
            let i = longer.index_of(k);
            assert(keys[i] == k);
        }
        if k == key {
            assert(longer[keys.len() as int] == key);
        }
    }
    assert forall|k: Seq<u8>| after.dom().contains(k) implies after[k] == before.insert(
        key,
        entry,
    )[k] by {
        let i = longer.index_of(k);
        if k == key {
            assert(longer[keys.len() as int] == key);
            assert(i == keys.len());
        } else {
            assert(keys[i] == k);
            assert(keys.index_of(k) == i);
        }
    }
    assert(after =~= before.insert(key, entry));
}

/// New metadata at the position of a key overwrites the key's entry in the map.
proof fn lemma_metadata_map_update(
    keys: Seq<Seq<u8>>,
    metadata: Seq<RecordMetadata>,
    position: int,
    entry: RecordMetadata,
)
    requires
        keys.len() == metadata.len(),
        keys.no_duplicates(),
        0 <= position < keys.len(),
    ensures
        metadata_map(keys, metadata.update(position, entry)) == metadata_map(keys, metadata).insert(
            keys[position],
            entry,
        ),
{
    let before = metadata_map(keys, metadata);
    let after = metadata_map(keys, metadata.update(position, entry));
    assert(keys.contains(keys[position]));
    assert forall|k: Seq<u8>| after.dom().contains(k) implies after[k] == before.insert(
        keys[position],
        entry,
    )[k] by {
        let i = keys.index_of(k);
        if k == keys[position] {
            assert(i == position);
        }
    }
    assert(after =~= before.insert(keys[position], entry));
}

/// An id that is put where the order asks for it joins the set.
proof fn lemma_ids_insert(ids: Seq<u64>, position: int, id: u64)
    requires
        strictly_increasing(ids),
        0 <= position <= ids.len(),
        forall|i: int| 0 <= i < position ==> ids[i] < id,
        forall|i: int| position <= i < ids.len() ==> id < ids[i],
    ensures
        strictly_increasing(ids.insert(position, id)),
        ids.insert(position, id).to_set() == ids.to_set().insert(id),
{
    let longer = ids.insert(position, id);
    assert forall|i: int, j: int| 0 <= i < j < longer.len() implies longer[i] < longer[j] by {
        let a = if i < position {
            i
        } else {
            i - 1
        };
        let b = if j < position {
            j
        } else {
            j - 1
        };
        if i != position && j != position {
            assert(ids[a] < ids[b]);
        }
    }
    assert forall|other: u64| longer.to_set().contains(other) == ids.to_set().insert(id).contains(
        other,
    ) by {
        if longer.contains(other) {
            let i = longer.index_of(other);
            if i < position {
                assert(ids[i] == other);
            } else if i > position {
                assert(ids[i - 1] == other);
            }
        }
        if ids.contains(other) {
            let i = ids.index_of(other);
            if i < position {
                assert(longer[i] == other);
            } else {
                assert(longer[i + 1] == other);
            }
        }
        if other == id {
            assert(longer[position] == id);
        }
    }
    assert(longer.to_set() =~= ids.to_set().insert(id));
}

/// Taking one id out of the list takes it out of the set.
proof fn lemma_ids_remove(ids: Seq<u64>, position: int)
    requires
        strictly_increasing(ids),
        0 <= position < ids.len(),
    ensures
        strictly_increasing(ids.remove(position)),
        ids.remove(position).to_set() == ids.to_set().remove(ids[position]),
{
    let shorter = ids.remove(position);
    ids.remove_ensures(position);
    assert forall|id: u64| shorter.to_set().contains(id) == ids.to_set().remove(
        ids[position],
    ).contains(id) by {
        if shorter.contains(id) {
            let i = shorter.index_of(id);
            if i < position {
                assert(ids[i] == id);
            } else {
                assert(ids[i + 1] == id);
            }
        }
        if ids.contains(id) && id != ids[position] {
            let i = ids.index_of(id);
            if i < position {
                assert(shorter[i] == id);
            } else {
                assert(shorter[i - 1] == id);
            }
        }
    }
    assert(shorter.to_set() =~= ids.to_set().remove(ids[position]));
}

/// Primary key to metadata. The keys are byte strings, and are told apart
/// byte by byte. An entry can be overwritten, but not removed.
#[derive(Debug)]
pub struct MetadataMap {
    /// The keys in the order in which they came.
    keys: Vec<Vec<u8>>,
    /// The metadata of the key at the same position.
    entries: Vec<RecordMetadata>,
}

impl View for MetadataMap {
    type V = Map<Seq<u8>, RecordMetadata>;

    closed spec fn view(&self) -> Map<Seq<u8>, RecordMetadata> {
        metadata_map(self.key_seq(), self.entries@)
    }
}

impl MetadataMap {
    /// The keys as byte sequences, in the order in which they came.
    closed spec fn key_seq(self) -> Seq<Seq<u8>> {
        self.keys@.map_values(|key: Vec<u8>| key@)
    }

    /// Every key has one entry, and no key stands twice.
    pub closed spec fn wf(self) -> bool {
        &&& self.keys@.len() == self.entries@.len()
        &&& self.key_seq().no_duplicates()
    }

    /// How the keys and their entries show in the view.
    proof fn lemma_view(self)
        requires
            self.wf(),
        ensures
            self@.dom() =~= self.key_seq().to_set(),
            self@.dom().finite(),
            self@.len() == self.keys@.len(),
            (forall|i: int|
                0 <= i < self.key_seq().len() ==> {
                    &&& self@.dom().contains(#[trigger] self.key_seq()[i])
                    &&& self@[self.key_seq()[i]] == self.entries@[i]
                }),
    {
        let keys = self.key_seq();
        keys.unique_seq_to_set();
        seq_to_set_is_finite(keys);
        assert forall|i: int| 0 <= i < keys.len() implies {
            &&& self@.dom().contains(#[trigger] keys[i])
            &&& self@[keys[i]] == self.entries@[i]
        } by {
            assert(keys.contains(keys[i]));
            assert(keys.index_of(keys[i]) == i);
        }
    }

    /// A map has finitely many keys.
    pub proof fn lemma_finite(self)
        requires
            self.wf(),
        ensures
            self@.dom().finite(),
    {
        self.lemma_view();
    }

    /// A map without entries.
    pub fn new() -> (map: MetadataMap)
        ensures
            map.wf(),
            map@ == Map::<Seq<u8>, RecordMetadata>::empty(),
    {
        let map = MetadataMap { keys: Vec::new(), entries: Vec::new() };
        assert(map.key_seq() =~= Seq::empty());
        assert(map@ =~= Map::empty());
        map
    }

    /// The number of keys.
    pub fn count(&self) -> (count: usize)
        requires
            self.wf(),
        ensures
            self@.dom().finite(),
            count == self@.len(),
    {
        proof {
            self.lemma_view();
        }
        self.keys.len()
    }

    /// The position of a key among the keys.
    fn position(&self, key: &[u8]) -> (position: Option<usize>)
        requires
            self.wf(),
        ensures
            (match position {
                Some(i) => i < self.key_seq().len() && self.key_seq()[i as int] == key@,
                None => !self.key_seq().contains(key@),
            }),
    {
        let mut i: usize = 0;
        while i < self.keys.len()
            invariant
                i <= self.keys@.len(),
                self.key_seq().len() == self.keys@.len(),
                forall|j: int| 0 <= j < i ==> self.key_seq()[j] != key@,
            decreases self.keys@.len() - i,
        {
            if bytes_equal(self.keys[i].as_slice(), key) {
                return Some(i);
            }
            i += 1;
        }
        None
    }

    /// What is stored under a key.
    pub fn get(&self, key: &[u8]) -> (found: Option<RecordMetadata>)
        requires
            self.wf(),
        ensures
            found == (if self@.dom().contains(key@) {
                Some(self@[key@])
            } else {
                None
            }),
    {
        proof {
            self.lemma_view();
        }
        match self.position(key) {
            Some(i) => Some(self.entries[i]),
            None => None,
        }
    }

    /// Stores `metadata` under `key`, in place of what was stored there.
    pub fn insert_overwrite(&mut self, key: &[u8], metadata: RecordMetadata)
        requires
            old(self).wf(),
        ensures
            final(self).wf(),
            final(self)@ == old(self)@.insert(key@, metadata),
    {
        let ghost before = *self;
        match self.position(key) {
            Some(i) => {
                self.entries.set(i, metadata);
                proof {
                    lemma_metadata_map_update(before.key_seq(), before.entries@, i as int, metadata);
                }
            },
            None => {
                self.keys.push(slice_to_vec(key));
                self.entries.push(metadata);
                proof {
                    assert(self.key_seq() =~= before.key_seq().push(key@));
                    lemma_metadata_map_push(before.key_seq(), before.entries@, key@, metadata);
                }
            },
        }
    }
}

/// A set of operation ids that hands them out in increasing order.
#[derive(Debug)]
pub struct OperationIdSet {
    /// The ids, in strictly increasing order.
    ids: Vec<u64>,
}

impl View for OperationIdSet {
    type V = Set<u64>;

    closed spec fn view(&self) -> Set<u64> {
        self.ids@.to_set()
    }
}

impl OperationIdSet {
    /// The ids stand in order.
    pub closed spec fn wf(self) -> bool {
        strictly_increasing(self.ids@)
    }

    /// A set has finitely many ids.
    pub proof fn lemma_finite(self)
        requires
            self.wf(),
        ensures
            self@.finite(),
    {
        lemma_increasing_ids_are_distinct(self.ids@);
    }

    /// A set without ids.
    pub fn new() -> (set: OperationIdSet)
        ensures
            set.wf(),
            set@ == Set::<u64>::empty(),
    {
        let set = OperationIdSet { ids: Vec::new() };
        assert(set@ =~= Set::empty());
        set
    }

    /// The number of ids.
    pub fn count(&self) -> (count: usize)
        requires
            self.wf(),
        ensures
            self@.finite(),
            count == self@.len(),
    {
        proof {
            lemma_increasing_ids_are_distinct(self.ids@);
        }
        self.ids.len()
    }

    /// The position of the first id that is not below `id`.
    fn lower_bound(&self, id: u64) -> (position: usize)
        requires
            self.wf(),
        ensures
            position <= self.ids@.len(),
            forall|i: int| 0 <= i < position ==> self.ids@[i] < id,
            forall|i: int| position <= i < self.ids@.len() ==> id <= self.ids@[i],
            self@.contains(id) <==> position < self.ids@.len() && self.ids@[position as int] == id,
    {
        let mut low: usize = 0;
        let mut high: usize = self.ids.len();
        while low < high
            invariant
                strictly_increasing(self.ids@),
                low <= high <= self.ids@.len(),
                forall|i: int| 0 <= i < low ==> self.ids@[i] < id,
                forall|i: int| high <= i < self.ids@.len() ==> id <= self.ids@[i],
            decreases high - low,
        {
            let middle = low + (high - low) / 2;
            if self.ids[middle] < id {
                low = middle + 1;
            } else {
                high = middle;
            }
        }
        proof {
            if self.ids@.contains(id) {
                let i = self.ids@.index_of(id);
                if low < i {
                    assert(self.ids@[low as int] < self.ids@[i]);
                }
                assert(i == low);
            }
        }
        low
    }

    /// Whether the id is in the set.
    pub fn contains(&self, id: u64) -> (found: bool)
        requires
            self.wf(),
        ensures
            found == self@.contains(id),
    {
        let position = self.lower_bound(id);
        position < self.ids.len() && self.ids[position] == id
    }

    /// Puts the id into the set. Returns whether it was not there before.
    pub fn insert(&mut self, id: u64) -> (added: bool)
        requires
            old(self).wf(),
        ensures
            final(self).wf(),
            final(self)@ == old(self)@.insert(id),
            added == !old(self)@.contains(id),
    {
        let position = self.lower_bound(id);
        if position < self.ids.len() && self.ids[position] == id {
            assert(self@.insert(id) =~= self@);
            false
        } else {
            proof {
                lemma_ids_insert(self.ids@, position as int, id);
            }
            self.ids.insert(position, id);
            true
        }
    }

    /// Takes the id out of the set. Returns whether it was there.
    pub fn remove(&mut self, id: u64) -> (removed: bool)
        requires
            old(self).wf(),
        ensures
            final(self).wf(),
            final(self)@ == old(self)@.remove(id),
            removed == old(self)@.contains(id),
    {
        let position = self.lower_bound(id);
        if position < self.ids.len() && self.ids[position] == id {
            proof {
                lemma_ids_remove(self.ids@, position as int);
            }
            self.ids.remove(position);
            true
        } else {
            assert(self@.remove(id) =~= self@);
            false
        }
    }

    /// The ids in increasing order.
    pub fn to_vec(&self) -> (ids: Vec<u64>)
        requires
            self.wf(),
        ensures
            strictly_increasing(ids@),
            ids@.to_set() == self@,
    {
        let mut ids: Vec<u64> = Vec::new();
        let mut i: usize = 0;
        while i < self.ids.len()
            invariant
                i <= self.ids@.len(),
                ids@ == self.ids@.subrange(0, i as int),
            decreases self.ids@.len() - i,
        {
            ids.push(self.ids[i]);
            assert(ids@ =~= self.ids@.subrange(0, i + 1));
            i += 1;
        }
        assert(ids@ =~= self.ids@);
        ids
    }
}

/// The operation log: operation id to operation. The ids are dense: an
/// operation that joins the log gets the number of operations before it.
#[derive(Debug)]
pub struct OperationLog {
    /// The operation at position `i` has operation id `i`.
    operations: Vec<Operation>,
}

impl View for OperationLog {
    type V = Map<u64, OperationView>;

    closed spec fn view(&self) -> Map<u64, OperationView> {
        Map::new(|id: u64| id < self.operations@.len(), |id: u64| self.operations@[id as int]@)
    }
}

impl OperationLog {
    /// The number of operations in the log: the id that the next one gets.
    pub closed spec fn size(self) -> nat {
        self.operations@.len()
    }

    /// The log holds exactly the operation ids below its size.
    pub proof fn lemma_dense(self)
        ensures
            self.size() <= u64::MAX,
            self@.dom() == ids_below(self.size() as u64),
            self@.dom().finite(),
            self@.len() == self.size(),
    {
        assert(self.operations@.len() == self.operations.len());
        lemma_ids_below(self.size() as u64);
        assert(self@.dom() =~= ids_below(self.size() as u64));
    }

    /// A log without operations.
    pub fn new() -> (log: OperationLog)
        ensures
            log.size() == 0,
            log@ == Map::<u64, OperationView>::empty(),
    {
        let log = OperationLog { operations: Vec::new() };
        assert(log@ =~= Map::empty());
        log
    }

    /// The number of operations in the log.
    pub fn count(&self) -> (count: usize)
        ensures
            count == self.size(),
            self@.dom().finite(),
            count == self@.len(),
    {
        proof {
            self.lemma_dense();
        }
        self.operations.len()
    }

    /// The operation under an operation id.
    pub fn get(&self, operation_id: u64) -> (found: Option<&Operation>)
        ensures
            (match found {
                Some(operation) => self@.dom().contains(operation_id) && operation@
                    == self@[operation_id],
                None => !self@.dom().contains(operation_id),
            }),
    {
        if operation_id < self.operations.len() as u64 {
            let position = operation_id as usize;
            Some(&self.operations[position])
        } else {
            None
        }
    }

    /// Puts the operation at the end of the log. Returns its operation id.
    pub fn append(&mut self, operation: Operation) -> (operation_id: u64)
        requires
            old(self).size() < u64::MAX,
        ensures
            operation_id == old(self).size(),
            final(self).size() == old(self).size() + 1,
            !old(self)@.dom().contains(operation_id),
            final(self)@ == old(self)@.insert(operation_id, operation@),
    {
        let operation_id = self.operations.len() as u64;
        self.operations.push(operation);
        assert(self@ =~= old(self)@.insert(operation_id, operation@));
        operation_id
    }

    /// The operation ids of the log, in increasing order.
    pub fn keys(&self) -> (ids: Vec<u64>)
        ensures
            strictly_increasing(ids@),
            ids@.to_set() == self@.dom(),
    {
        let count = self.operations.len();
        let mut ids: Vec<u64> = Vec::new();
        let mut i: usize = 0;
        while i < count
            invariant
                i <= count,
                count == self.operations@.len(),
                ids@.len() == i,
                forall|j: int| 0 <= j < i ==> ids@[j] == j,
            decreases count - i,
        {
            ids.push(i as u64);
            i += 1;
        }
        proof {
            assert forall|id: u64| ids@.to_set().contains(id) == self@.dom().contains(id) by {
                if id < count {
                    assert(ids@[id as int] == id);
                }
            }
            assert(ids@.to_set() =~= self@.dom());
        }
        ids
    }
}

} // verus!
