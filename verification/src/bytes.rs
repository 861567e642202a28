//! Big-endian integers as byte sequences.
//!
//! Keys and fixed-width values are laid out most significant byte first, so
//! that the lexicographic order of the bytes is the order of the integers.

use vstd::prelude::*;

verus! {

/// The eight bytes of `x`, most significant first.
pub open spec fn u64_be_bytes(x: u64) -> Seq<u8> {
    seq![
        ((x >> 56) & 0xff) as u8,
        ((x >> 48) & 0xff) as u8,
        ((x >> 40) & 0xff) as u8,
        ((x >> 32) & 0xff) as u8,
        ((x >> 24) & 0xff) as u8,
        ((x >> 16) & 0xff) as u8,
        ((x >> 8) & 0xff) as u8,
        (x & 0xff) as u8,
    ]
}

/// The integer whose big-endian bytes are the first eight of `bytes`.
pub open spec fn u64_from_be_bytes(bytes: Seq<u8>) -> u64
    recommends
        bytes.len() >= 8,
{
    (bytes[0] as u64) << 56 | (bytes[1] as u64) << 48 | (bytes[2] as u64) << 40 | (bytes[3] as u64)
        << 32 | (bytes[4] as u64) << 24 | (bytes[5] as u64) << 16 | (bytes[6] as u64) << 8 | (
    bytes[7] as u64)
}

/// The four bytes of `x`, most significant first.
pub open spec fn u32_be_bytes(x: u32) -> Seq<u8> {
    seq![
        ((x >> 24) & 0xff) as u8,
        ((x >> 16) & 0xff) as u8,
        ((x >> 8) & 0xff) as u8,
        (x & 0xff) as u8,
    ]
}

/// The integer whose big-endian bytes are the first four of `bytes`.
pub open spec fn u32_from_be_bytes(bytes: Seq<u8>) -> u32
    recommends
        bytes.len() >= 4,
{
    (bytes[0] as u32) << 24 | (bytes[1] as u32) << 16 | (bytes[2] as u32) << 8 | (bytes[3] as u32)
}

/// Reading back the big-endian bytes of a 64-bit integer gives the integer.
pub proof fn lemma_u64_be_round_trip(x: u64)
    ensures
        u64_be_bytes(x).len() == 8,
        u64_from_be_bytes(u64_be_bytes(x)) == x,
{
    assert((((x >> 56) & 0xff) as u8 as u64) << 56 | (((x >> 48) & 0xff) as u8 as u64) << 48 | (((x
        >> 40) & 0xff) as u8 as u64) << 40 | (((x >> 32) & 0xff) as u8 as u64) << 32 | (((x >> 24)
        & 0xff) as u8 as u64) << 24 | (((x >> 16) & 0xff) as u8 as u64) << 16 | (((x >> 8) & 0xff) as u8 as u64)
        << 8 | ((x & 0xff) as u8 as u64) == x) by (bit_vector);
}

/// Reading back the big-endian bytes of a 32-bit integer gives the integer.
pub proof fn lemma_u32_be_round_trip(x: u32)
    ensures
        u32_be_bytes(x).len() == 4,
        u32_from_be_bytes(u32_be_bytes(x)) == x,
{
    assert((((x >> 24) & 0xff) as u8 as u32) << 24 | (((x >> 16) & 0xff) as u8 as u32) << 16 | (((x
        >> 8) & 0xff) as u8 as u32) << 8 | ((x & 0xff) as u8 as u32) == x) by (bit_vector);
}

/// Writing out the integer read from eight bytes gives the bytes.
pub proof fn lemma_u64_be_bytes_of_value(bytes: Seq<u8>)
    requires
        bytes.len() == 8,
    ensures
        u64_be_bytes(u64_from_be_bytes(bytes)) == bytes,
{
    let b0 = bytes[0];
    let b1 = bytes[1];
    let b2 = bytes[2];
    let b3 = bytes[3];
    let b4 = bytes[4];
    let b5 = bytes[5];
    let b6 = bytes[6];
    let b7 = bytes[7];
    let x = u64_from_be_bytes(bytes);
    assert({
        let x = (b0 as u64) << 56 | (b1 as u64) << 48 | (b2 as u64) << 40 | (b3 as u64) << 32 | (
        b4 as u64) << 24 | (b5 as u64) << 16 | (b6 as u64) << 8 | (b7 as u64);
        &&& ((x >> 56) & 0xff) as u8 == b0
        &&& ((x >> 48) & 0xff) as u8 == b1
        &&& ((x >> 40) & 0xff) as u8 == b2
        &&& ((x >> 32) & 0xff) as u8 == b3
        &&& ((x >> 24) & 0xff) as u8 == b4
        &&& ((x >> 16) & 0xff) as u8 == b5
        &&& ((x >> 8) & 0xff) as u8 == b6
        &&& (x & 0xff) as u8 == b7
    }) by (bit_vector);
    assert(u64_be_bytes(x) =~= bytes);
}

/// Writing out the integer read from four bytes gives the bytes.
pub proof fn lemma_u32_be_bytes_of_value(bytes: Seq<u8>)
    requires
        bytes.len() == 4,
    ensures
        u32_be_bytes(u32_from_be_bytes(bytes)) == bytes,
{
    let b0 = bytes[0];
    let b1 = bytes[1];
    let b2 = bytes[2];
    let b3 = bytes[3];
    let x = u32_from_be_bytes(bytes);
    assert({
        let x = (b0 as u32) << 24 | (b1 as u32) << 16 | (b2 as u32) << 8 | (b3 as u32);
        &&& ((x >> 24) & 0xff) as u8 == b0
        &&& ((x >> 16) & 0xff) as u8 == b1
        &&& ((x >> 8) & 0xff) as u8 == b2
        &&& (x & 0xff) as u8 == b3
    }) by (bit_vector);
    assert(u32_be_bytes(x) =~= bytes);
}

/// Whether `a` stands before `b` in the order of byte strings: `a` has the
/// smaller byte where the two first differ, or `a` ends where `b` goes on.
pub open spec fn bytes_less(a: Seq<u8>, b: Seq<u8>) -> bool {
    exists|i: int|
        {
            &&& 0 <= i <= a.len()
            &&& i < b.len()
            &&& forall|j: int| 0 <= j < i ==> a[j] == b[j]
            &&& i < a.len() ==> a[i] < b[i]
        }
}

/// The order of the big-endian bytes is the order of the integers: a store
/// that keeps its keys in byte order keeps such keys in numeric order.
pub proof fn lemma_u64_be_order(x: u64, y: u64)
    ensures
        x < y <==> bytes_less(u64_be_bytes(x), u64_be_bytes(y)),
{
    let a = u64_be_bytes(x);
    let b = u64_be_bytes(y);
    assert(x < y <==> (a[0] < b[0] || (a[0] == b[0] && (a[1] < b[1] || (a[1] == b[1] && (a[2] < b[2]
        || (a[2] == b[2] && (a[3] < b[3] || (a[3] == b[3] && (a[4] < b[4] || (a[4] == b[4] && (a[5]
        < b[5] || (a[5] == b[5] && (a[6] < b[6] || (a[6] == b[6] && a[7] < b[7]))))))))))))))) by {
        lemma_u64_order_by_bytes(x, y);
    }
    if x < y {
        let first: int = if a[0] != b[0] {
            0
        } else if a[1] != b[1] {
            1
        } else if a[2] != b[2] {
            2
        } else if a[3] != b[3] {
            3
        } else if a[4] != b[4] {
            4
        } else if a[5] != b[5] {
            5
        } else if a[6] != b[6] {
            6
        } else {
            7
        };
        assert(forall|j: int| 0 <= j < first ==> a[j] == b[j]);
        assert(a[first] < b[first]);
    }
    if bytes_less(a, b) {
        let first = choose|i: int|
            {
                &&& 0 <= i <= a.len()
                &&& i < b.len()
                &&& forall|j: int| 0 <= j < i ==> a[j] == b[j]
                &&& i < a.len() ==> a[i] < b[i]
            };
        assert(forall|j: int| 0 <= j < first ==> a[j] == b[j]);
        assert(first > 0 ==> a[0] == b[0]);
        assert(first > 1 ==> a[1] == b[1]);
        assert(first > 2 ==> a[2] == b[2]);
        assert(first > 3 ==> a[3] == b[3]);
        assert(first > 4 ==> a[4] == b[4]);
        assert(first > 5 ==> a[5] == b[5]);
        assert(first > 6 ==> a[6] == b[6]);
        assert(a[first] < b[first]);
    }
}

/// Two integers compare as their bytes do, read from the most significant.
proof fn lemma_u64_order_by_bytes(x: u64, y: u64)
    ensures
        ({
            let a = u64_be_bytes(x);
            let b = u64_be_bytes(y);
            x < y <==> (a[0] < b[0] || (a[0] == b[0] && (a[1] < b[1] || (a[1] == b[1] && (a[2]
                < b[2] || (a[2] == b[2] && (a[3] < b[3] || (a[3] == b[3] && (a[4] < b[4] || (a[4]
                == b[4] && (a[5] < b[5] || (a[5] == b[5] && (a[6] < b[6] || (a[6] == b[6] && a[7]
                < b[7]))))))))))))))
        }),
{
    assert(x < y <==> (((x >> 56) & 0xff) as u8) < (((y >> 56) & 0xff) as u8) || ((((x >> 56)
        & 0xff) as u8) == (((y >> 56) & 0xff) as u8) && ((((x >> 48) & 0xff) as u8) < (((y >> 48)
        & 0xff) as u8) || ((((x >> 48) & 0xff) as u8) == (((y >> 48) & 0xff) as u8) && ((((x >> 40)
        & 0xff) as u8) < (((y >> 40) & 0xff) as u8) || ((((x >> 40) & 0xff) as u8) == (((y >> 40)
        & 0xff) as u8) && ((((x >> 32) & 0xff) as u8) < (((y >> 32) & 0xff) as u8) || ((((x >> 32)
        & 0xff) as u8) == (((y >> 32) & 0xff) as u8) && ((((x >> 24) & 0xff) as u8) < (((y >> 24)
        & 0xff) as u8) || ((((x >> 24) & 0xff) as u8) == (((y >> 24) & 0xff) as u8) && ((((x >> 16)
        & 0xff) as u8) < (((y >> 16) & 0xff) as u8) || ((((x >> 16) & 0xff) as u8) == (((y >> 16)
        & 0xff) as u8) && ((((x >> 8) & 0xff) as u8) < (((y >> 8) & 0xff) as u8) || ((((x >> 8)
        & 0xff) as u8) == (((y >> 8) & 0xff) as u8) && ((x & 0xff) as u8) < ((y & 0xff) as u8)))))))))))))))
        by (bit_vector);
}

/// The byte of `x` that stands `shift` bits above its lowest.
fn byte_at(x: u64, shift: u64) -> (b: u8)
    requires
        shift < 64,
    ensures
        b == ((x >> shift) & 0xff) as u8,
{
    let low: u64 = (x >> shift) & 0xff;
    assert(low <= 0xff) by (bit_vector)
        requires
            low == (x >> shift) & 0xff,
    ;
    low as u8
}

/// Writes `x` as eight bytes, most significant first.
pub fn u64_to_be(x: u64) -> (bytes: [u8; 8])
    ensures
        bytes@ == u64_be_bytes(x),
{
    let bytes = [
        byte_at(x, 56),
        byte_at(x, 48),
        byte_at(x, 40),
        byte_at(x, 32),
        byte_at(x, 24),
        byte_at(x, 16),
        byte_at(x, 8),
        byte_at(x, 0),
    ];
    assert(x >> 0 == x) by (bit_vector);
    assert(bytes@ =~= u64_be_bytes(x));
    bytes
}

/// Writes `x` as four bytes, most significant first.
pub fn u32_to_be(x: u32) -> (bytes: [u8; 4])
    ensures
        bytes@ == u32_be_bytes(x),
{
    let wide: u64 = x as u64;
    let bytes = [byte_at(wide, 24), byte_at(wide, 16), byte_at(wide, 8), byte_at(wide, 0)];
    assert({
        &&& ((wide >> 24) & 0xff) as u8 == ((x >> 24) & 0xff) as u8
        &&& ((wide >> 16) & 0xff) as u8 == ((x >> 16) & 0xff) as u8
        &&& ((wide >> 8) & 0xff) as u8 == ((x >> 8) & 0xff) as u8
        &&& ((wide >> 0) & 0xff) as u8 == (x & 0xff) as u8
    }) by (bit_vector)
        requires
            wide == x as u64,
    ;
    assert(bytes@ =~= u32_be_bytes(x));
    bytes
}

/// Reads the eight bytes of `bytes` that start at `at` as a big-endian integer.
pub fn u64_from_be(bytes: &[u8], at: usize) -> (x: u64)
    requires
        at + 8 <= bytes@.len(),
    ensures
        x == u64_from_be_bytes(bytes@.subrange(at as int, at + 8)),
{
    (bytes[at] as u64) << 56 | (bytes[at + 1] as u64) << 48 | (bytes[at + 2] as u64) << 40 | (
    bytes[at + 3] as u64) << 32 | (bytes[at + 4] as u64) << 24 | (bytes[at + 5] as u64) << 16 | (
    bytes[at + 6] as u64) << 8 | (bytes[at + 7] as u64)
}

/// Reads the four bytes of `bytes` that start at `at` as a big-endian integer.
pub fn u32_from_be(bytes: &[u8], at: usize) -> (x: u32)
    requires
        at + 4 <= bytes@.len(),
    ensures
        x == u32_from_be_bytes(bytes@.subrange(at as int, at + 4)),
{
    (bytes[at] as u32) << 24 | (bytes[at + 1] as u32) << 16 | (bytes[at + 2] as u32) << 8 | (
    bytes[at + 3] as u32)
}

/// Whether two byte strings hold the same bytes.
pub fn bytes_equal(a: &[u8], b: &[u8]) -> (same: bool)
    ensures
        same == (a@ == b@),
{
    if a.len() != b.len() {
        return false;
    }
    let mut i: usize = 0;
    while i < a.len()
        invariant
            a@.len() == b@.len(),
            i <= a@.len(),
            forall|j: int| 0 <= j < i ==> a@[j] == b@[j],
        decreases a@.len() - i,
    {
        if a[i] != b[i] {
            return false;
        }
        i += 1;
    }
    assert(a@ =~= b@);
    true
}

} // verus!
