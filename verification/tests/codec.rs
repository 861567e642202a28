use record_cache::bytes::{bytes_equal, u32_from_be, u32_to_be, u64_from_be, u64_to_be};
use record_cache::metadata::{RecordMetadata, INITIAL_RECORD_VERSION, METADATA_LEN};

#[test]
fn live_metadata_is_encoded_big_endian() {
    let metadata = RecordMetadata {
        id: 0x0102030405060708,
        version: 0x0a0b0c0d,
        insert_operation_id: Some(0x1112131415161718),
    };
    assert_eq!(
        metadata.encode(),
        [
            0x01, 0x02, 0x03, 0x04, 0x05, 0x06, 0x07, 0x08, 0x0a, 0x0b, 0x0c, 0x0d, 1, 0x11, 0x12,
            0x13, 0x14, 0x15, 0x16, 0x17, 0x18
        ]
    );
}

#[test]
fn tombstone_is_encoded_with_a_zero_tag() {
    let metadata = RecordMetadata { id: 1, version: 2, insert_operation_id: None };
    assert_eq!(
        metadata.encode(),
        [0, 0, 0, 0, 0, 0, 0, 1, 0, 0, 0, 2, 0, 0, 0, 0, 0, 0, 0, 0, 0]
    );
    assert_eq!(metadata.encode().len(), METADATA_LEN);
}

#[test]
fn decode_reads_each_field_from_its_offset() {
    let bytes = [0, 0, 0, 0, 0, 0, 1, 0, 0, 0, 0, 3, 1, 0, 0, 0, 0, 0, 0, 2, 5];
    assert_eq!(
        RecordMetadata::decode(&bytes),
        RecordMetadata { id: 256, version: 3, insert_operation_id: Some(517) }
    );
}

#[test]
fn decode_reads_any_other_tag_as_a_tombstone() {
    let mut bytes = [0u8; 21];
    bytes[7] = 9;
    bytes[11] = 4;
    bytes[20] = 7;
    bytes[12] = 0;
    assert_eq!(
        RecordMetadata::decode(&bytes),
        RecordMetadata { id: 9, version: 4, insert_operation_id: None }
    );
    bytes[12] = 2;
    assert_eq!(
        RecordMetadata::decode(&bytes),
        RecordMetadata { id: 9, version: 4, insert_operation_id: None }
    );
}

#[test]
fn decode_gives_back_what_was_encoded() {
    let cases = [
        RecordMetadata { id: 0, version: 1, insert_operation_id: Some(0) },
        RecordMetadata { id: u64::MAX, version: u32::MAX, insert_operation_id: Some(u64::MAX) },
        RecordMetadata { id: 1 << 40, version: 1 << 20, insert_operation_id: None },
        RecordMetadata { id: 12345, version: 6, insert_operation_id: Some(1 << 63) },
    ];
    for metadata in cases {
        assert_eq!(RecordMetadata::decode(&metadata.encode()), metadata);
    }
}

#[test]
fn encoded_order_is_the_order_of_the_ids() {
    let small = RecordMetadata { id: 255, version: 1, insert_operation_id: None }.encode();
    let large = RecordMetadata { id: 256, version: 1, insert_operation_id: None }.encode();
    assert!(small < large);
}

#[test]
fn integers_are_written_most_significant_byte_first() {
    assert_eq!(u64_to_be(1), [0, 0, 0, 0, 0, 0, 0, 1]);
    assert_eq!(u64_to_be(0xfedcba9876543210), [0xfe, 0xdc, 0xba, 0x98, 0x76, 0x54, 0x32, 0x10]);
    assert_eq!(u32_to_be(0xdeadbeef), [0xde, 0xad, 0xbe, 0xef]);
    assert_eq!(u64_to_be(0xfedcba9876543210), 0xfedcba9876543210u64.to_be_bytes());
    assert_eq!(u32_to_be(77), 77u32.to_be_bytes());
}

#[test]
fn integers_are_read_from_an_offset() {
    let bytes = [9, 0xfe, 0xdc, 0xba, 0x98, 0x76, 0x54, 0x32, 0x10, 9];
    assert_eq!(u64_from_be(&bytes, 1), 0xfedcba9876543210);
    assert_eq!(u32_from_be(&bytes, 1), 0xfedcba98);
    assert_eq!(u32_from_be(&bytes, 6), 0x54321009);
}

#[test]
fn byte_strings_are_equal_when_all_bytes_are() {
    assert!(bytes_equal(&[], &[]));
    assert!(bytes_equal(&[1, 2, 3], &[1, 2, 3]));
    assert!(!bytes_equal(&[1, 2, 3], &[1, 2]));
    assert!(!bytes_equal(&[1, 2, 3], &[1, 2, 4]));
    assert!(!bytes_equal(&[], &[0]));
}

#[test]
fn the_first_version_is_one() {
    assert_eq!(INITIAL_RECORD_VERSION, 1);
}
