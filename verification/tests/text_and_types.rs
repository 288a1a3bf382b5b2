use blobscan_agent::text::u64_to_decimal;
use blobscan_agent::types::{BlobInfo, VersionedHashOnly};

#[test]
fn decimal_of_zero() {
    assert_eq!(u64_to_decimal(0), "0");
}

#[test]
fn decimal_of_numbers() {
    assert_eq!(u64_to_decimal(7), "7");
    assert_eq!(u64_to_decimal(10), "10");
    assert_eq!(u64_to_decimal(19426587), "19426587");
    assert_eq!(u64_to_decimal(u64::MAX), "18446744073709551615");
}

#[test]
fn blob_info_from_keeps_fields() {
    let b = BlobInfo::from(19426588, "0x01ab".to_string(), "0xdeadbeef".to_string());
    assert_eq!(b.ethereum_block_number, 19426588);
    assert_eq!(b.versioned_hash, "0x01ab");
    assert_eq!(b.data, "0xdeadbeef");
}

#[test]
fn blob_info_display_text() {
    let b = BlobInfo::from(42, "0x01ab".to_string(), "0xff".to_string());
    assert_eq!(b.to_display_string(), "Block: 42, Hash: 0x01ab, Data: 0xff");
}

#[test]
fn blob_info_default_is_empty() {
    let b = BlobInfo::default();
    assert_eq!(b.ethereum_block_number, 0);
    assert_eq!(b.versioned_hash, "");
    assert_eq!(b.data, "");
}

#[test]
fn blob_info_clone_is_equal() {
    let b = BlobInfo::from(5, "h".to_string(), "d".to_string());
    let c = b.clone();
    assert_eq!(c.ethereum_block_number, 5);
    assert_eq!(c.versioned_hash, "h");
    assert_eq!(c.data, "d");
}

#[test]
fn versioned_hash_only_holds_hash() {
    let v = VersionedHashOnly { versioned_hash: "0x01".to_string() };
    assert_eq!(v.clone().versioned_hash, "0x01");
}
