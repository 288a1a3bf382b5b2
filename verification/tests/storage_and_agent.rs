use blobscan_agent::agent::{ArchiveCursor, ArchiveOutcome};
use blobscan_agent::constants::FIRST_ETH_L1_EIP4844_BLOCK;
use blobscan_agent::storage::{blobs_to_store, bucket_object_key, data_item_tags, object_key};
use blobscan_agent::types::BlobInfo;

fn b(n: u64, h: &str, d: &str) -> BlobInfo {
    BlobInfo::from(n, h.to_string(), d.to_string())
}

fn hashes(v: &[BlobInfo]) -> Vec<String> {
    v.iter().map(|x| x.versioned_hash.clone()).collect()
}

#[test]
fn tags_of_data_items() {
    let tags = data_item_tags();
    assert_eq!(
        tags,
        vec![
            ("content-type".to_string(), "application/json".to_string()),
            ("Protocol".to_string(), "Load-Blobscan".to_string()),
        ]
    );
}

#[test]
fn object_key_layout() {
    assert_eq!(object_key("blobs", "abcDEF_123"), "blobs/abcDEF_123.ans104");
    assert_eq!(bucket_object_key("bucket", "blobs", "id"), "bucket/blobs/id.ans104");
}

#[test]
fn duplicates_stored_once_at_first_occurrence() {
    let blobs = vec![b(1, "a", "first"), b(1, "b", "x"), b(1, "a", "second"), b(1, "c", "y"), b(1, "b", "z")];
    let kept = blobs_to_store(&blobs);
    assert_eq!(hashes(&kept), vec!["a", "b", "c"]);
    assert_eq!(kept[0].data, "first");
    assert_eq!(kept[1].data, "x");
    assert_eq!(kept[2].data, "y");
}

#[test]
fn storing_is_idempotent() {
    let blobs = vec![b(1, "a", "1"), b(1, "a", "2"), b(1, "b", "3")];
    let once = blobs_to_store(&blobs);
    let twice = blobs_to_store(&once);
    assert_eq!(hashes(&once), hashes(&twice));
    assert_eq!(once[0].data, twice[0].data);
    assert!(blobs_to_store(&vec![]).is_empty());
}

#[test]
fn cursor_attempts_next_block_when_behind_head() {
    let c = ArchiveCursor::new(FIRST_ETH_L1_EIP4844_BLOCK);
    assert_eq!(c.next_block(FIRST_ETH_L1_EIP4844_BLOCK + 5), Some(FIRST_ETH_L1_EIP4844_BLOCK + 1));
    assert_eq!(c.next_block(FIRST_ETH_L1_EIP4844_BLOCK), None);
    assert_eq!(c.next_block(100), None);
}

#[test]
fn cursor_waits_at_head() {
    let c = ArchiveCursor::new(FIRST_ETH_L1_EIP4844_BLOCK + 9);
    assert_eq!(c.next_block(FIRST_ETH_L1_EIP4844_BLOCK + 9), None);
    assert_eq!(c.next_block(FIRST_ETH_L1_EIP4844_BLOCK + 3), None);
}

#[test]
fn cursor_advances_whatever_the_outcome() {
    let head = FIRST_ETH_L1_EIP4844_BLOCK + 3;
    let mut c = ArchiveCursor::new(FIRST_ETH_L1_EIP4844_BLOCK);
    let mut attempted = Vec::new();
    let outcomes = [ArchiveOutcome::Stored, ArchiveOutcome::FetchFailed, ArchiveOutcome::StoreFailed];
    let mut k = 0;
    while let Some(t) = c.next_block(head) {
        attempted.push(t);
        c.record(t, outcomes[k % 3]);
        k += 1;
    }
    assert_eq!(
        attempted,
        vec![FIRST_ETH_L1_EIP4844_BLOCK + 1, FIRST_ETH_L1_EIP4844_BLOCK + 2, FIRST_ETH_L1_EIP4844_BLOCK + 3]
    );
    assert_eq!(c.latest_archived(), head);
}
