use blobscan_agent::indexer::{archive_block_query, insert_kv_query, insert_pair_query};

#[test]
fn insert_kv_binds_hash_id_and_block() {
    let q = insert_kv_query("0x01ab", "dataitem_id", 19426600);
    assert_eq!(
        format!("{:?}", q),
        "INSERT INTO blobscan_arweave_mapping(versioned_hash, arweave_txid, ethereum_block_number) VALUES(\"0x01ab\", \"dataitem_id\", 19426600)"
    );
}

#[test]
fn bound_values_are_escaped() {
    let q = insert_pair_query("a'b", "c\"d`e");
    assert_eq!(
        format!("{:?}", q),
        "INSERT INTO blobscan_arweave_mapping(versioned_hash, arweave_txid) VALUES(\"a''b\", \"c\\\"d\\`e\")"
    );
}

#[test]
fn archive_insert_trims_txid_quotes() {
    let q = archive_block_query(19426600, "\"0xfeed\"", "0x01ab", "0x00");
    assert_eq!(
        format!("{:?}", q),
        "INSERT INTO Blobscan(EthereumBlockId, WeaveVMArchiveTxid, VersionedHash, BlobData) VALUES(19426600, \"0xfeed\", \"0x01ab\", \"0x00\")"
    );
}
