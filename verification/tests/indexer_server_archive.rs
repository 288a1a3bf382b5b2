use blobscan_agent::archive::{
    brotli_compress, brotli_decompress, compress_blob_json, trim_quotes, try_brotli_decompress,
};
use blobscan_agent::constants::FIRST_ETH_L1_EIP4844_BLOCK;
use blobscan_agent::eth::Ethereum;
use blobscan_agent::indexer::{
    blob_data_query, latest_archived_block_u32, latest_archived_or_first, paginated_hashes_query,
    versioned_hash_query,
};
use blobscan_agent::json::JsonValue;
use blobscan_agent::server::{blob_lookup_response, handle_route, stats_response};

#[test]
fn versioned_hash_query_text() {
    assert_eq!(
        versioned_hash_query("0x01ab"),
        "SELECT versioned_hash, arweave_txid FROM blobscan_arweave_mapping WHERE versioned_hash = '0x01ab' LIMIT 1;"
    );
}

#[test]
fn blob_data_query_text() {
    assert_eq!(
        blob_data_query("0x01ab"),
        "SELECT EthereumBlockId, WeaveVMArchiveTxid, VersionedHash, BlobData FROM Blobscan WHERE VersionedHash = '0x01ab' LIMIT 1;"
    );
}

#[test]
fn paginated_query_offsets() {
    assert_eq!(paginated_hashes_query(0), "SELECT VersionedHash FROM Blobscan LIMIT 100000 OFFSET 0;");
    assert_eq!(paginated_hashes_query(3), "SELECT VersionedHash FROM Blobscan LIMIT 100000 OFFSET 300000;");
}

#[test]
fn latest_block_fallback() {
    assert_eq!(latest_archived_or_first(Some(19500000)), 19500000);
    assert_eq!(latest_archived_or_first(None), FIRST_ETH_L1_EIP4844_BLOCK);
    assert_eq!(latest_archived_block_u32(None), FIRST_ETH_L1_EIP4844_BLOCK as u32);
    assert_eq!(latest_archived_block_u32(Some(5_000_000_001)), 705_032_705);
}

#[test]
fn health_check_answer() {
    assert_eq!(handle_route(), "load it up [^^]");
}

#[test]
fn blob_lookup_answers() {
    match blob_lookup_response(None) {
        JsonValue::Object(fields) => {
            assert_eq!(fields.len(), 1);
            assert_eq!(fields[0].0, "error");
            assert!(matches!(&fields[0].1, JsonValue::String(m) if m == "Blob not found"));
        }
        _ => panic!("not an object"),
    }
    assert!(matches!(blob_lookup_response(Some(JsonValue::Bool(true))), JsonValue::Bool(true)));
}

#[test]
fn stats_answers() {
    assert!(matches!(stats_response(None), JsonValue::Null));
    assert!(matches!(stats_response(Some(JsonValue::Number("3".to_string()))), JsonValue::Number(n) if n == "3"));
}

#[test]
fn quotes_trimmed_from_txid() {
    assert_eq!(trim_quotes("\"0xabc\""), "0xabc");
    assert_eq!(trim_quotes("0xabc"), "0xabc");
    assert_eq!(trim_quotes("\"\"\""), "");
    assert_eq!(trim_quotes("\"a\"b\""), "a\"b");
    assert_eq!(trim_quotes(""), "");
}

#[test]
fn calldata_roundtrip() {
    let json = br#"{"ethereum_block_number":19426600,"versioned_hash":"0x01ab","data":"0x00000000000000000000"}"#;
    let compressed = compress_blob_json(json).unwrap();
    assert_ne!(compressed.as_slice(), &json[..]);
    assert_eq!(try_brotli_decompress(compressed.clone()).unwrap(), json.to_vec());
    assert_eq!(brotli_decompress(compressed.clone()), json.to_vec());
    assert_eq!(brotli_compress(json), compressed);
}

#[test]
fn invalid_calldata_is_rejected() {
    assert!(try_brotli_decompress(vec![0xff, 0xff, 0xff, 0xff, 0x00, 0x11]).is_none());
}

#[test]
fn ethereum_client_for_valid_url() {
    assert!(Ethereum::try_client("http://localhost:8545").is_some());
    let provider = Ethereum::client("https://eth.llamarpc.com");
    assert_eq!(provider.url().as_str(), "https://eth.llamarpc.com/");
    let local = Ethereum::try_client("http://localhost:8545").unwrap();
    assert_eq!(local.url().as_str(), "http://localhost:8545/");
}

#[test]
fn ethereum_client_rejects_invalid_url() {
    assert!(Ethereum::try_client("not a url").is_none());
}
