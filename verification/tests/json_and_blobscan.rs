use blobscan_agent::blobscan::{blob_data_url, blobs_of_block, block_url, references_payload};
use blobscan_agent::json::{versioned_hashes_of_block, JsonValue};

fn s(x: &str) -> String {
    x.to_string()
}

fn obj(fields: Vec<(&str, JsonValue)>) -> JsonValue {
    JsonValue::Object(fields.into_iter().map(|(k, v)| (s(k), v)).collect())
}

fn blob(hash: &str) -> JsonValue {
    obj(vec![("versionedHash", JsonValue::String(s(hash))), ("index", JsonValue::Number(s("0")))])
}

#[test]
fn hashes_of_a_block_in_document_order() {
    let resp = obj(vec![
        ("number", JsonValue::Number(s("19426600"))),
        (
            "transactions",
            JsonValue::Array(vec![
                obj(vec![("blobs", JsonValue::Array(vec![blob("0x01a"), blob("0x01b")]))]),
                obj(vec![("hash", JsonValue::String(s("0xtx")))]),
                obj(vec![("blobs", JsonValue::Array(vec![blob("0x01c")]))]),
            ]),
        ),
    ]);
    assert_eq!(versioned_hashes_of_block(&resp), vec![s("0x01a"), s("0x01b"), s("0x01c")]);
}

#[test]
fn hashes_skip_entries_of_other_shapes() {
    let resp = obj(vec![(
        "transactions",
        JsonValue::Array(vec![
            obj(vec![(
                "blobs",
                JsonValue::Array(vec![
                    obj(vec![("versionedHash", JsonValue::Number(s("1")))]),
                    JsonValue::Null,
                    blob("0x01d"),
                ]),
            )]),
            obj(vec![("blobs", JsonValue::String(s("not an array")))]),
            JsonValue::Array(vec![blob("0x01e")]),
        ]),
    )]);
    assert_eq!(versioned_hashes_of_block(&resp), vec![s("0x01d")]);
}

#[test]
fn hashes_of_a_response_without_transactions() {
    assert!(versioned_hashes_of_block(&JsonValue::Null).is_empty());
    assert!(versioned_hashes_of_block(&obj(vec![("statusCode", JsonValue::Number(s("404")))]))
        .is_empty());
    assert!(versioned_hashes_of_block(&obj(vec![("transactions", JsonValue::Bool(true))]))
        .is_empty());
}

#[test]
fn later_member_shadows_earlier() {
    let resp = obj(vec![
        ("transactions", JsonValue::Array(vec![obj(vec![("blobs", JsonValue::Array(vec![blob("0xold")]))])])),
        ("transactions", JsonValue::Array(vec![obj(vec![("blobs", JsonValue::Array(vec![blob("0xnew")]))])])),
    ]);
    assert_eq!(versioned_hashes_of_block(&resp), vec![s("0xnew")]);
    let key = s("transactions");
    assert!(resp.get_member(&key).is_some());
    assert!(resp.get_member(&s("missing")).is_none());
}

#[test]
fn block_url_format() {
    assert_eq!(block_url(19426587), "https://api.blobscan.com/blocks/19426587?type=canonical");
    assert_eq!(block_url(0), "https://api.blobscan.com/blocks/0?type=canonical");
}

#[test]
fn blob_data_url_format() {
    assert_eq!(blob_data_url("0x01ab"), "https://api.blobscan.com/blobs/0x01ab/data");
}

#[test]
fn blobs_of_block_pairs_hashes_with_data() {
    let blobs = blobs_of_block(7, vec![s("a"), s("b")], vec![s("da"), s("db")]);
    assert_eq!(blobs.len(), 2);
    assert_eq!(blobs[0].ethereum_block_number, 7);
    assert_eq!(blobs[0].versioned_hash, "a");
    assert_eq!(blobs[0].data, "da");
    assert_eq!(blobs[1].ethereum_block_number, 7);
    assert_eq!(blobs[1].versioned_hash, "b");
    assert_eq!(blobs[1].data, "db");
    assert!(blobs_of_block(7, vec![], vec![]).is_empty());
}

#[test]
fn references_payload_shape() {
    match references_payload("0x01ab") {
        JsonValue::Object(fields) => {
            assert_eq!(fields.len(), 1);
            assert_eq!(fields[0].0, "blobHashes");
            match &fields[0].1 {
                JsonValue::Array(items) => {
                    assert_eq!(items.len(), 1);
                    assert!(matches!(&items[0], JsonValue::String(h) if h == "0x01ab"));
                }
                _ => panic!("blobHashes is not an array"),
            }
        }
        _ => panic!("payload is not an object"),
    }
}
