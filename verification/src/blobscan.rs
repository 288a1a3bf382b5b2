//! Blobscan API requests: where a block's blobs and a blob's data are read,
//! how the blobs of a block are assembled, and what is posted back to
//! Blobscan as a storage reference.
use vstd::prelude::*;
use crate::json::JsonValue;
use crate::text::{decimal, push_decimal, push_str};
use crate::types::BlobInfo;

verus! {

/// `https://api.blobscan.com/blocks/<block_id>?type=canonical`
pub open spec fn block_url_text(block_id: nat) -> Seq<char> {
    "https://api.blobscan.com/blocks/"@ + decimal(block_id) + "?type=canonical"@
}

/// `https://api.blobscan.com/blobs/<versioned_hash>/data`
pub open spec fn blob_data_url_text(versioned_hash: Seq<char>) -> Seq<char> {
    "https://api.blobscan.com/blobs/"@ + versioned_hash + "/data"@
}

/// The Blobscan endpoint that lists the canonical block `block_id`.
pub fn block_url(block_id: u64) -> (url: String)
    ensures
        url@ == block_url_text(block_id as nat),
{
    let mut url = String::new();
    push_str(&mut url, "https://api.blobscan.com/blocks/");
    push_decimal(&mut url, block_id);
    push_str(&mut url, "?type=canonical");
    proof {
        reveal_strlit("https://api.blobscan.com/blocks/");
        reveal_strlit("?type=canonical");
        assert(url@ =~= block_url_text(block_id as nat));
    }
    url
}

/// The Blobscan endpoint that returns the data of the blob `versioned_hash`.
pub fn blob_data_url(versioned_hash: &str) -> (url: String)
    ensures
        url@ == blob_data_url_text(versioned_hash@),
{
    let mut url = String::new();
    push_str(&mut url, "https://api.blobscan.com/blobs/");
    push_str(&mut url, versioned_hash);
    push_str(&mut url, "/data");
    proof {
        reveal_strlit("https://api.blobscan.com/blobs/");
        reveal_strlit("/data");
        assert(url@ =~= blob_data_url_text(versioned_hash@));
    }
    url
}

/// The blobs of block `block_id`: the `i`-th carries the `i`-th versioned
/// hash and the `i`-th data, in the order the hashes were listed.
pub fn blobs_of_block(block_id: u64, versioned_hashes: Vec<String>, data: Vec<String>) -> (blobs:
    Vec<BlobInfo>)
    requires
        versioned_hashes@.len() == data@.len(),
    ensures
        blobs@.len() == versioned_hashes@.len(),
        forall|i: int|
            0 <= i < blobs@.len() ==> {
                &&& (#[trigger] blobs@[i]).ethereum_block_number == block_id
                &&& blobs@[i].versioned_hash == versioned_hashes@[i]
                &&& blobs@[i].data == data@[i]
            },
{
    let mut blobs: Vec<BlobInfo> = Vec::new();
    let mut i: usize = 0;
    while i < versioned_hashes.len()
        invariant
            versioned_hashes@.len() == data@.len(),
            i <= versioned_hashes@.len(),
            blobs@.len() == i,
            forall|k: int|
                0 <= k < i ==> {
                    &&& (#[trigger] blobs@[k]).ethereum_block_number == block_id
                    &&& blobs@[k].versioned_hash == versioned_hashes@[k]
                    &&& blobs@[k].data == data@[k]
                },
        decreases versioned_hashes@.len() - i,
    {
        let hash = versioned_hashes[i].clone();
        let blob_data = data[i].clone();
        blobs.push(BlobInfo::from(block_id, hash, blob_data));
        i = i + 1;
    }
    blobs
}

/// The body that registers a stored blob with Blobscan:
/// `{"blobHashes": [<versioned_hash>]}`.
pub open spec fn is_references_payload(v: JsonValue, versioned_hash: Seq<char>) -> bool {
    match v {
        JsonValue::Object(fields) => {
            &&& fields@.len() == 1
            &&& fields@[0].0@ == "blobHashes"@
            &&& match fields@[0].1 {
                JsonValue::Array(items) => {
                    &&& items@.len() == 1
                    &&& items@[0] matches JsonValue::String(h) && h@ == versioned_hash
                },
                _ => false,
            }
        },
        _ => false,
    }
}

/// The body posted to Blobscan's references endpoint for one blob.
pub fn references_payload(versioned_hash: &str) -> (v: JsonValue)
    ensures
        is_references_payload(v, versioned_hash@),
{
    let key = String::from_str("blobHashes");
    proof {
        reveal_strlit("blobHashes");
    }
    let mut items: Vec<JsonValue> = Vec::new();
    items.push(JsonValue::String(String::from_str(versioned_hash)));
    let mut fields: Vec<(String, JsonValue)> = Vec::new();
    fields.push((key, JsonValue::Array(items)));
    JsonValue::Object(fields)
}


/// A blob's data URL carries the whole versioned hash, character for
/// character, between the fixed prefix `https://api.blobscan.com/blobs/`
/// (31 characters) and the suffix `/data` (5 characters), whatever its
/// length; so distinct hashes give distinct URLs.
pub proof fn lemma_blob_data_url_holds_hash(h: Seq<char>, other: Seq<char>)
    ensures
        blob_data_url_text(h).len() == h.len() as int + 36,
        blob_data_url_text(h).subrange(0, 31) == "https://api.blobscan.com/blobs/"@,
        blob_data_url_text(h).subrange(31, 31 + h.len() as int) == h,
        blob_data_url_text(h).subrange(31 + h.len() as int, h.len() as int + 36) == "/data"@,
        blob_data_url_text(h) == blob_data_url_text(other) ==> h == other,
{
    reveal_strlit("https://api.blobscan.com/blobs/");
    reveal_strlit("/data");
    let u = blob_data_url_text(h);
    assert(u.subrange(0, 31) =~= "https://api.blobscan.com/blobs/"@);
    assert(u.subrange(31, 31 + h.len() as int) =~= h);
    assert(u.subrange(31 + h.len() as int, h.len() as int + 36) =~= "/data"@);
    let v = blob_data_url_text(other);
    assert(v.subrange(31, 31 + other.len() as int) =~= other);
    if u == v {
        assert(h.len() as int == other.len() as int);
    }
}

} // verus!
