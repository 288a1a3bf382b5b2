//! A JSON document model, and the reading of Blobscan block responses.
//!
//! Numbers are kept as their textual form, so that a document can be held
//! without floating point.
use vstd::prelude::*;
use crate::text::string_views;

verus! {

/// A JSON value. Object members are kept in document order; as with
/// serde_json's maps, a later member shadows an earlier one with the same key.
#[derive(Debug)]
pub enum JsonValue {
    Null,
    Bool(bool),
    /// The number's decimal text, e.g. "42" or "-1.5e3".
    Number(String),
    String(String),
    Array(Vec<JsonValue>),
    Object(Vec<(String, JsonValue)>),
}

/// The value of the last member named `key` among `fields`.
pub open spec fn member_of(fields: Seq<(String, JsonValue)>, key: Seq<char>) -> Option<JsonValue>
    decreases fields.len(),
{
    if fields.len() == 0 {
        None
    } else if fields.last().0@ == key {
        Some(fields.last().1)
    } else {
        member_of(fields.drop_last(), key)
    }
}

/// The JSON-pointer step `/key` applied to `v`: the member `key` of an
/// object, nothing for any other value (a non-numeric token does not
/// index an array).
pub open spec fn member(v: JsonValue, key: Seq<char>) -> Option<JsonValue> {
    match v {
        JsonValue::Object(fields) => member_of(fields@, key),
        _ => None,
    }
}

/// The versioned hash that one blob entry contributes: its string-valued
/// `versionedHash` member, if it has one.
pub open spec fn blob_entry_hash(blob: JsonValue) -> Seq<Seq<char>> {
    match member(blob, "versionedHash"@) {
        Some(JsonValue::String(h)) => seq![h@],
        _ => Seq::empty(),
    }
}

/// The hashes of a list of blob entries, in order.
pub open spec fn hashes_of_blob_entries(blobs: Seq<JsonValue>) -> Seq<Seq<char>>
    decreases blobs.len(),
{
    if blobs.len() == 0 {
        Seq::empty()
    } else {
        hashes_of_blob_entries(blobs.drop_last()) + blob_entry_hash(blobs.last())
    }
}

/// The hashes that one transaction contributes: those of its `blobs` array.
pub open spec fn tx_hashes(tx: JsonValue) -> Seq<Seq<char>> {
    match member(tx, "blobs"@) {
        Some(JsonValue::Array(blobs)) => hashes_of_blob_entries(blobs@),
        _ => Seq::empty(),
    }
}

/// The hashes of a list of transactions, in order.
pub open spec fn hashes_of_txs(txs: Seq<JsonValue>) -> Seq<Seq<char>>
    decreases txs.len(),
{
    if txs.len() == 0 {
        Seq::empty()
    } else {
        hashes_of_txs(txs.drop_last()) + tx_hashes(txs.last())
    }
}

/// The versioned hashes that a Blobscan block response lists: for each
/// entry of its `transactions` array, for each entry of that transaction's
/// `blobs` array, its `versionedHash` when that is a string. Anything of
/// another shape contributes nothing.
pub open spec fn block_versioned_hashes(resp: JsonValue) -> Seq<Seq<char>> {
    match member(resp, "transactions"@) {
        Some(JsonValue::Array(txs)) => hashes_of_txs(txs@),
        _ => Seq::empty(),
    }
}

impl JsonValue {
    /// The member `key` of an object (the JSON-pointer step `/key`).
    pub fn get_member(&self, key: &String) -> (r: Option<&JsonValue>)
        ensures
            r.is_some() == member(*self, key@).is_some(),
            r.is_some() ==> *r.unwrap() == member(*self, key@).unwrap(),
    {
        match self {
            JsonValue::Object(fields) => {
                let mut i: usize = fields.len();
                assert(fields@.take(i as int) =~= fields@);
                while i > 0
                    invariant
                        i <= fields@.len(),
                        member(*self, key@) == member_of(fields@.take(i as int), key@),
                    decreases i,
                {
                    assert(fields@.take(i as int).drop_last() =~= fields@.take(i - 1));
                    assert(fields@.take(i as int).last() == fields@[i - 1]);
                    if fields[i - 1].0 == *key {
                        return Some(&fields[i - 1].1);
                    }
                    i = i - 1;
                }
                assert(fields@.take(0) =~= Seq::<(String, JsonValue)>::empty());
                None
            },
            _ => None,
        }
    }
}

fn blob_entry_hash_into(blob: &JsonValue, out: &mut Vec<String>)
    ensures
        string_views(final(out)@) == string_views(old(out)@) + blob_entry_hash(*blob),
{
    let key = String::from_str("versionedHash");
    proof {
        reveal_strlit("versionedHash");
    }
    let ghost before = out@;
    match blob.get_member(&key) {
        Some(JsonValue::String(h)) => {
            out.push(h.clone());
            assert(string_views(out@) =~= string_views(before) + blob_entry_hash(*blob));
        },
        _ => {
            assert(string_views(out@) =~= string_views(before) + blob_entry_hash(*blob));
        },
    }
}

fn tx_hashes_into(tx: &JsonValue, out: &mut Vec<String>)
    ensures
        string_views(final(out)@) == string_views(old(out)@) + tx_hashes(*tx),
{
    let key = String::from_str("blobs");
    proof {
        reveal_strlit("blobs");
    }
    let ghost before = out@;
    match tx.get_member(&key) {
        Some(JsonValue::Array(blobs)) => {
            let mut i: usize = 0;
            while i < blobs.len()
                invariant
                    i <= blobs@.len(),
                    string_views(out@) == string_views(before) + hashes_of_blob_entries(
                        blobs@.take(i as int),
                    ),
                decreases blobs@.len() - i,
            {
                blob_entry_hash_into(&blobs[i], out);
                assert(blobs@.take(i + 1).drop_last() =~= blobs@.take(i as int));
                assert(string_views(out@) =~= string_views(before) + hashes_of_blob_entries(
                    blobs@.take(i + 1),
                ));
                i = i + 1;
            }
            assert(blobs@.take(i as int) =~= blobs@);
        },
        _ => {
            assert(string_views(out@) =~= string_views(before) + tx_hashes(*tx));
        },
    }
}

/// The versioned hashes listed in a Blobscan block response
/// (`GET /blocks/<id>`), in document order.
pub fn versioned_hashes_of_block(resp: &JsonValue) -> (r: Vec<String>)
    ensures
        string_views(r@) == block_versioned_hashes(*resp),
{
    let mut out: Vec<String> = Vec::new();
    let key = String::from_str("transactions");
    proof {
        reveal_strlit("transactions");
        assert(string_views(out@) =~= Seq::<Seq<char>>::empty());
    }
    match resp.get_member(&key) {
        Some(JsonValue::Array(txs)) => {
            let mut i: usize = 0;
            while i < txs.len()
                invariant
                    i <= txs@.len(),
                    string_views(out@) == hashes_of_txs(txs@.take(i as int)),
                decreases txs@.len() - i,
            {
                tx_hashes_into(&txs[i], &mut out);
                assert(txs@.take(i + 1).drop_last() =~= txs@.take(i as int));
                i = i + 1;
            }
            assert(txs@.take(i as int) =~= txs@);
        },
        _ => {},
    }
    out
}


/// Whether a blob entry has a string `versionedHash`.
pub open spec fn has_string_hash(blob: JsonValue) -> bool {
    member(blob, "versionedHash"@) matches Some(JsonValue::String(_))
}

/// The number of blob entries that have a string `versionedHash`.
pub open spec fn hashed_blob_count(blobs: Seq<JsonValue>) -> nat
    decreases blobs.len(),
{
    if blobs.len() == 0 {
        0
    } else {
        hashed_blob_count(blobs.drop_last()) + if has_string_hash(blobs.last()) {
            1nat
        } else {
            0nat
        }
    }
}

/// The number of such entries in the `blobs` array of each transaction,
/// summed over the transactions.
pub open spec fn hashed_blob_total(txs: Seq<JsonValue>) -> nat
    decreases txs.len(),
{
    if txs.len() == 0 {
        0
    } else {
        hashed_blob_total(txs.drop_last()) + match member(txs.last(), "blobs"@) {
            Some(JsonValue::Array(blobs)) => hashed_blob_count(blobs@),
            _ => 0nat,
        }
    }
}

proof fn lemma_blob_entries_len(blobs: Seq<JsonValue>)
    ensures
        hashes_of_blob_entries(blobs).len() == hashed_blob_count(blobs),
    decreases blobs.len(),
{
    if blobs.len() > 0 {
        lemma_blob_entries_len(blobs.drop_last());
    }
}

proof fn lemma_txs_len(txs: Seq<JsonValue>)
    ensures
        hashes_of_txs(txs).len() == hashed_blob_total(txs),
    decreases txs.len(),
{
    if txs.len() > 0 {
        lemma_txs_len(txs.drop_last());
        match member(txs.last(), "blobs"@) {
            Some(JsonValue::Array(blobs)) => lemma_blob_entries_len(blobs@),
            _ => {},
        }
    }
}

proof fn lemma_txs_concat(a: Seq<JsonValue>, b: Seq<JsonValue>)
    ensures
        hashes_of_txs(a + b) == hashes_of_txs(a) + hashes_of_txs(b),
    decreases b.len(),
{
    if b.len() == 0 {
        assert(a + b =~= a);
        assert(hashes_of_txs(a) + hashes_of_txs(b) =~= hashes_of_txs(a));
    } else {
        assert((a + b).drop_last() =~= a + b.drop_last());
        assert((a + b).last() == b.last());
        lemma_txs_concat(a, b.drop_last());
        assert(hashes_of_txs(a + b) =~= hashes_of_txs(a) + hashes_of_txs(b));
    }
}

/// A block response lists one hash for every blob entry with a string
/// `versionedHash`, over all of its transactions, with no cap: the number
/// of hashes is the sum over the transactions of the number of such entries.
pub proof fn lemma_block_hash_count(resp: JsonValue, txs: Vec<JsonValue>)
    requires
        member(resp, "transactions"@) == Some(JsonValue::Array(txs)),
    ensures
        block_versioned_hashes(resp).len() == hashed_blob_total(txs@),
{
    lemma_txs_len(txs@);
}

/// The hashes of a response whose transactions are those of two responses,
/// one after the other, are the hashes of the first followed by those of the
/// second.
pub proof fn lemma_block_hashes_concat(
    resp: JsonValue,
    txs: Vec<JsonValue>,
    first: JsonValue,
    first_txs: Vec<JsonValue>,
    second: JsonValue,
    second_txs: Vec<JsonValue>,
)
    requires
        member(resp, "transactions"@) == Some(JsonValue::Array(txs)),
        member(first, "transactions"@) == Some(JsonValue::Array(first_txs)),
        member(second, "transactions"@) == Some(JsonValue::Array(second_txs)),
        txs@ == first_txs@ + second_txs@,
    ensures
        block_versioned_hashes(resp) == block_versioned_hashes(first) + block_versioned_hashes(
            second,
        ),
{
    lemma_txs_concat(first_txs@, second_txs@);
}

/// A response with one transaction carrying one blob entry whose
/// `versionedHash` is the string `h` lists exactly `h`.
pub proof fn lemma_block_single_blob(
    resp: JsonValue,
    txs: Vec<JsonValue>,
    blobs: Vec<JsonValue>,
    h: String,
)
    requires
        member(resp, "transactions"@) == Some(JsonValue::Array(txs)),
        txs@.len() == 1,
        member(txs@[0], "blobs"@) == Some(JsonValue::Array(blobs)),
        blobs@.len() == 1,
        member(blobs@[0], "versionedHash"@) == Some(JsonValue::String(h)),
    ensures
        block_versioned_hashes(resp) == seq![h@],
{
    assert(txs@.drop_last() =~= Seq::<JsonValue>::empty());
    assert(blobs@.drop_last() =~= Seq::<JsonValue>::empty());
    assert(txs@.last() == txs@[0]);
    assert(blobs@.last() == blobs@[0]);
    assert(blob_entry_hash(blobs@[0]) == seq![h@]);
    assert(hashes_of_blob_entries(blobs@.drop_last()) == Seq::<Seq<char>>::empty());
    assert(hashes_of_blob_entries(blobs@) == hashes_of_blob_entries(blobs@.drop_last())
        + blob_entry_hash(blobs@.last()));
    assert(hashes_of_blob_entries(blobs@) =~= seq![h@]);
    assert(tx_hashes(txs@[0]) == seq![h@]);
    assert(hashes_of_txs(txs@.drop_last()) == Seq::<Seq<char>>::empty());
    assert(hashes_of_txs(txs@) == hashes_of_txs(txs@.drop_last()) + tx_hashes(txs@.last()));
    assert(hashes_of_txs(txs@) =~= seq![h@]);
}

} // verus!
