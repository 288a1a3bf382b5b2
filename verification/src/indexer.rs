//! The indexer database: the queries the agent sends, and how it reads the
//! answers it gets back.
use vstd::prelude::*;
use crate::constants::FIRST_ETH_L1_EIP4844_BLOCK;
use crate::archive::{trim_char, trim_quotes};
use crate::text::{decimal, push_decimal, push_str, u64_to_decimal};
use planetscale_driver::QueryBuilder;

verus! {

#[verifier::external_type_specification]
#[verifier::external_body]
pub struct ExQueryBuilder(QueryBuilder);

/// The SQL template a query builder was made with.
pub uninterp spec fn query_template(q: QueryBuilder) -> Seq<char>;

/// The values bound to a query builder so far, in binding order, as they
/// will be substituted for `$0`, `$1`, ...
pub uninterp spec fn query_values(q: QueryBuilder) -> Seq<Seq<char>>;

/// How the driver escapes one character of a bound value: `'` is doubled,
/// `"` and the backtick get a backslash before them.
pub open spec fn escaped_char(c: char) -> Seq<char> {
    if c == '\'' {
        seq!['\'', '\'']
    } else if c == '"' {
        seq!['\\', '"']
    } else if c == '`' {
        seq!['\\', '`']
    } else {
        seq![c]
    }
}

/// A bound value as the driver escapes it.
pub open spec fn escaped(s: Seq<char>) -> Seq<char>
    decreases s.len(),
{
    if s.len() == 0 {
        Seq::empty()
    } else {
        escaped(s.drop_last()) + escaped_char(s.last())
    }
}

/// `planetscale_driver::query(template)`: a builder holding the template and
/// no values.
#[verifier::external_body]
fn new_query(template: &str) -> (q: QueryBuilder)
    ensures
        query_template(q) == template@,
        query_values(q) == Seq::<Seq<char>>::empty(),
{
    planetscale_driver::query(template)
}

/// `QueryBuilder::bind(value)`: the template is kept and the value, escaped
/// (`'` to `''`, `"` to `\"`, backtick to backslash-backtick), is appended
/// to the bound values.
#[verifier::external_body]
fn bind_value(q: QueryBuilder, value: &str) -> (r: QueryBuilder)
    ensures
        query_template(r) == query_template(q),
        query_values(r) == query_values(q).push(escaped(value@)),
{
    q.bind(value)
}

/// The row insert that maps a blob to its DataItem and carrier block.
pub open spec fn insert_kv_template() -> Seq<char> {
    "INSERT INTO blobscan_arweave_mapping(versioned_hash, arweave_txid, ethereum_block_number) VALUES(\"$0\", \"$1\", $2)"@
}

/// The insert of the metadata triple (versioned hash, DataItem id, carrier
/// block) into the index.
pub fn insert_kv_query(versioned_hash: &str, arweave_txid: &str, ethereum_block_number: u64) -> (q:
    QueryBuilder)
    ensures
        query_template(q) == insert_kv_template(),
        query_values(q) == seq![
            escaped(versioned_hash@),
            escaped(arweave_txid@),
            escaped(decimal(ethereum_block_number as nat)),
        ],
{
    let q = new_query(
        "INSERT INTO blobscan_arweave_mapping(versioned_hash, arweave_txid, ethereum_block_number) VALUES(\"$0\", \"$1\", $2)",
    );
    proof {
        reveal_strlit(
            "INSERT INTO blobscan_arweave_mapping(versioned_hash, arweave_txid, ethereum_block_number) VALUES(\"$0\", \"$1\", $2)",
        );
    }
    let q = bind_value(q, versioned_hash);
    let q = bind_value(q, arweave_txid);
    let block = u64_to_decimal(ethereum_block_number);
    let q = bind_value(q, block.as_str());
    proof {
        assert(query_values(q) =~= seq![
            escaped(versioned_hash@),
            escaped(arweave_txid@),
            escaped(decimal(ethereum_block_number as nat)),
        ]);
    }
    q
}

/// The row insert of the pair (versioned hash, DataItem id) alone.
pub open spec fn insert_pair_template() -> Seq<char> {
    "INSERT INTO blobscan_arweave_mapping(versioned_hash, arweave_txid) VALUES(\"$0\", \"$1\")"@
}

/// The insert of the pair (versioned hash, DataItem id) into the index.
pub fn insert_pair_query(versioned_hash: &str, arweave_txid: &str) -> (q: QueryBuilder)
    ensures
        query_template(q) == insert_pair_template(),
        query_values(q) == seq![escaped(versioned_hash@), escaped(arweave_txid@)],
{
    let q = new_query(
        "INSERT INTO blobscan_arweave_mapping(versioned_hash, arweave_txid) VALUES(\"$0\", \"$1\")",
    );
    proof {
        reveal_strlit(
            "INSERT INTO blobscan_arweave_mapping(versioned_hash, arweave_txid) VALUES(\"$0\", \"$1\")",
        );
    }
    let q = bind_value(q, versioned_hash);
    let q = bind_value(q, arweave_txid);
    proof {
        assert(query_values(q) =~= seq![escaped(versioned_hash@), escaped(arweave_txid@)]);
    }
    q
}

/// The row insert of an archived blob into the `Blobscan` table.
pub open spec fn archive_block_template() -> Seq<char> {
    "INSERT INTO Blobscan(EthereumBlockId, WeaveVMArchiveTxid, VersionedHash, BlobData) VALUES($0, \"$1\", \"$2\", \"$3\")"@
}

/// The insert of an archived blob: its block, the archive transaction id
/// without surrounding `"` characters (the column holds 66 characters), its
/// versioned hash and its data.
pub fn archive_block_query(
    network_block_id: u32,
    wvm_calldata_txid: &str,
    versioned_hash: &str,
    blob_data: &str,
) -> (q: QueryBuilder)
    ensures
        query_template(q) == archive_block_template(),
        query_values(q) == seq![
            escaped(decimal(network_block_id as nat)),
            escaped(trim_char(wvm_calldata_txid@, '"')),
            escaped(versioned_hash@),
            escaped(blob_data@),
        ],
{
    let txid = trim_quotes(wvm_calldata_txid);
    let q = new_query(
        "INSERT INTO Blobscan(EthereumBlockId, WeaveVMArchiveTxid, VersionedHash, BlobData) VALUES($0, \"$1\", \"$2\", \"$3\")",
    );
    proof {
        reveal_strlit(
            "INSERT INTO Blobscan(EthereumBlockId, WeaveVMArchiveTxid, VersionedHash, BlobData) VALUES($0, \"$1\", \"$2\", \"$3\")",
        );
    }
    let block = u64_to_decimal(network_block_id as u64);
    let q = bind_value(q, block.as_str());
    let q = bind_value(q, txid);
    let q = bind_value(q, versioned_hash);
    let q = bind_value(q, blob_data);
    proof {
        assert(query_values(q) =~= seq![
            escaped(decimal(network_block_id as nat)),
            escaped(trim_char(wvm_calldata_txid@, '"')),
            escaped(versioned_hash@),
            escaped(blob_data@),
        ]);
    }
    q
}

/// The lookup of a blob's (versioned hash, DataItem id) pair.
pub open spec fn versioned_hash_query_text(versioned_hash: Seq<char>) -> Seq<char> {
    "SELECT versioned_hash, arweave_txid FROM blobscan_arweave_mapping WHERE versioned_hash = '"@
        + versioned_hash + "' LIMIT 1;"@
}

/// The query that fetches the metadata pair of the blob `versioned_hash`.
pub fn versioned_hash_query(versioned_hash: &str) -> (q: String)
    ensures
        q@ == versioned_hash_query_text(versioned_hash@),
{
    let mut q = String::new();
    push_str(
        &mut q,
        "SELECT versioned_hash, arweave_txid FROM blobscan_arweave_mapping WHERE versioned_hash = '",
    );
    push_str(&mut q, versioned_hash);
    push_str(&mut q, "' LIMIT 1;");
    proof {
        reveal_strlit(
            "SELECT versioned_hash, arweave_txid FROM blobscan_arweave_mapping WHERE versioned_hash = '",
        );
        reveal_strlit("' LIMIT 1;");
        assert(q@ =~= versioned_hash_query_text(versioned_hash@));
    }
    q
}

/// The lookup of an archived blob, with its data, in the `Blobscan` table.
pub open spec fn blob_data_query_text(versioned_hash: Seq<char>) -> Seq<char> {
    "SELECT EthereumBlockId, WeaveVMArchiveTxid, VersionedHash, BlobData FROM Blobscan WHERE VersionedHash = '"@
        + versioned_hash + "' LIMIT 1;"@
}

/// The query that fetches the archived blob `versioned_hash` with its data.
pub fn blob_data_query(versioned_hash: &str) -> (q: String)
    ensures
        q@ == blob_data_query_text(versioned_hash@),
{
    let mut q = String::new();
    push_str(
        &mut q,
        "SELECT EthereumBlockId, WeaveVMArchiveTxid, VersionedHash, BlobData FROM Blobscan WHERE VersionedHash = '",
    );
    push_str(&mut q, versioned_hash);
    push_str(&mut q, "' LIMIT 1;");
    proof {
        reveal_strlit(
            "SELECT EthereumBlockId, WeaveVMArchiveTxid, VersionedHash, BlobData FROM Blobscan WHERE VersionedHash = '",
        );
        reveal_strlit("' LIMIT 1;");
        assert(q@ =~= blob_data_query_text(versioned_hash@));
    }
    q
}

/// The number of versioned hashes listed per page.
pub const HASHES_PER_PAGE: u32 = 100000;

/// The listing of page `page` of all archived versioned hashes.
pub open spec fn paginated_hashes_query_text(page: nat) -> Seq<char> {
    "SELECT VersionedHash FROM Blobscan LIMIT 100000 OFFSET "@ + decimal(page * (HASHES_PER_PAGE as nat))
        + ";"@
}

/// The query that lists page `page` of the archived versioned hashes; the
/// offset `page * 100000` must fit in a `u32`.
pub fn paginated_hashes_query(page: u32) -> (q: String)
    requires
        page * HASHES_PER_PAGE <= u32::MAX,
    ensures
        q@ == paginated_hashes_query_text(page as nat),
{
    let offset: u32 = page * HASHES_PER_PAGE;
    let mut q = String::new();
    push_str(&mut q, "SELECT VersionedHash FROM Blobscan LIMIT 100000 OFFSET ");
    push_decimal(&mut q, offset as u64);
    push_str(&mut q, ";");
    proof {
        reveal_strlit("SELECT VersionedHash FROM Blobscan LIMIT 100000 OFFSET ");
        reveal_strlit(";");
        assert(q@ =~= paginated_hashes_query_text(page as nat));
    }
    q
}

/// The block the indexing loop resumes after: the highest block number the
/// index holds, or the EIP-4844 activation block when the index has none.
pub fn latest_archived_or_first(indexed_max: Option<u64>) -> (n: u64)
    ensures
        n == match indexed_max {
            Some(m) => m,
            None => FIRST_ETH_L1_EIP4844_BLOCK,
        },
{
    match indexed_max {
        Some(m) => m,
        None => FIRST_ETH_L1_EIP4844_BLOCK,
    }
}

/// The same, narrowed to a 32-bit block number by truncation, as the
/// `Blobscan` table's reader does.
pub fn latest_archived_block_u32(indexed_max: Option<u64>) -> (n: u32)
    ensures
        n == (match indexed_max {
            Some(m) => m,
            None => FIRST_ETH_L1_EIP4844_BLOCK,
        }) as u32,
{
    let m = latest_archived_or_first(indexed_max);
    m as u32
}


/// The metadata lookup carries the whole versioned hash, character for
/// character, between `... WHERE versioned_hash = '` (90 characters) and
/// `' LIMIT 1;` (10 characters), whatever the hash's length; so distinct
/// hashes give distinct lookups.
pub proof fn lemma_versioned_hash_query_holds_hash(h: Seq<char>, other: Seq<char>)
    ensures
        versioned_hash_query_text(h).len() == h.len() as int + 100,
        versioned_hash_query_text(h).subrange(0, 90)
            == "SELECT versioned_hash, arweave_txid FROM blobscan_arweave_mapping WHERE versioned_hash = '"@,
        versioned_hash_query_text(h).subrange(90, 90 + h.len() as int) == h,
        versioned_hash_query_text(h).subrange(90 + h.len() as int, h.len() as int + 100) == "' LIMIT 1;"@,
        versioned_hash_query_text(h) == versioned_hash_query_text(other) ==> h == other,
{
    reveal_strlit(
        "SELECT versioned_hash, arweave_txid FROM blobscan_arweave_mapping WHERE versioned_hash = '",
    );
    reveal_strlit("' LIMIT 1;");
    let q = versioned_hash_query_text(h);
    assert(q.subrange(0, 90)
        =~= "SELECT versioned_hash, arweave_txid FROM blobscan_arweave_mapping WHERE versioned_hash = '"@);
    assert(q.subrange(90, 90 + h.len() as int) =~= h);
    assert(q.subrange(90 + h.len() as int, h.len() as int + 100) =~= "' LIMIT 1;"@);
    let q2 = versioned_hash_query_text(other);
    assert(q2.subrange(90, 90 + other.len() as int) =~= other);
    if q == q2 {
        assert(h.len() as int == other.len() as int);
    }
}

} // verus!
