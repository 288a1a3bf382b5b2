//! Data types of the agent: a blob with its carrier block, and the records
//! that the indexer keeps about archived blobs.
use vstd::prelude::*;
use crate::text::{decimal, push_decimal, push_str};

verus! {

/// The versioned hash of a blob, as the indexer returns it in listings.
#[derive(Debug, Clone)]
pub struct VersionedHashOnly {
    /// Blob's versioned hash
    pub versioned_hash: String,
}

/// An EIP-4844 blob: the block that carried it, its versioned hash and its
/// hex-encoded data. This is the payload stored for every blob.
#[derive(Debug)]
pub struct BlobInfo {
    /// EIP-4844 tx's block number
    pub ethereum_block_number: u64,
    /// Blob's versioned hash
    pub versioned_hash: String,
    /// Blob's hex data field
    pub data: String,
}

/// The text shown for a blob: "Block: <number>, Hash: <hash>, Data: <data>".
pub open spec fn blob_info_text(block: u64, hash: Seq<char>, data: Seq<char>) -> Seq<char> {
    "Block: "@ + decimal(block as nat) + ", Hash: "@ + hash + ", Data: "@ + data
}

impl BlobInfo {
    /// Creates a BlobInfo from its three fields.
    pub fn from(ethereum_block_number: u64, versioned_hash: String, data: String) -> (b: Self)
        ensures
            b.ethereum_block_number == ethereum_block_number,
            b.versioned_hash == versioned_hash,
            b.data == data,
    {
        Self { ethereum_block_number, versioned_hash, data }
    }

    /// The human-readable rendering of the blob.
    pub fn to_display_string(&self) -> (s: String)
        ensures
            s@ == blob_info_text(self.ethereum_block_number, self.versioned_hash@, self.data@),
    {
        let mut s = String::new();
        push_str(&mut s, "Block: ");
        push_decimal(&mut s, self.ethereum_block_number);
        push_str(&mut s, ", Hash: ");
        push_str(&mut s, self.versioned_hash.as_str());
        push_str(&mut s, ", Data: ");
        push_str(&mut s, self.data.as_str());
        proof {
            reveal_strlit("Block: ");
            reveal_strlit(", Hash: ");
            reveal_strlit(", Data: ");
            assert(s@ =~= blob_info_text(self.ethereum_block_number, self.versioned_hash@, self.data@));
        }
        s
    }
}

impl Clone for BlobInfo {
    /// A copy with equal fields.
    fn clone(&self) -> (b: Self)
        ensures
            b == *self,
    {
        BlobInfo {
            ethereum_block_number: self.ethereum_block_number,
            versioned_hash: self.versioned_hash.clone(),
            data: self.data.clone(),
        }
    }
}

impl Default for BlobInfo {
    /// Block zero, empty hash, empty data.
    fn default() -> (b: Self)
        ensures
            b.ethereum_block_number == 0,
            b.versioned_hash@ == Seq::<char>::empty(),
            b.data@ == Seq::<char>::empty(),
    {
        BlobInfo { ethereum_block_number: 0, versioned_hash: String::new(), data: String::new() }
    }
}

} // verus!
