//! Verified core of the Load blobscan agent: the rules by which Ethereum
//! EIP-4844 blobs are discovered in Blobscan responses, deduplicated,
//! named in storage, indexed and served.
pub mod constants;
pub mod text;
pub mod types;
pub mod json;
pub mod blobscan;
pub mod storage;
pub mod agent;
pub mod indexer;
pub mod server;
pub mod archive;
pub mod eth;
