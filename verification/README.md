# blobscan-agent

An agent that follows Ethereum blocks, reads their EIP-4844 blobs from
Blobscan, stores each blob as an ANS-104 DataItem on Load's HyperBEAM
`~s3@1.0` device, indexes it in PlanetScale and serves the index over HTTP.

The rules of the agent live in a library verified with Verus (`src/`):

- `json` – a JSON model and the extraction of versioned hashes from a
  Blobscan block response;
- `blobscan` – Blobscan endpoints, assembly of a block's blobs, the
  storage-reference payload;
- `storage` – DataItem tags, object keys, and which blobs of a block are
  stored (each versioned hash once, at its first occurrence), with its laws;
- `indexer` – the index queries, with the driver's value escaping;
- `agent` – the archiving cursor of the indexing loop, with its laws;
- `server` – the HTTP answers;
- `archive` – the brotli calldata and transaction-id handling of the
  WeaveVM archive pipeline;
- `eth` – the Ethereum JSON-RPC provider;
- `types`, `text`, `constants` – the blob record and text rendering.

`app/` holds the program: HTTP, S3, database and RPC calls, the Tokio
runtime and the Axum server.
