# ObjStor

An S3-compatible object store: buckets and objects over several storage
pools, content-addressed data with deduplication, server-side encryption,
AWS Signature V4 authentication, pre-signed downloads, multipart uploads,
storage tiers with lifecycle rules, integrity checks, and an administration
API with an optional AI assistant.

## Layout

- `src/` is the library, verified with Verus.  Each module states what its
  functions do in `requires`/`ensures` contracts over mathematical models
  (`Seq`, `Map`, spec functions), and the properties that span several
  functions are stated and proved as `law_*` proof functions.
  - `text`: characters, substrings, splitting, decimal and hex text.
  - `outside`: the trusted calls into the hashing, encryption, encoding,
    URL, clock and random crates, each with the contract it is trusted for.
  - `error`, `s3_error`: the errors and the HTTP answers they are given.
  - `sigv4`, `presign`: Signature V4 checking and pre-signed URLs.
  - `encryption`: AES-256-GCM encryption of objects and key verification.
  - `s3_routes`, `s3_object`, `s3_xml`, `bucket_ops`, `gateway`: routing of
    S3 requests, ranges, encryption headers, the XML answers, bucket
    creation checks and the first decisions taken on each request.
  - `pool`, `pool_set`, `scheduler`, `tier`, `lifecycle`, `integrity`,
    `dedup`: storage pools, their selection, tiers and lifecycle rules,
    integrity accounting and deduplication decisions.
  - `multipart`: multipart upload bookkeeping.
  - `config`, `admin`, `ai`, `metadata`, `iam`, `acl`, `dashboard`: the
    configuration and its updates, the administration requests, the AI
    assistant's messages, catalogue records and search queries, permissions
    and the dashboard's log lines.
- `tests/` runs the library on concrete inputs.
- `app/` is the server around the library: HTTP (axum), the SQLite
  catalogue, files on disk, background tasks, logging, the WebSocket, the
  parts computed with floating point (least-loaded and adaptive scheduling,
  rate limiting, I/O metrics), and serde copies of the library's types.
