# gaugewright-directory

The blind account directory: the readable routing/identity layer of the account model. Per
account root it keeps the latest signed publish, served back byte for byte, and the digest of
every publish it admitted for that root. Writes are fail-closed and fenced by generation: a
publish must advance its root's generation by exactly one, a retry of an admitted publish is
idempotent, and a root-signed retraction makes the root read as `410 Gone`.

Layout:

- `src/` — the verified library (Verus):
  - `account_root.rs`: the shape of an account root path;
  - `digest.rs`: the SHA-256 body digest in lowercase hex;
  - `entry.rs`: what the directory reads of a published entry, and what it stores;
  - `directory.rs`: the directory, its model, the generation fence and the rehydration fold;
  - `service.rs`: how a publish and a read are answered;
  - `laws.rs`: the properties that hold across operations (fence, idempotency, fail-closed
    writes, read-after-write, restart).
- `app/` — the service binary: HTTP routing (axum), parsing and signature checking of the
  protocol's signed puts, and the durable log.
- `tests/` — tests of the library.
