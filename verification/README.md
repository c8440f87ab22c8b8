# ai-catalog

AI Catalog documents, verified with Verus: reading and writing catalogs,
validating them against the format's conformance rules, analysing
their trust manifests, and packing them as OCI artifacts and image layouts.

## Layout

- `src/` is the verified library. Every executable function states what it
  returns in its contract, over spec functions on views; laws that relate
  several functions are public proof functions named `law_*`.
  - `model`, `json`, `schema`, `render`, `jsontext`: the document model, how
    a JSON value reads as a catalog and how a catalog is written, and the
    compact JSON text of a value (`roundtrip` proves that a written catalog
    reads back as itself; `ordered` proves that a catalog read from JSON
    objects in key order, as `serde_json` reads them, holds and writes its
    maps in key order; `parsed` proves that such a catalog is well formed
    and packable; `reorder` proves that reading JSON back with its objects'
    members in key order reads the same documents).
  - `conformance`, `validate`: the conformance rules and validation.
  - `canonical`: the canonical JSON (RFC 8785) of catalogs and trust
    manifests that their signatures sign, through `serde_jcs`.
  - `identity`, `digest`, `jws`, `timestamp`, `pattern`, `analysis`, `trust`:
    identities and their domains, digests, detached signatures, timestamps,
    regular expressions, and trust analysis.
  - `keyed`, `oci`, `pack`, `unpack`, `cosign`, `layout`, `import`: OCI
    artifacts, packing and unpacking, cosign material, and image layouts
    (`repack` and `relayout` prove that unpacking gives back what was packed,
    that importing gives back what was exported, and that a catalog survives
    packing, cosign attachment, export, import and unpacking, with every blob
    and manifest stored under the digest of its bytes).
  - `cli`, `output`, `push`, `cache`: the command line's decisions, the
    `oras` invocations of a push and the step after each of them.
- `app/` is the command line around the library: files, standard streams,
  `serde`, `oras` and `cosign`.
- `tests/` exercises the library on concrete documents.

Outside crates are called through a few trusted wrappers, each with a doc
comment that says what its contract claims: `sha2`, `hex`, `base64`,
`regex`, `time`, `serde_json` and `serde_jcs`.
