# catlas_api

The domain logic of the Catlas geospatial API, written in Verus: every function in
`src/` carries a `requires`/`ensures` contract that Verus proves.

- `src/` — the verified library: configuration parsing, request and upload validation,
  draft versioning, the publication checks and the rows a publication writes, the
  topology of the graph a changeset would publish, sign-in rules and error mapping.
  Calls into `chrono`, `poem` (URI parsing), `openidconnect` (URL parsing and the post-login redirect) and `uuid`
  go through small trusted wrappers whose contracts are stated next to them.
- `tests/` — tests of the library on concrete values.
- `app/` — the HTTP service around the library: Poem/OpenAPI endpoints, Diesel and
  PostGIS queries, OIDC, telemetry and `main`. It reads rows and requests, hands plain
  values to the library and acts on what comes back. What it still decides itself is tied
  to its outside types or to the database: the order of the staging and publication
  statements inside a transaction, the PostGIS ring checks, and the floating-point bounding
  box.
