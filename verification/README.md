# artifact_keeper

The rules of an artifact server's VS Code extension gallery and of its package catalog, as a
verified library.

* `src/` is the library. Every function states what it returns in its contract, and Verus proves it.
  Where the library calls `serde_json`, `chrono`, `sha2` or `urlencoding`, the call stands behind a
  small function whose doc comment says what is taken on trust.
* `tests/` runs the library.
* `app/` mounts it under axum: it reads requests, asks the database and the upstream, and performs
  the steps that the library decides on.

## The library

| Modules | What they hold |
| --- | --- |
| `text`, `percent`, `time`, `json` | texts, percent-encoding, publish times, JSON documents |
| `repository`, `error`, `bounds` | repositories, refusals, byte and count limits |
| `coordinate`, `urls`, `manifest` | what may stand in a path, and the URLs and cache paths made of it |
| `query`, `skeleton`, `history` | gallery queries, version histories and what is kept of them |
| `response`, `served`, `envelope` | rewriting the asset references of gallery documents |
| `gate`, `compose`, `gallery`, `delivery` | the age gate, composed documents, the gallery routes as decisions, and what reaches a client |
| `hosted` | packages that a repository keeps itself |
| `catalog` | which stored artifacts are packages, and under which name and version |
