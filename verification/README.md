# greentic-ext-runtime

The decision-making core of the Greentic designer-extension runtime, written
in Verus and proved against its contracts.

## Layout

- `src/` — the verified library.
  - `url_matcher`, `net_permissions`, `url_parts`: the strict network
    allow-list and the per-extension selection of it (declared patterns
    replace the host override; plain http only for loopback).
  - `host_calls`: the gates behind the host functions a guest calls —
    secret access, cross-extension calls, LLM roles, HTTP fetch, redirects
    and the response-size cap.
  - `registry`: the capability registry, derived wholesale from the loaded
    set on every registration, reload and removal.
  - `capability`: resolution of a consumer's required capabilities (the
    highest-ranked offering a `semver` requirement accepts, or unresolved) and the
    detection of dependency cycles between consumers.
  - `wit`, `types`: the records extensions exchange with the host and their
    variant-for-variant mapping.
  - `adaptive_cards`, `json`: the Adaptive Cards reference extension's card
    checks and tools over a plain JSON model.
  - `state`, `pool`, `limits`, `manifest`, `oauth`, `pack_registry`,
    `tool_metadata`, `runtime`, `broker`, `kind`, `health`, `error`, `text`.
- `app/` — the edges: files, the filesystem watcher, HTTP, and
  the serde and error shapes of the public records.
- `tests/` — tests of the library through its public API.

Calls into `url`, `semver`, `sha2` and the standard library that the proofs
rely on go through small trusted wrappers whose contracts say what the outside
code returns.

## What is not here

The WebAssembly component runtime itself is absent: the engine, the
`ExtensionRuntime` that instantiates components and dispatches calls into
them (`render_bundle`, `knowledge_get`, `validate_content`, `compile_role`,
`validate_credentials`, the component path of `list_tools`), `HostState` and
its builder, the instance pool's wasm stores, epoch ticking and store limits.
They are calls into `wasmtime`, which cannot be had here, and the calls cannot
be parted from what they return. What those functions decide around the calls
is in `src/`: the lookup of the loaded extension, the error mappings of every
interface version, the host-function gates (`host_calls`) a `HostState` would
run before doing I/O, and the version selection.
