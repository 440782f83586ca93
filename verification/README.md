# surreal_tooling

Verified building blocks of the SurrealDB tooling, written in Verus.

- `src/` is the verified library. Each module states its behaviour over
  mathematical models (`Seq`, `Map`, spec functions) and proves it:
  - `worker`: work-request arguments, `@flagfile` expansion, test filtering
    by backend and version, query timeouts, the worker's lifecycle as a
    step function, result files and worker responses;
  - `backend`, `rng`, `provision`: backend services, temporary directory
    names, datastore locations and connection strings, the datastore pool and
    what a permit does after its test;
  - `logging`, `gc`: span-level log filtering, log layer settings, the OTLP
    switch, and the RocksDB version-history watermark;
  - `attrs`, `signature`: the rules of the `#[surrealism]` export attribute,
    including how an annotated module's items are rewritten;
  - `exports`, `config`, `hexcode`, `errors`: the export manifest, package
    configuration and summary, hex-encoded kind blobs, runtime errors;
  - `net`: the WASI network allow-list.
  The calls into `semver`, `ipnet`, `url` and `hex` stand behind small
  trusted wrappers whose contracts are documented where they are declared.
- `app/` is ordinary Rust around the library: the worker loop and its I/O,
  process management for backend services, the garbage-collector thread,
  `tracing` layers, `syn`/`quote` glue for the export attribute, TOML
  configuration files and DNS resolution.
- `tests/` exercises the library on concrete values.
