# taldawasm

A small framework for HTTP endpoints written as WebAssembly components, with
its core verified by Verus.

- `src/wit.rs` — the records that cross the component boundary (method,
  request, response, error) and their mathematical views.
- `src/method.rs` — methods in the `http` crate's sense and their conversion
  to and from the interface method, with the round-trip laws.
- `src/headers.rs` — building a header map from header lines and reading it
  back, with the round-trip laws.
- `src/message.rs` — requests and responses in the `http` crate's form, their
  conversions, `fetch` (sending through the host) and `handle_request`
  (serving one request in a component).
- `src/host.rs` — the host's store of components and the decisions of its
  routes: reading, storing and running a component, answering service errors,
  reading incoming requests and writing component responses.
- `src/structs.rs` — the string-based endpoint interface.
- `src/http_ext.rs`, `src/base64_ext.rs`, `src/std_ext.rs` — the trusted
  contracts of the calls into the `http` crate, the `base64` crate and the
  standard library.
- `app/` — the host program: routes, locks, the HTTP server and the wasmtime
  engine, around the library.
- `tests/` — tests of the library on concrete values.
