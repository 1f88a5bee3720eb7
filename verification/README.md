# gear-microkit

Building blocks of a gRPC microservice kit on poem.

- `src/` — the library, written in Verus: decimal integer parsing with the
  grammar of `str::parse` (`number`), splitting text at a separator with its
  join law (`text`), request metadata and the typed readers of its entries
  (`metadata`, `request_ext`), header values and header maps (`header`), the
  decisions of the client and server middlewares (`middlewares`), the server
  defaults (`server`) and the choice of proto files for code generation
  (`codegen`).
- `app/` — the poem and opentelemetry plumbing that drives them: the gRPC
  server, the middleware impls, the code generator and the conversion of
  `poem_grpc` request metadata.
- `tests/` — tests of the library on concrete values.
