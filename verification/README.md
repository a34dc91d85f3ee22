# api_bones

Shared building blocks for HTTP and Connect RPC services — RFC 9457 problem
details, entity tags and conditional requests, `Authorization` headers and
scopes, `Cache-Control`, `Content-Type`, CORS, deprecation headers, health
reports, bulk envelopes, signed cursors and Connect error shaping — written
in Verus with their behaviour stated as contracts and proved.

Layout:

- `src/` — the verified library. Each module states what its functions return
  over spec functions and views, and proves the laws that tie its functions
  together (for example, that parsing a rendered `Cache-Control` value gives
  the value back, or that a failed write is the only `Internal` failure a
  client may replay).
- `tests/` — executable tests of the library.
- `app/` — the edges: the static that holds the error-type mode store and
  the environment read that resolves it, serde wire forms,
  axum extractors and response parts, `chrono` timestamps and the Connect
  runtime glue.

Limits of the verified types:

- `ApiError` carries no underlying `source` error and offers no
  `with_source`: an error trait object cannot be held or walked by verified
  code, and the library's types do not implement `std::error::Error`.
  Equality of two `ApiError` values is therefore plain field equality.
- The credential types (`BearerToken`, `BasicCredentials`,
  `ApiKeyCredentials`, `OAuth2Token`) redact their secrets in `Debug`, but
  their memory is not wiped when they are dropped: verified code cannot
  declare a destructor.
- Timestamps are plain `Timestamp { secs, nanos }` values in UTC; `app/`
  converts them to and from `chrono::DateTime<Utc>`.
