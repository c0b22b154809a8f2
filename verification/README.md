# link_review

A file-review web tool for two Telegram file bots (PLGB and TGFS), with a public
search page over the files that were accepted. Moderators log in, sample pending
files, accept, reject, rename or delete them, and browse statistics.

The crate is split in two:

- `src/` is the library, verified with Verus: parsing of the search forms into
  query conditions, the join of TGFS index and blob records, the selection,
  ordering and pagination of the listed files, file cards and their signed
  download links, opaque file-detail tokens, the login and access-key decisions,
  and the formatting helpers (file sizes, thousands separators, percentages,
  URL encoding). Calls into outside crates (base64, HMAC-SHA256, the bson object
  id, chrono, argon2, Unicode case mapping) stand behind small trusted wrappers
  whose contracts are stated in their doc comments.
- `app/` is the server: axum routes, MongoDB queries, cookies, templates and the
  float arithmetic of the statistics pages. It converts MongoDB documents into
  the library's records and the library's conditions into query documents.

`tests/` exercises the library on concrete values, including comparisons of the
integer implementations of the float formatting against `f64` arithmetic.
