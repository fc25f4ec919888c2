# authentication

The rules of an authentication micro-service, written in Verus with their
contracts proved: user names, email addresses and passwords as they are
accepted; Argon2id password hashes; time-ordered row identifiers; the JSON
text of token claims and the signing and checking of JSON Web Tokens; access,
refresh and email verification tokens; the database models (users, sessions,
logins, refresh tokens, email verifications) and the checks made before the
database is queried; the runtime environment and the database connection
settings; and the gRPC status each error is answered with.

Layout:

- `src/` — the verified library. `domain/` and `domains/` hold the domain
  types, `database/` the models, `json.rs` the JSON text of claims (with its
  read-back proofs), `json_object.rs` the reading of a JSON object's members
  in any order, `uuid_text.rs` the hyphenated text of UUIDs, `jwt.rs`
  the signing and checking of tokens with `jsonwebtoken`, `clock.rs` the
  current time, `text.rs` character-level helpers.
- `tests/` — tests of the library, run against the real outside crates.
- `app/` — the service binary: reading the settings, the connection pool and
  the SQL queries of each table, the `tonic` status of an error, and the
  reading of the `authorization` metadata of a request.
