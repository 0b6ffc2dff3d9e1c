# centralenv

A self-hosted manager for `.env` variables: a small HTTP server that keeps
variable values sealed with AES-256-GCM under a master key, and a command-line
client that pulls them into a `.env` file or into a child process.

The logic is a Verus library, proved against its contracts; the program around
it (HTTP, SQLite, the command line, files) is ordinary Rust.

## Layout

- `src/` — the verified library
  - `crypto.rs` — the stored-value format `base64(nonce):base64(ciphertext)`,
    sealing and opening, with the round trip proved
  - `dotenv.rs` — rendering pulled variables as a sorted, quoted `.env` text
  - `auth.rs`, `hashing.rs`, `ids.rs`, `scope.rs` — bearer-token and session
    checks, digests and bcrypt, fresh ids and tokens, project scopes
  - `routes/` — the decisions of the request handlers, including the export
    that the client pulls, written as a state machine over database lookups
  - `setup.rs` — reading the master key and seeding the admin user
  - `client.rs` — the client's request address and status handling
- `tests/` — tests of the library on concrete values
- `app/` — the server (`centralenv-server`) and the client (`centralenv`),
  chosen by the name the program is run under

Each call into an outside crate (aes-gcm, base64, bcrypt, sha2, hex,
serde_json, rand, uuid) goes through a small trusted wrapper whose contract
states what that crate's documentation and source show.
