# todo_server

The rules of a small to-do web service, formally verified, and the server
around them.

- `src/` — the verified library:
  - `config.rs`: errors and answers sent to clients; the record of running reminders.
  - `models/`: accounts and to-do items.
  - `handler/users.rs`: sign-up and login decisions, login tokens' claims.
  - `handler/todo_item.rs`: creating, listing, updating, deleting items; reminders; uploads.
  - `methods.rs`: the clock as decimal text, token checking, reminder timing.
  - `token.rs`: the JSON payload of login tokens, signing and checking them (jsonwebtoken).
  - `json.rs`, `text.rs`: JSON string escaping and decimal text, with their read-back proofs.
- `app/` — the axum/diesel server that performs the I/O and calls the library.
- `tests/` — tests of the library.
