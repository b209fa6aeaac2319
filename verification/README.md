# kantyna

The user API of the Kantyna canteen service, with its logic verified in Verus.

- `src/` is the verified library:
  - `decimal` — decimal text of integers and `i32` parsing, with the law that
    parsing reads back what formatting wrote;
  - `auth` — the bearer token of an `Authorization` header and the user that a
    token's subject names;
  - `token` — session tokens (HS256 JWTs): the claims text, signing, checking;
  - `password` — bcrypt hashes with random URL-safe salts;
  - `ids` — random URL-safe identifiers;
  - `activation` — the registry of pending activation links;
  - `mail` — the verification mail sent after registration;
  - `entity` — the `user` row;
  - `users` — the decisions of the user routes between database calls, and the
    laws that span them.
- `app/` holds the actix routes, the SeaORM entities, and mail delivery: it
  performs the database reads and writes and hands their outcomes to the library.
- `tests/` runs the library against the real outside crates.
