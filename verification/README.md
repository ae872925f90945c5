# url_shortener

A URL shortener: short links with custom or generated slugs, optional
password protection, and per-link click statistics behind an admin login.

- `src/` is the verified library (Verus). It decides everything the server
  does: URL and slug checks, blocklists, generated slugs (sqids over a
  database counter), the steps of storing a link, password checks, session
  cookies, redirects and click records, and the errors the API answers with.
  `src/outside.rs` holds the trusted contracts of the calls into outside
  crates (url, sqids, argon2, constant_time_eq, chrono, base64, cookie).
- `app/` is the server around it: configuration from the environment, the
  SQLite database (sqlx), and the HTTP routes (axum) that read requests,
  perform what the library asks for against the database, and answer.
- `tests/` runs the library on concrete values.

Environment: `DATABASE_URL`, `COOKIE_SECRET` (Base64, at least 64 bytes once
decoded), `ADMIN_PASSWORD`, optionally `DOMAIN_BLOCKLIST` and
`SLUG_BLOCKLIST` (files with one entry per line), `COOKIE_SECURE` (`true` or
`1` marks cookies `Secure`) and `BIND_ADDRESS` (default `127.0.0.1:3000`).
