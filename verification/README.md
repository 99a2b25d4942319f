# social_api

The request handling, response building, account and credential logic of a
small HTTP service, written in Verus with contracts that Verus proves. What
depends on the clock or on chance is fixed by functions that take the reading
or the draws as arguments (`User::new_at`, `random_id_from_uuids`,
`random_str_from_draws`); what outside crates compute is stated through named
results of the calls.

- `src/text.rs`: trimming, `splitn`, one-character replacement, decimal
  rendering, UTF-8 byte counts.
- `src/headers.rs`: header lists with distinct names and the laws of binding
  and dropping a name. Headers are held as a vector of name/value pairs
  whose names are distinct, in place of a `HashMap<String, String>`: Verus
  proves nothing of a map keyed by `String`. Responses write their headers in
  the order they were bound, one of the orders a hash map could give.
- `src/http.rs`: methods, protocol versions, responses (validity, text form)
  and parsing a request head.
- `src/routes/`, `src/handler.rs`: the answers to ping, unknown routes and
  maintenance, and the choice among them.
- `src/security.rs`: AES-256 encryption of secrets (magic-crypt), SHA-256
  password hashes, random identifiers (uuid) and tokens.
- `src/user.rs`: accounts and how a stored row becomes one (chrono, num).
- `src/query.rs`: the SQL of account creation and the decisions between the
  database's answers.
- `app/`: the process itself: sockets, threads, the MySQL connection, the
  random floats that tokens are drawn with, and the loops that feed the
  library's decisions with the database's answers.
