# social_service

The policy core of a modular, multi-application social backend, verified with
Verus, and the HTTP service around it.

- `src/` is the verified library. It decides which social capabilities a
  deployment and an application have (`features`), who may read a post
  (`posts`), what moderation authority a caller holds and which checks gate
  ordinary activity (`moderation`, `review`, `signals`), how group roles and
  membership change (`groups`), what conversations, profiles and user-safety
  relationships accept (`chat`, `profiles`, `relationships`), and how request
  headers and text fields are read (`auth`, `validation`, `text`). Every public
  function states its result in its contract; the laws that relate several
  functions are public proof functions.
- `tests/` runs the library on concrete values.
- `app/` is the Axum and PostgreSQL service: it reads requests and rows, hands
  plain values to the library, and performs what the library decides.

Configuration is read from `DATABASE_URL`, `SOCIAL_BIND`, `SOCIAL_FEATURES`
(a comma-separated capability list) and `SOCIAL_READINESS_TIMEOUT_MS`.
