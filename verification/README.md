# wolfram

A reverse proxy that routes requests by host and first path segment to
load-balanced services, and an authentication service with Argon2 password
hashes and rotating refresh tokens.

`src/` is the library, verified with Verus:

- `config` — the configuration: services, their host and prefix, their backends.
- `routing` — the first segment of a request path, and the load balancer's view
  of a backend.
- `proxy` — the routing table built from the configuration, the per-request
  decision (rate limit, 404 with its reason, or the service to forward to), and
  the request context.
- `backend` — the pool of backend servers and their runtime state.
- `auth` — password hashing and login checks, refresh tokens (random secrets
  stored as SHA-256 digests, valid for a week), the refresh-token rotation as a
  state machine over the database steps it asks for, a model of the token table
  that whole rotations are proved against, and access-token claims.
- `text` — lexicographic order, prefixes and separators over `Seq<char>`.

`app/` holds the programs: the pingora proxy service and its load balancers,
the configuration file reader, the database queries that run the library's
decisions, and the HTTP servers. `tests/` exercises the library.
