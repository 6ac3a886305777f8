# codex-egress-relay

A reverse proxy in front of one configured upstream. It gives every request the identity headers
of a Codex CLI turn, each exactly once and all of one session, sends the request on, and streams
the reply back byte for byte.

- `src/` is the library, verified with Verus: configuration (`config`), the identity of a turn
  (`identity`), header collections (`headers`), JSON objects (`json`), random identifiers and the
  clock (`fresh`), the course of a request (`proxy`), text rules (`text`), and what holds of all
  headers that are sent upstream (`laws`).
- `tests/` runs the library on concrete values.
- `app/` is the program: it reads the environment, listens, and does the reading and sending.

The library calls `axum` (for `http`), `serde_json` and `uuid`. What it takes on trust of them
stands in the items marked `external_body` and `assume_specification`, each with a comment that
says what is claimed.
