# pulsevision

The decision logic of PulseVision, an observability server for PulseHive
multi-agent systems, written in Verus with its contracts proved.

- `src/` — the verified library:
  - `api` — paging limits, content previews, the collectives and stats
    responses (with the experience type distribution), the projection input check, the health report;
  - `error` — the error type, the HTTP status and message of each error;
  - `session` — session identifiers, metadata, stored events, how a stored
    row becomes a session, the completion outcome, event type and
    timestamp extraction, and the store that keeps nothing;
  - `ws` — the ingest connection as a state machine (one session per
    connection, opened on the first event, completed at the end) and the
    subscriber relay (which drops a browser after three unanswered pings);
  - `client` — the exporter's reconnect policy (exponential backoff from
    1 s to 30 s);
  - `serve` — settings of the standalone server;
  - `ident`, `text` — identifier and decimal text forms.
- `app/` — the server itself: axum routes, WebSocket I/O, the SQLite
  session store, the PulseDB reader, PCA and attractor arithmetic, the
  exporter task and the command line.
- `tests/` — tests of the library on concrete values.
