# syncstorage

The Spanner storage backend of a sync server: collections of objects, locks on them, and the
statements that read and write them. The library in `src/` is verified with Verus; `app/` runs it
against Spanner, on pooled connections and a thread pool.

## How it works

`db::SpannerDb` holds a session and decides what to ask of Spanner. It performs no request itself
and reads no clock: whoever opens a session gives it the current time, at which its operations
read and write.
An operation such as `put_bso_sync` runs against the replies that are on record on its connection
(`conn::Conn`). At a request without a reply it returns `Stop::Waiting`, and `Conn::pending` is
the request to perform. Put the answer on record and run the operation again from a copy of the
storage as it was before the first run.

## Layout

- `conn`, `db`, `rows`, `cache`: requests and replies, sessions and transactions, reading rows.
- `collections`, `locks`, `names`, `storage`, `read`, `write`: the operations. The spec functions
  on `db::DbView` say what each sends, what it makes of the replies and how the session changes.
- `params`, `results`, `error`: what operations take and give.
- `timestamp`, `decimal`, `table`: instants (`chrono` reads and writes their texts), numbers, and
  finite maps.
- `replay`, `scope`, `laws`, `objects`, `pages`, `figures`: laws that relate the operations.
