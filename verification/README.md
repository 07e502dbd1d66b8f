# ormp_indexer

Metrics of the ORMP indexer: what is recorded while it runs, one row per chain and dataset, and
the text in which operators and their monitoring see it.

- `src/` is the library. Everything in it is verified with Verus.
  - `text`, `decimal`: comparing and ordering text, writing numbers.
  - `scope`: tables that keep one row per scope, in the order of the scopes.
  - `metrics`: the rows, the recordings, and snapshots of them.
  - `exposition`, `families`, `labels`: the text format, the metrics, and their labels.
  - `runtime_report`, `ops`: what is exposed of the rows, of the checkpoints and of the tables.
  - `request_laws`: that requests may be recorded in any order.
  - `report_laws`, `series_laws`: what holds of everything that is exposed.
- `tests/` runs the library on concrete values.
- `app/` holds the shared state of the process, the clock, and the database queries.

Times and durations are of a type that the user of the library chooses; `app/` uses seconds as
`f64`.
