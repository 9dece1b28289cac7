# pace_core

The domain core of `pace`, a time tracker for the command line, written in Verus:
activities and their lifecycle (begin, end, hold, resume, adjust), the activity log
kept in memory, time ranges and time frames for reviews and reflections, durations,
categories and tags, and the summaries that reviews and reflections are made of.
Verus proves the contracts of the library's functions. The calls into `chrono`,
`ulid`, `humantime`, `tabled` and `std`'s `Duration` stand in a few small wrapper
functions whose contracts are believed, not proved. Fresh identifiers come with no
contract on their values; of the current time only its range is stated: a date of
`chrono`'s calendar no earlier than December 31st, 1969.

Layout:

- `src/` — the verified library. `storage.rs` holds the storage traits and the
  in-memory storage with its rules, `activity_log.rs` the log, a `BTreeMap` from identifier to activity, `time.rs` and `clock.rs`
  dates, times and time ranges (the calendar comes from `chrono`), `summary.rs`,
  `review.rs` and `store.rs` the summaries and how they read as text and tables, `commands.rs` what the commands decide,
  `task.rs`, `project.rs` and `setup.rs` the tasks, projects and setup paths, and
  `laws.rs` properties that span several operations.
- `tests/` — tests of the library on concrete values.
- `app/` — ordinary Rust around the library: the TOML activity log and configuration
  files, their paths, the setup assistant, and how results are shown.
