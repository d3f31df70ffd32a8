# rustsync

The core of a file synchronisation server: jobs that copy or move files
from source directories to one or more target directories, on an interval
or a cron schedule, with live or snapshot based comparison, exclusion
rules, notifications and a small file manager.

The library in `src/` holds the logic, written in Verus and proved against
its contracts:

- `sync`, `runner`: the comparison of source and target listings and the
  state machine of one synchronisation run (copy, delete, move, abort);
- `job`, `scheduler`: validation of job settings, the decisions of the job
  endpoints, delay computation and the scheduling loop's steps;
- `paths`, `exclude`, `files`, `system`: path normalisation and
  containment, exclusion patterns, file-manager rules, log tailing and
  static-file paths;
- `auth`, `config`, `db`, `notify`, `engine`, `driver`, `i18n`: session
  tokens, cookies and passwords, settings, database initialisation and migration plans,
  notification plans, storage engines, drivers and translations;
- `order`, `text`, `json`: stable sorting, text handling and the JSON
  values the logic reads.

Calls into outside crates (MD5, random numbers, glob matching, cron
parsing, the clock, e-mail address parsing, signing and decoding session
tokens) stand behind small trusted wrappers whose doc comments say what
their contracts claim.

`app/` is the server around the library: HTTP routing, the database,
the file system, the scheduler's timers and the outgoing requests. It
performs the I/O and hands plain values to the library. `tests/` runs the
library on concrete values.
