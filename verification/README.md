# proxmox_backup

Parts of a backup server, its client and its tools, with contracts that Verus proves.

- `src/` holds the library: every decision of syncing, of snapshots and groups in a
  datastore, of its locks and its configuration, of requests and of commands. Work
  that involves files, the network or other tasks is split into steps: a function
  takes the state and what came of the last action, and gives the next state and
  the next action.
- `app/` carries the actions out and reports what came of them.
- `tests/` runs the library on concrete values.

Laws that span several functions are public proof functions in the module they are
about. What is believed of `openssl`, `hex`, `serde_json` and `std` without proof
stands on the wrapper or the specification of each call, with a comment that says
what is claimed.
