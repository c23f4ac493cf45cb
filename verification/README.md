# omarchy-batch-monitor

A terminal monitor for the jobs of a batch API: it lists all batches (page by
page), sorts them by creation time or by status, counts them by status,
refreshes on a countdown, shows the details of the selected batch, and asks
the API to cancel a running batch after a confirmation.

- `src/` is the library, with the proofs of its contracts: the batch records (`batch`), the
  byte-wise string order and text builders (`text`), the stable sort of the
  list (`sort`), the monitor's state and its reaction to keys, ticks and
  replies (`app`), the settings' precedence (`config`), request paths,
  pagination and error text (`api`), what the screen shows (`screen`), and the
  clocks it reads (`clock`).
- `app/` is the program around it: command line, terminal, HTTP client,
  JSON and TOML reading, and drawing with ratatui.
- `tests/` runs the library on concrete values.
