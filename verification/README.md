# ble_inspect

A tool that watches Bluetooth Low Energy advertisements. It captures the events of
configured peripherals into a database, or reports on all peripherals in reach.

- `src/` holds the decisions, verified with Verus: which configurations are valid, which
  events are captured (one of each kind per peripheral and time window), how a report
  groups events, and when a scan, a capture or a report ends. What holds of every capture
  and every report is stated in `src/laws.rs`.
- `app/` holds what touches the outside world: the adapter, the clock, the database, the
  configuration file and the command line.
- `tests/` runs the library.

A capture without configured peripherals captures nothing.
