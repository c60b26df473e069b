# uppe

The core of the Uppe. monitoring service as a verified library, with the service program
around it.

- `src/` is the library, verified with Verus: monitor validation and check planning,
  result signing and verification, canonical JSON, signed audit events and receipts,
  peer-result storage decisions, public-monitor admission and groups, private-monitor
  helper orchestration, rate limits, retention, topics, identities, the admin trust chain,
  configuration and location. Every public function states its result in its contract,
  except those that read the clock, whose result is the time; laws that relate several
  functions are proof functions next to them.
- `app/` is the service program: command line, configuration file, key file, the SQLite
  database, network checks and the service loop. It does what the library decides.
- `tests/` runs the library on concrete values.

Times are whole seconds since the Unix epoch and identifiers are 128-bit UUID values
throughout the library.
