# btpis

A command-line client for SAP BTP Integration Suite: OAuth profiles, listings
of packages, integration flows, service endpoints and configuration
parameters, flow details, message processing logs (with `-f` to follow them),
and undeploying flows one by one or from a CSV file.

## Layout

- `src/` is the library, verified with Verus. The request addresses, the
  table rows, the lines and messages that carry data, what is done with each
  answer's status, the reading of the service's XML and of CSV files, the
  profile store, durations and timestamps, the steps of a bulk undeploy and
  the bookkeeping of `logs -f` are computed there and proved against their
  contracts.
  - `text` — string helpers (trimming, padding, decimal numerals, joining).
  - `xml` — a parsed document as its nodes in document order, and the queries
    on it (`roxmltree` parses).
  - `dates` — timestamps and durations (`chrono` does the calendar).
  - `style` — ANSI colours (`owo-colors`).
  - `config`, `auth` — profiles, tokens and their cache, CSRF tokens.
  - `listing`, `iflow`, `logs`, `undeploy`, `adapters`, `utils` — the commands.
- `app/` is the program around it: argument parsing, HTTP, files, the
  spinner, the tables and a few fixed notices such as `No logs found.`
- `tests/` runs the library on concrete values.
