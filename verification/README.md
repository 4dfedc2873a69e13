# http-switchboard

Accepts a message in one shape and delivers it in another, to a destination
the configuration chooses: webhooks arriving over HTTP or messages long-polled
from a kyu topic are rendered through a per-profile template and delivered to a
URL or published onto a topic — acknowledged on the hub only after the
destination accepted them.

## Layout

- `src/` — the library, verified with Verus:
  - `config`, `config_raw`, `config_error`, `toml_doc` — loading a TOML
    configuration and every rule it must keep; each refusal names the file and
    says what to do.
  - `translate` — one message into one delivery: the body rendered by
    minijinja (values escaped for JSON), the destination copied from the
    profile with only path segments templated and percent-encoded.
  - `adapters` — delivery errors, what a receiver's status means, the retry
    pauses, where a delivery is sent.
  - `pump` — a turn of a kyu pump as a state machine: poll, translate,
    deliver, and only then acknowledge.
  - `inbound` — the door of an inbound path, its routes and the answer a
    sender gets.
  - `obs` — the registry behind `/healthz` and `/metrics`, the JSON log lines
    and the self-report events.
  - `dashboard`, `cli`, `secret`, `text` — the status page's Profiles section,
    the command line's own logic, secrets that never print, text helpers.
- `tests/` — tests of the library.
- `app/` — the binary: command line, files, the HTTP server, the kyu client and
  the loops that perform what the library decides.
