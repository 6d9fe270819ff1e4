# vandelay

Protocol logic for moving mail, calendars, contacts and files between
servers (JMAP, CalDAV/CardDAV, Exchange Web Services, Microsoft Graph, IMAP,
ManageSieve), written in Verus: the functions in `src/` are verified against
their contracts. The one exception in kind is the IMAP back-off state, whose
counters are atomics shared between threads: nothing is stated of the values
its reads return.

## Layout

- `src/` — the verified library.
  - `dav/` — WebDAV hrefs, multistatus parsing, PROPFIND bodies, retry rules.
  - `exchange_ews/` — SOAP envelopes, response parsing, item and folder
    models, recurrence, the mapping of calendar items and contacts to
    JSCalendar and JSContact, retry and request decisions.
  - `exchange_graph/`, `exchange/` — Graph error handling and Windows time
    zone names.
  - `imap/` — error classification, back-off, special-use folder roles.
  - `jmap/` — session resource, wire objects, blob-reference rewriting,
    in-flight request permits.
  - `managesieve/` — argument encoding, response reading, error rules.
  - `json.rs`, `xml_stream.rs`, `text.rs` — the JSON model, XML event steps
    and text helpers the rest builds on.
  - Laws that relate several functions stand as public proof functions
    named `law_*`.
- `tests/` — tests of the library on concrete values.
- `app/` — the unverified parts: conversions to and from `serde_json`,
  session documents, byte streams, blocking permits, terminal and environment
  input, log output.

## Checking

The library verifies with Verus; the outside crates it calls (quick-xml,
url, chrono, chrono-tz, time, blake3) stand behind small trusted functions
whose contracts say what their documentation promises.
