# bddkit_browser

A `bddkit` plugin that drives a browser over WebDriver (resource group
`browser`), written in Verus.

- `src/` is the verified library: the instance configuration and its
  checks, element lookups as XPath, the step table and a state machine per
  step dispatch (what to send, how to read each reply, what a failure
  reports), the WebDriver commands and reply decoding, the BiDi event
  buffers, the opening and per-scenario reset of a session, Selenium
  Manager's command line and output, the reply envelopes, a JSON value
  (read and written through serde_json), and the table of live instance
  handles. Each public function
  carries a contract; the `law_*` proof functions state properties that span
  several calls.
- `app/` is the unverified shell: the C ABI exports, HTTP and WebSocket
  transport, processes, files and clocks. It performs the actions the
  library's state machines ask for and hands their answers back.
- `tests/` runs the library on concrete values.
