# tule_desktop

The verified core of the TULE desktop host, written in Verus.

- `src/` is the library. Every function in it is verified; the few calls into
  outside crates (`serde_json`, `base64`, `getrandom`, `url`, `zeroize`, `oauth2`) and
  into parts of std without a Verus specification sit behind small trusted
  wrappers whose doc comments say what is assumed of them.
  - `provider`, `credentials`, `preferences`, `settings_window`, `agents`,
    `harness`, `operation_broker`, `projects`, `turn_rows`: the IPC-facing
    vocabulary, the credential store contract with its in-memory fake, and
    the small decisions of the command surface.
  - `openai_chatgpt`: the OAuth loopback callback, URL coding, token
    endpoint requests and responses, the credential lifecycle (persist,
    rotate, remove, status) and the server-sent event framing of responses.
  - `source_draft`: the scope-bound Source draft store, the link policy and
    the decisions of a link fetch (which redirect to follow, when a body is
    too large).
  - `agents::send_step`, `harness::harness_step` and
    `operation_broker::replace_step`: the decisions of a send, of a Harness
    bootstrap or execution and of a brokered replacement, as state machines
    whose actions the host performs.
  - `run_detail`: the detail view of a reconstructed Harness run and the
    resume revalidation.
  - `json`, `text`: the JSON model and the text helpers the parsers share.
- `tests/` exercises the library through its public API.
- `app/` is the host glue that cannot be verified: sockets, HTTP, the native
  credential manager, host resolution and the serialisable wire copies of the
  library's types.

## What is not here

- The SQLite layer (migrations, the stored plans, effects, grants and
  profiles): the credential lifecycle reaches the provider profile through
  the `ProfileStore` trait instead, with an in-memory implementation.
- The Tauri command handlers and the window builder, which only route IPC
  calls to the functions above.
- The folder and link capture flows and the project handlers, the event-kind
  codec and the lifecycle, graph, checkpoint and validation parts of a run's
  detail view: they are built on the shared core crate of the workspace,
  which this crate does not depend on.
