# tauri_webview

The decisions behind a web view, verified with Verus.

- Requests of the web view are answered from the bundled assets, or passed on
  to a development server when there are none. `src/protocol.rs` says what is
  fetched and what the response is; `src/protocol_laws.rs` says what holds of
  the protocol as a whole.
- A window whose title bar the page draws itself answers the messages of the
  window system. `src/window_procs.rs`, `src/hover.rs`, `src/search.rs` and
  `src/frame.rs` are step machines: each step names something for the window
  system to do, and its reply leads to the next step.

`app/` runs the steps: it talks to the network, to the application and to the
window system. `tests/` runs the library on given values.

What is believed of the `http`, `mime` and `percent-encoding` crates is stated
in `src/fields.rs`, `src/uri.rs`, `src/percent.rs` and above `text_plain` in
`src/protocol.rs`. The room that a header map has for names is that of the
version of `http` in `Cargo.toml`.
