# alavai

The logic of a lightweight Tailscale client for Linux, verified with Verus:
one-click tailnet switching from a system tray, a command line, and a window,
all talking to the local `tailscaled` over its LocalAPI socket.

- `src/` is the verified library. `http` frames LocalAPI requests and reads
  responses (status line, chunked bodies, the newline-delimited event
  stream); `json` writes the masked-prefs edits; `localapi` holds the
  daemon's data model, the request builders and the folding of IPN-bus
  notifications into a live state; `tray` and `gui` are the tray's and the
  window's state, menus and update rules; `cli` holds the argument matching
  and the report text of the command line; `autostart` and `instance` decide
  the launch-on-login entry and the single-instance lock; `text` and `order`
  are the string helpers and the stable sort they share.
- `app/` is the program around it: sockets, files, processes, D-Bus, the
  `ksni` tray, the `iced` window and the `clap` command line. It decodes the
  daemon's JSON with serde into the library's types and runs the effects the
  library asks for.
- `tests/` exercise the library from outside.
