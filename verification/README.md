# agent_computer

Desktop automation for macOS, split in two:

- `src/` — the verified library. Everything that decides or computes is
  here with a contract checked by Verus: the element reference map and how
  a reference is routed to an engine, app detection, the snapshot text and
  its reference numbering, the daemon's answers to each request, the
  browser-bridge command lines, answers and sessions, input plans (clicks,
  typing, scrolling, modifiers), command-line checks, the client's output
  lines, and the parsing of what `osascript`, `pgrep`, `ps` and
  `lsappinfo` print.
- `app/` — the program around it: the command-line client, the daemon's
  socket server, subprocesses, HTTP probes, and the macOS frameworks
  (Accessibility, CoreGraphics, AppKit). It hands the library plain values
  and acts on what comes back.

`tests/` runs the library on concrete values.
