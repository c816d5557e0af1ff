# caffeine

Keeps a Mac awake from the menu bar. This crate is the verified core of the
tool; `app/` holds the executable around it (command line, tray menu, IOKit,
CoreGraphics and CoreFoundation calls, files, launchd, the network).

Library modules (`src/`), each with its contracts checked by Verus:

- `duration` — reading `30`, `2h`, `1h30m`, `90s`, `inf`, ... and writing
  compact durations; laws: a bare number means minutes, what `fmt` writes
  reads back.
- `application::service` — the session as a state machine: activation,
  expiry, jiggle timing, battery guard and the status-file record; laws on
  expiry, jiggle spacing and the status record.
- `infrastructure::ipc`, `ipc` — the status file's text; laws: what is
  written reads back.
- `infrastructure::update_checker` — release tags and version order.
- `infrastructure::login_item` — the launchd plist.
- `commands` — what `caffeine status` and `caffeine stop` print and do.
- `menu` — the tray menu's presets and order.
- `power` — messages for refused power assertions.
- `domain` — the shared data and the ports that `app/` implements.
- `text` — numerals, Rust's integer and `bool` syntax, lines, fields, trimming.
