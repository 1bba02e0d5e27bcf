# xerotop core

The decision-making part of a Wayland status bar, verified with Verus.

- `src/` — the verified library:
  - `text`: whitespace trimming, substring search, splitting, code-point
    order; the Unicode case mappings are `str::to_lowercase` /
    `str::to_uppercase`, whose results are named `lowercase` / `uppercase`.
  - `order`: stable index sort by text keys.
  - `mail`: maildir location and unread/total snapshots.
  - `weather`: wttr.in request URL, reply parsing, condition glyphs.
  - `theme_switch`: colour-scheme decisions and the light/dark theme switch.
  - `taskbar`: windows by protocol id, their events, sorted snapshots.
  - `tray`: tray items by address, their menus and icons, host events,
    snapshots ordered by address.
  - `panels`: panel kinds, clock formats, battery arrow.
- `app/` — threads, channels, Wayland, D-Bus, HTTP and GTK around the core.
- `tests/` — tests of the library on concrete values.
