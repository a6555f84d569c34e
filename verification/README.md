# grouped_alt_tab

A window switcher for Windows that groups open windows by application. This
crate is its verified core; `app/` is the Tauri application around it.

`src/` (verified with Verus):

- `grouping` — from the probed top-level windows to the groups shown: which
  windows are admitted (not the switcher's own process, not an excluded
  process, optionally only the current virtual desktop), their ranks, the
  grouping by executable path (ASCII case folded), and the order of windows
  and groups; proves that every listed window lies in exactly one group.
- `window_manager` — which windows are offered, what is recorded of each,
  titles, display names, window activation.
- `path_name` — the file name of a Windows executable path, prefixes
  (drive, UNC, device, verbatim) included.
- `handle` — window handles as decimal text, read back exactly.
- `settings` — defaults, loading, the start-with-Windows registry value and
  what reading it back gives.
- `hotkey`, `session` — replacing the global shortcuts, the fallback
  shortcut, and the state machine of one switching session (repetition and
  its timing, Alt release, cancel).
- `update` — applying new settings with roll-back of a refused shortcut.
- `cache` — thumbnails kept while a window keeps its size and title, and
  icons kept per executable.
- `placement`, `thumbnail`, `tray` — window bounds, PNG data URLs of
  thumbnails and icons, the tray menu.
- `text` — character-level string operations the rest is built on.

`app/` does the Win32, COM, registry, file and Tauri work: it reads the
windows, extracts executable icons, captures thumbnails, asks the
virtual desktop manager, and hands what it read to the library. It builds only
for Windows.
