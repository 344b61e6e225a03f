# sticky_note

A desktop sticky-note and alarm-clock application, built as a verified
library plus a thin desktop shell.

- `src/` is the library, verified with Verus:
  - `storage` — notes, alarms and the saved window state, with the edits on
    them (add, update, delete, look up, toggle) and the choice of the data
    directory;
  - `handlers` — what the note and alarm editor forms do with their input,
    including parsing the alarm time;
  - `timers` — which alarms ring in a given minute, at most once a minute;
  - `alarm_alert` — bookkeeping of the open alert popups, the modal owner and
    the placement of a popup;
  - `window` — window size limits, saving and restoring the window, the
    extended-style bits for click-through and tray-only mode;
  - `tray` — the meaning of tray icon clicks, menu commands and hot keys;
  - `ui_sync` — the rows that the list views show;
  - `text` — whitespace trimming, decimal parsing and the `HH:MM` text;
  - `clock`, `ids` — the local clock (through `chrono`) and fresh ids
    (through `uuid`).
- `app/` is the shell: the Slint UI, the JSON file on disk (`serde_json`),
  the alarm sound, the Windows tray and window calls, and the timers.
- `tests/` exercises the library at run time.
