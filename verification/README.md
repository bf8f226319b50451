# systemd_dashboard

A terminal dashboard for user systemd timers. The library in `src/` holds
the logic, verified by Verus. Its calls into `std` and `chrono` go through
a few small trusted wrappers whose contracts are stated, not proved, and
the in-memory log sink states nothing of its shared buffer's contents.

The modules:

- `text`: the character-sequence model (trimming, `lines`, splitting,
  decimal rendering, lexicographic order).
- `table`: the unit-name tables that the metadata parser fills.
- `metadata`: reading schedules and load states from `systemctl show`.
- `systemd`: timer records, time rendering, assembling the sorted timer
  list, the commands run and the handling of their output.
- `app`: the list/detail state machine.
- `input`: what each key asks for, the refresh intervals and which refresh
  is due.
- `screen`: wrapped-row counting, footer hints, labels, the status pane.
- `logging`: the log directory and an in-memory log sink.

`app/` is the program around it: the terminal, the event loop, running the
commands, JSON decoding and drawing with ratatui.
