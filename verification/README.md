# rust-autossh

Supervises OpenSSH port-forwarding tunnels: it starts the system `ssh`,
watches it, restarts it with bounded exponential back-off, and reloads its
TOML configuration when the file changes.

## Layout

- `src/` — the verified library (Verus). Its functions carry contracts over
  mathematical models (`Seq`, `Map`, `nat`) of their inputs and results; the
  few whose result depends on the machine or on other threads (the local time
  zone, the tray's command channel) state what holds of every outcome. The
  laws of the system are stated and proved as proof functions.
  - `config` — the configuration, its defaults and validation rules.
  - `ssh` — the ssh and `sshpass` command lines, and probe reports.
  - `ssh_log` — annotation of ssh's stderr with the forward a failure concerns.
  - `supervisor` — retry back-off, reconfiguration plans, reload reporting,
    stderr decoding.
  - `logger` — log line format and file-rotation decisions.
  - `log` — parsing supervisor lines for the log panel.
  - `local_clock` — the log panel's clock face in the local time zone.
  - `ssh_config` — importing hosts from an OpenSSH client configuration.
  - `modal`, `commit`, `dashboard`, `tray`, `cli` — the state and decisions of
    the graphical front end's dialogs, lists and status bar.
  - `friday` — the local voice receiver's state machine and request rules.
  - `windows` — service control replies and `sc.exe` command lines.
  - `text` — character-level helpers with their meaning.
- `app/` — the command-line program: argument parsing, files, processes,
  threads and the HTTP listener, calling the library for every decision.
- `tests/` — tests of the library on concrete values.
