# status-core-agent

A system monitoring agent: it samples CPU, memory, swap, disk, temperature,
battery and PM2 processes, keeps a history in SQLite and serves it over HTTP.

- `src/` is the verified library (Verus): reading the kernel's sysfs files
  (`sysfs`, on top of `text`), picking the disk to report (`disks`), reading
  the output of `pm2 jlist` (`json`, `pm2`; the JSON parse itself is
  serde_json's, behind a trusted wrapper whose result is only named), the history windows
  (`retention`), the history query (`api`) and the start-up decisions
  (`startup`).
- `app/` is the program around it: sysinfo sampling, file and process I/O,
  SQLite, the axum server, and the health score, which is computed on
  floating-point readings.
- `tests/` exercises the library.
