# pnos runtime

The control logic of the pnos runtime, written in Verus: a registry of components, the life cycle
of agents, the installation and upgrade of applications, the store, metrics, overload protection,
event subscriptions and the forwarding of requests.

- `src/` is the verified library. It decides; it does no input or output. Where work outside is
  needed (a process, a download, a pause), a function hands out what is to be done and another
  takes in what came of it. Points in time are passed in as numbers.
- `src/outside.rs` holds the calls into other crates, with what is taken to be true of them.
- `src/stop.rs`, `src/tick.rs`, `src/fetch.rs`, `src/deploy.rs` and `src/app_manager.rs` hold the
  courses of work that go step by step.
- `tests/` runs the library on concrete values.
- `app/` is the server around the library: HTTP, WebSocket, processes, files, the clock.

| Variable | Default | Meaning |
|----------|---------|---------|
| `PNOS_PORT` | 80 | port |
| `PNOS_DATA_DIR` | /data | data directory |
| `PNOS_MEDIA_DIR` | /media | media directory |
| `PNOS_LOG_LEVEL` | info | log level |
| `PNOS_DOWNLOAD_MIRROR` | https://ghfast.top/ | prefix for downloads from GitHub, empty for none |
| `PNOS_RATE_LIMIT_RATE`, `PNOS_RATE_LIMIT_BURST` | 20000 | requests per second, and at once |
| `PNOS_CONCURRENCY_LIMIT` | 1024 | requests under way at the same time |
| `PNOS_MONITOR_INTERVAL_SECS` | 2 | seconds between two samples of the machine |
