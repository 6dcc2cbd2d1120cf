# egui_backend_selector

Selects, at runtime, an egui backend that works on the running system
(eframe, or a CPU software renderer) and runs the application with it.

- `src/` is the verified library: the selection state machine
  (`selection.rs`), the checks made before a launch (`launch.rs`), the
  per-platform backend decision (`platform.rs`), the key/value store that
  persists application state (`storage.rs`), and the properties that tie them
  together (`laws.rs`).
- `app/` keeps the process-wide selection in an atomic cell, reads `DISPLAY`,
  answers the Windows probes, and runs eframe or the software backend.
- `tests/` exercises the library on concrete values.
