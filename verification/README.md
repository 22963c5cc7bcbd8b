# AutoCopy

Versioned folder backups for Windows: each run copies a source folder into
`backup_YYYY-MM-DD_HH-MM-SS` inside a destination folder, keeps only the newest
versions, and can be run daily by the Windows Task Scheduler
(`autocopy --backup`) or from a small egui window.

## Layout

- `src/` — the library, verified with Verus. The backup itself is a state
  machine (`job.rs`): it decides every step and what is reported, and a driver
  performs the file-system work each step asks for. Beside it: folder names and
  version lists (`copy.rs`), clock stamps (`clock.rs`), the schedule and the
  Task Scheduler's commands and answers (`schedule.rs`), the version list of the
  window (`version_manager.rs`), progress (`progress.rs`), sizes (`format.rs`),
  settings (`config.rs`) and the window's decisions (`window.rs`).
- `app/` — the program: the file-system driver, configuration file, logging,
  `schtasks` calls, the background runner and the egui window.
- `tests/` — tests of the library on concrete values.
