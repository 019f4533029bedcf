# invoice_rust

Verified decision logic of a desktop tool that extracts invoice data from
PDF files and writes a spreadsheet.

- `src/config.rs`: the settings (worker-thread count, limited to 1..=128),
  what loading settles on, and the messages of a failed save.
- `src/stats.rs`: the counts over a finished run and the two shares shown
  to the user, as numerator and denominator.
- `src/progress.rs`: progress of a run and the worker's reports.
- `src/session.rs`: the window state and its decisions: the bounded
  activity log, starting a run, taking in reports, closing a run, the
  display form of paths and the tone of log lines.
- `src/text.rs`: decimal rendering and the UTF-8 byte model of path
  shortening.
- `app/`: the window itself (egui), file dialogs, the worker thread and
  its channels, and `config.toml` through serde and toml.
