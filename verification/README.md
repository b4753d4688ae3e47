# homework_core

Collects homework and exam deadlines from Chaoxing, Ketangpai and Yuketang
and shows what is still due.

- `src/` is the verified library (Verus): the item model and urgency rules,
  the pending list and its counts, the reminder and status texts, the
  configuration and cache file formats, where the configuration file is
  searched, the log capture, a JSON value model, and each platform's decisions on
  what its API responses and pages hold. Calls into `chrono`, `regex`, `url`,
  `scraper`, `qrcode` and `image` go through trusted wrappers whose contracts
  name or state their results.
- `app/` is the program around it: HTTP and WebSocket exchanges, files,
  environment, the serde copies of the configuration and cache types, the
  command-line reminder (default) and the Qt window shell (`--window`).
- `tests/` exercises the library on concrete values.
