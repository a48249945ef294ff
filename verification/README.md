# tikclip

The logic of TikClip, a desktop tool that watches TikTok Live accounts,
records their streams and files clips, written in Verus with its behaviour
stated as contracts and proved.

- `src/` is the verified library: username rules, the live runtime's session
  registry and its state transitions, the order of live checks and the reading
  of every TikTok response, product page parsing, recording commands and row
  statuses, storage accounting and cleanup rules, runtime logs with redaction,
  and the sidecar environment. Calls into `serde_json`, `reqwest`, `chrono`
  and `std` that the logic needs go through a few trusted wrappers whose
  contracts name what those calls return.
- `tests/` runs the library on concrete inputs.
- `app/` is the shell around it: SQLite, HTTP, files, the ffmpeg and sidecar
  processes, and the serializable shapes the user interface receives.
