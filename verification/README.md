# openfang_core

The decision logic of three parts of an agent platform, verified with Verus:

- `session_auth`: signed session and download tokens, the session cookie, and
  password hashes. What holds between issuing and verifying stands in
  `session_laws`.
- `workspace`: which files of an agent workspace are listed and handed out. The
  file system's answers are arguments; `workspace_laws` states what holds of
  listings and downloads together.
- `codex_app_server`: a driver for `codex app-server`, as a state machine from
  what just happened to what to do next (`turn`), with the prompt (`prompt`), the
  frames of the protocol (`protocol`), the environment of the process
  (`environment`) and what is remembered between turns (`threads`). `laws` states
  what holds across steps.

`text`, `decimal`, `order`, `path`, `json`, `json_text` and `llm` hold what these share.
Calls into other crates, and into the parts of `std` without a specification,
stand in `trusted`, each with the contract that is believed of it.

`app/` is ordinary Rust around the library, for Unix: it walks directories, runs
the process, and reads and writes its lines.
