# udbot

The text processing of a Telegram bot that posts Urban Dictionary
definitions, verified with Verus.

- `src/` is the verified library: lookup addresses (`helper`), answers built
  from the dictionary's JSON responses (`helper`, reading JSON through
  `serde_json` in `json`), the clean-up of definition texts (`formatter`),
  the bot's replies and notices (`bot`, `logger`), the lines written to files
  (`file_handling`), and the string operations they rest on (`text`).
- `app/` is the bot itself: Telegram dispatching with `teloxide`, HTTP
  requests with `curl`, files, the clock and the environment.
- `tests/` runs the library on concrete inputs.

`Cargo.toml` names `tokio-util` with its `codec` feature although no code
here uses it directly: `teloxide-core` 0.2.2, which `teloxide` 0.4 brings,
imports `tokio_util::codec` without asking for that feature, and does not
build without it.
