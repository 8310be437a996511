# Codex Switcher

A verified library for switching between Codex accounts, and the program around
it.

- `src/` is the library. It holds the rules: how quotas are read and shown, which
  account a session goes to, how a web login becomes an account, what is asked of
  the server and of relays, and what their answers mean. Every function states
  what it does in a contract that Verus proves. The few calls into other crates
  (`serde_json`, `chrono`, `base64`, `url`, `uuid`, `reqwest`'s headers and
  status codes) stand behind functions whose contracts are believed; their doc
  comments say what is.
- `tests/` runs the library on given values.
- `app/` is the program: files, the network, the tray, and numbers with
  fractions, which the library passes on as texts.

Numbers with fractions do not occur in the library. Where a rule depends on such
a number, the program hands over a table of what the texts of numbers read as
(`figures::Readings`).
