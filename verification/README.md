# mm_ui

The decisions behind the Music Magic terminal interface, written in Verus. What a
screen holds, how it answers a key, which changes it asks for and what it shows
are functions of plain values, and each has a contract that Verus proves.

- `src/` is the library. Every state has a model (its `view` or `deep_view`), the
  behaviour is a spec function on that model, and the executable code is proved
  to follow it. Functions named `law_...` state what holds across calls.
- `tests/` runs the library on given values.
- `app/` draws with ratatui, reads keys with crossterm and walks the disk.

The few calls into `std` and `serde_json` that are taken on trust stand in
`src/text.rs` and `src/json.rs`, each with what is claimed of it.
