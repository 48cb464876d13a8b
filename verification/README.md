# clippo

The core of Clippo, a keyboard-first clipboard history manager, written in Verus.
The functions under `src/` carry contracts that Verus proves, apart from a few
small trusted wrappers around std and `unicode-normalization` calls, whose
contracts are believed; `TimestampMillis::now` reads the clock and promises
nothing about the value.

- `src/` — the verified library: the clipboard history (ordering, de-duplication,
  pins, limits, capture pausing), search, selection, command routing, settings and
  their validation, onboarding, lifecycle, time formatting, the platform-facing
  logic (copy, paste, adaptive clipboard polling), the persisted document, and the
  Linux shell's decisions (session and desktop detection, tool command lines,
  portal commands, dialog commands, the history and state file formats, and the
  command-line interface, the history popup's dialog flow and the single-instance
  launch decisions).
- `tests/` — tests of the library, run against the compiled crate.
- `app/` — the Linux desktop shell: reading the environment, running tools and
  dialogs, file and D-Bus I/O, the JSON form of stored types, the single-instance
  lock, and popup placement, which works in floating point.

Outside crates: `unicode-normalization` is called from `src/search.rs` (NFKC for
search); `serde`, `serde_json` and `zbus` are used by `app/` only.
