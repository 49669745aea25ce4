# pwm — an encrypted password book, verified

`pwm` keeps passwords in one AES-256-GCM encrypted file whose key is derived
from a master password with PBKDF2-HMAC-SHA256. It has a window (iced) and a
command line; both speak the same small command language (in the window's
search bar a line starting with `<cmd>` is a command).

Layout:

- `src/` — the library, verified with Verus:
  - `text.rs` — whitespace, trimming, word splitting, decimal numbers;
  - `message.rs` — the command language and its parser;
  - `search.rs` — fzf-style fuzzy matching and ranking;
  - `entries.rs` — case-insensitive lookups, removal, display lines;
  - `password.rs` — strong random passwords, masking, input filters;
  - `history.rs` — name order and the pruning of history backups;
  - `vault.rs` — the vault file format, key derivation, the SHA-256 check
    line and recovery bundles, on bytes;
  - `model.rs`, `update.rs` — the application's state machine: each message
    changes the model and asks for effects that the caller performs;
  - `cli.rs` — the command line's decisions and outputs;
  - `laws.rs` — properties that span several functions.
- `app/` — the program: files, terminal, clipboard, session cache and the
  iced window, calling the library for every decision.
- `tests/` — tests of the library with the real cryptographic crates.
