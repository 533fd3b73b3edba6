# mewchain

The core of the MewChain wallet service, verified with Verus.

- `src/` is the library: wallets derived from Ed25519 secret keys
  (`wallet`, with `hex_codec` and `keys` around the `hex` and
  `ed25519-dalek` crates), the task-claim cooldown and interest window
  (`rewards`), node-group membership and pings (`groups`), and the texts the
  service sends (`messages`, `text`).
- `app/` is the HTTP service around it: axum routes, Firestore storage,
  Telegram notices, and the floating-point amounts (balances, fees,
  interest, loyalty bonus).
- `tests/` runs the library on concrete values, among them the key pairs of
  RFC 8032.

`Cargo.toml` pins `takecell` to 0.1.1. The library does not use it; it is a
dependency of `teloxide-core`, whose newest release (0.1.2) needs a newer
rustc than the one this project builds with.
