# nh

The logic of `nh`, a helper for NixOS, as a Verus library: which branches a
nixpkgs change still has to reach, how the searches for packages, options,
issues and pull requests are put together and shown, how store paths are copied
between machines, and how the configuration and the GitHub token are found and
kept.

- `src/` is the library. Every function states in its contract what it returns,
  and the laws that hold across functions stand beside them as public proof
  functions.
- `app/` is the ordinary Rust around it: files, terminals, other programs and
  the network. It performs what the library decides and hands back what came of
  it.
- `tests/` runs the library, with the outside crates that it calls: `chrono`,
  `serde_json`, `textwrap` and `toml_edit`.

What is not proved is what those four crates do, and two functions of `std`.
Each call stands behind an item of its own, whose comment says what is taken
for granted.
