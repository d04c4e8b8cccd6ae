# zenopanel

The decisions behind ZenoPanel's script slots, written in Verus and proved
against their contracts: how a container's bundle, network, ports and life
cycle are laid out, how compose files are read and their services ordered,
how registry logins, Git settings and panel settings are stored and read back,
which firewall rules and service files the panel writes, and how script
conditions and `${...}` placeholders are read.

Layout:

- `src/` — the verified library, one module per subject (`text` and `num`
  hold the string and number specifications the others build on).
  Calls into outside crates (base64, serde_json, multer, chrono and a few std
  functions) stand behind small trusted wrappers whose contracts say what the
  library relies on.
- `tests/` — tests of the library on concrete values.
- `app/` — the slots themselves: they read a script node's arguments, do the
  file, process, network and HTTP work, and hand plain values to the library.

Verify with `verus` on `src/lib.rs`; the laws the library promises are the
public `law_*` proof functions and the `ensures` of the functions they speak
of.
