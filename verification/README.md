# fluxenv

Environment management for the FluxEnv desktop tool, written in Verus.

- `src/models.rs` — variables, profiles, providers and their mathematical views.
- `src/env_merge.rs` — layering of a profile and of enabled providers over the
  base environment, provider toggling, and the laws of precedence.
- `src/state_store.rs` — built-in providers, stripping secret values from loaded
  state and from state about to be written, and the choice made for each outcome
  of reading the state file.
- `src/secret_store.rs` — secrets in the platform credential store through
  `keyring` (Keychain, Credential Manager, Secret Service with the Linux kernel
  keyring in front of it).
- `src/providers.rs` — adding, renaming, toggling and removing providers, with
  the matching changes in the credential store; invariants of the provider list.
- `src/preview.rs` — the session preview with masked secret values.
- `src/text.rs` — character-level helpers: search, ASCII upper-casing, masking.
- `app/` — the Tauri program: commands, process environment, state file I/O and
  serde copies of the model types.
