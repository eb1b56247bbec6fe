//! Environment management for FluxEnv: layering of variables from the system,
//! a profile and credential providers, provider bookkeeping, and secret handling
//! that keeps plaintext out of application state.
pub mod models;
pub mod text;
pub mod env_merge;
pub mod state_store;
pub mod secret_store;
pub mod providers;
pub mod preview;

pub use models::{EnvVariable, Profile, ProviderConfig};
pub use env_merge::{build_effective_session_env, merge_profile_variables, set_provider_enabled};
pub use state_store::{default_builtin_providers, is_builtin_name, resolve_stored_state, sanitize_loaded, state_path, StoredState};
pub use secret_store::{delete_secret, entry_key, get_secret, has_secret, set_secret};
pub use text::{looks_like_secret, mask_value};
pub use providers::{clear_provider_secret, remove_provider, toggle_provider, upsert_provider};
pub use preview::{providers_with_resolved_secrets, render_preview, run_with_selected_profile, system_env_from_vars};
