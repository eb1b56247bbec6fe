//! Secret values live only in the platform credential store (Keychain on macOS,
//! Credential Manager on Windows, Secret Service behind the kernel keyring on
//! Linux), reached through
//! the `keyring` crate. Each secret is
//! filed under the service name of the application and a per-variable entry key.
use vstd::prelude::*;

verus! {

/// `keyring::Entry`, a handle on one credential of the platform store.
#[verifier::external_type_specification]
#[verifier::external_body]
pub struct ExKeyringEntry(keyring::Entry);

/// `keyring::Error`, the failure reported by the platform store.
#[verifier::external_type_specification]
#[verifier::external_body]
pub struct ExKeyringError(keyring::Error);

/// Service name under which every secret of the application is filed; it matches
/// the application identifier.
pub const SERVICE: &'static str = "com.fluxenv.desktop";

/// Calls `keyring::Entry::new(service, user)`, which builds a handle on the
/// credential for `service` and `user` with the default credential builder.
/// Nothing is stated of the outcome: whether it succeeds is up to the platform
/// store. (The crate panics only if its internal builder lock is poisoned.)
#[verifier::external_body]
fn open_entry(service: &str, user: &str) -> (r: Result<keyring::Entry, keyring::Error>) {
    keyring::Entry::new(service, user)
}

/// Calls `keyring::Entry::set_password`, which saves `password` as the credential
/// of the entry. Nothing is stated of the outcome, which is up to the platform store.
#[verifier::external_body]
fn store_password(entry: &keyring::Entry, password: &str) -> (r: Result<(), keyring::Error>) {
    entry.set_password(password)
}

/// Calls `keyring::Entry::get_password`, which reads the credential of the entry.
/// Nothing is stated of the outcome: it is whatever the platform store holds.
#[verifier::external_body]
fn read_password(entry: &keyring::Entry) -> (r: Result<String, keyring::Error>) {
    entry.get_password()
}

/// Calls `keyring::Entry::delete_credential`, which removes the credential of the
/// entry. Nothing is stated of the outcome, which is up to the platform store.
#[verifier::external_body]
fn delete_credential(entry: &keyring::Entry) -> (r: Result<(), keyring::Error>) {
    entry.delete_credential()
}

/// Calls `to_string` on a `keyring::Error`, i.e. its `Display` text. Nothing is
/// stated of the text: for platform failures it embeds the platform's own message,
/// which may depend on the machine (on macOS it is localized).
#[verifier::external_body]
fn keyring_error_text(e: &keyring::Error) -> (r: String) {
    e.to_string()
}

/// The entry key of a provider's variable: `v1|<provider>|<variable>`.
pub open spec fn entry_key_text(provider_name: Seq<char>, env_key: Seq<char>) -> Seq<char> {
    "v1|"@ + provider_name + "|"@ + env_key
}

/// Builds the entry key under which the secret of `env_key` of `provider_name` is filed.
pub fn entry_key(provider_name: &str, env_key: &str) -> (r: String)
    ensures
        r@ == entry_key_text(provider_name@, env_key@),
{
    let mut r = String::from_str("v1|");
    r.append(provider_name);
    r.append("|");
    r.append(env_key);
    r
}

/// Error text for a failed write to the store.
pub open spec fn set_failure_text(detail: Seq<char>) -> Seq<char> {
    "keyring set failed: "@ + detail
}

/// Builds the error text reported when the store refuses to save a secret.
pub fn set_failure_message(detail: &str) -> (r: String)
    ensures
        r@ == set_failure_text(detail@),
{
    let mut r = String::from_str("keyring set failed: ");
    r.append(detail);
    r
}

/// The result of saving a secret, from what the store answered: the text of a
/// failure to open the entry is returned as it is; the text of a refused write is
/// reported as `keyring set failed: <text>`; with neither, the save succeeded.
pub open spec fn write_result(open_failure: Option<Seq<char>>, write_failure: Option<Seq<char>>) -> Result<Seq<char>, Seq<char>> {
    match open_failure {
        Some(t) => Err(t),
        None => match write_failure {
            Some(t) => Err(set_failure_text(t)),
            None => Ok(Seq::empty()),
        },
    }
}

/// Builds the result of saving a secret from the store's two answers (see [`write_result`]).
pub fn secret_write_result(open_failure: Option<String>, write_failure: Option<String>) -> (r: Result<(), String>)
    ensures
        match write_result(
            match open_failure {
                Some(t) => Some(t@),
                None => None,
            },
            match write_failure {
                Some(t) => Some(t@),
                None => None,
            },
        ) {
            Ok(_) => r is Ok,
            Err(m) => r matches Err(e) && e@ == m,
        },
{
    match open_failure {
        Some(t) => Err(t),
        None => match write_failure {
            Some(t) => Err(set_failure_message(t.as_str())),
            None => Ok(()),
        },
    }
}

/// Saves `value` as the secret of `env_key` of `provider_name`, under the entry key
/// [`entry_key`] of the application's [`SERVICE`]. The result is
/// [`secret_write_result`] of the store's answers to opening the entry and to the
/// write; what the store answers is not stated.
pub fn set_secret(provider_name: &str, env_key: &str, value: &str) -> (r: Result<(), String>) {
    let user = entry_key(provider_name, env_key);
    match open_entry(SERVICE, user.as_str()) {
        Err(e) => {
            let text = keyring_error_text(&e);
            secret_write_result(Some(text), None)
        },
        Ok(entry) => match store_password(&entry, value) {
            Ok(()) => secret_write_result(None, None),
            Err(e) => {
                let text = keyring_error_text(&e);
                secret_write_result(None, Some(text))
            },
        },
    }
}

/// Reads the secret of `env_key` of `provider_name`; `None` when the store has none
/// or cannot be reached.
pub fn get_secret(provider_name: &str, env_key: &str) -> (r: Option<String>) {
    let user = entry_key(provider_name, env_key);
    match open_entry(SERVICE, user.as_str()) {
        Ok(entry) => match read_password(&entry) {
            Ok(s) => Some(s),
            Err(_) => None,
        },
        Err(_) => None,
    }
}

/// Removes the secret of `env_key` of `provider_name`, ignoring any failure.
pub fn delete_secret(provider_name: &str, env_key: &str) {
    let user = entry_key(provider_name, env_key);
    match open_entry(SERVICE, user.as_str()) {
        Ok(entry) => {
            let _ = delete_credential(&entry);
        },
        Err(_) => {},
    }
}

/// A read from the store counts as a stored secret when it gave a non-empty value.
pub fn stored_secret_present(stored: &Option<String>) -> (r: bool)
    ensures
        r == (stored is Some && stored->0@.len() > 0),
{
    match stored {
        Some(s) => !s.as_str().is_empty(),
        None => false,
    }
}

/// Whether a non-empty secret is stored for `env_key` of `provider_name`.
pub fn has_secret(provider_name: &str, env_key: &str) -> (r: bool) {
    let stored = get_secret(provider_name, env_key);
    stored_secret_present(&stored)
}

} // verus!
