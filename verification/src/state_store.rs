//! Provider metadata kept across restarts: the built-in provider list, the rule
//! that strips secret values from whatever was loaded, and the choice made for
//! each outcome of reading the state file.
use vstd::prelude::*;
use crate::models::{providers_view, vars_view, EnvVarView, EnvVariable, ProviderConfig, ProviderView};
use crate::text::text_eq;

verus! {

/// Name of the state file inside the application data directory.
pub const STATE_FILE_NAME: &'static str = "providers_state.json";

/// `std::path::Path`, a borrowed file-system path.
#[verifier::external_type_specification]
#[verifier::external_body]
pub struct ExPath(std::path::Path);

/// `std::path::PathBuf`, an owned file-system path.
#[verifier::external_type_specification]
#[verifier::external_body]
pub struct ExPathBuf(std::path::PathBuf);

/// The path that `std::path::Path::join` builds from `dir` and `name`. Paths have
/// no model here, so the result is named rather than spelled out; `join` is a pure
/// function of its two arguments.
pub uninterp spec fn joined_path(dir: &std::path::Path, name: Seq<char>) -> std::path::PathBuf;

/// Calls `std::path::Path::join`, which appends `name` to `dir` as a new path
/// component. The contract claims only that the result is determined by `dir` and
/// the text of `name`.
#[verifier::external_body]
fn join_path(dir: &std::path::Path, name: &str) -> (r: std::path::PathBuf)
    ensures
        r == joined_path(dir, name@),
{
    dir.join(name)
}

/// The state file inside `data_dir`: `data_dir` joined with [`STATE_FILE_NAME`].
pub fn state_path(data_dir: &std::path::Path) -> (r: std::path::PathBuf)
    ensures
        r == joined_path(data_dir, STATE_FILE_NAME@),
{
    join_path(data_dir, STATE_FILE_NAME)
}

/// Format version written into the state file.
pub const STATE_FORMAT_VERSION: u32 = 1;

/// A built-in provider: disabled, with one secret variable whose value is empty.
pub open spec fn builtin_provider(name: Seq<char>, key: Seq<char>) -> ProviderView {
    ProviderView {
        name,
        enabled: false,
        variables: seq![EnvVarView { key, value: Seq::empty(), is_secret: true }],
    }
}

/// The providers that ship with the application, in display order.
pub open spec fn builtin_providers() -> Seq<ProviderView> {
    seq![
        builtin_provider("openai"@, "OPENAI_API_KEY"@),
        builtin_provider("anthropic"@, "ANTHROPIC_API_KEY"@),
        builtin_provider("deepseek"@, "DEEPSEEK_API_KEY"@),
        builtin_provider("openrouter"@, "OPENROUTER_API_KEY"@),
    ]
}

/// `name` is the name of a built-in provider.
pub open spec fn is_builtin(name: Seq<char>) -> bool {
    name == "openai"@ || name == "anthropic"@ || name == "deepseek"@ || name == "openrouter"@
}

fn builtin_entry(name: &str, key: &str) -> (r: ProviderConfig)
    ensures
        r@ == builtin_provider(name@, key@),
{
    let mut variables: Vec<EnvVariable> = Vec::new();
    variables.push(EnvVariable { key: String::from_str(key), value: String::new(), is_secret: true });
    let r = ProviderConfig { name: String::from_str(name), enabled: false, variables };
    assert(r@.variables =~= builtin_provider(name@, key@).variables);
    r
}

/// The built-in providers: openai, anthropic, deepseek and openrouter, each
/// disabled with a single secret `<NAME>_API_KEY` variable holding no value.
pub fn default_builtin_providers() -> (r: Vec<ProviderConfig>)
    ensures
        providers_view(r@) == builtin_providers(),
{
    let mut r: Vec<ProviderConfig> = Vec::new();
    r.push(builtin_entry("openai", "OPENAI_API_KEY"));
    r.push(builtin_entry("anthropic", "ANTHROPIC_API_KEY"));
    r.push(builtin_entry("deepseek", "DEEPSEEK_API_KEY"));
    r.push(builtin_entry("openrouter", "OPENROUTER_API_KEY"));
    assert(providers_view(r@) =~= builtin_providers());
    r
}

/// Whether `name` is one of the built-in provider names.
pub fn is_builtin_name(name: &str) -> (r: bool)
    ensures
        r == is_builtin(name@),
{
    text_eq(name, "openai") || text_eq(name, "anthropic") || text_eq(name, "deepseek")
        || text_eq(name, "openrouter")
}

/// A variable with its value dropped when it is secret.
pub open spec fn clear_secret(v: EnvVarView) -> EnvVarView {
    if v.is_secret {
        EnvVarView { key: v.key, value: Seq::empty(), is_secret: v.is_secret }
    } else {
        v
    }
}

/// The slot given to a loaded provider that has no variable: a secret variable
/// with neither key nor value, ready to be filled in by an upsert.
pub open spec fn empty_slot() -> EnvVarView {
    EnvVarView { key: Seq::empty(), value: Seq::empty(), is_secret: true }
}

/// A provider with the values of its secret variables dropped.
pub open spec fn strip_provider(p: ProviderView) -> ProviderView {
    ProviderView { name: p.name, enabled: p.enabled, variables: p.variables.map_values(|v: EnvVarView| clear_secret(v)) }
}

/// Every provider with the values of its secret variables dropped.
pub open spec fn strip_providers(ps: Seq<ProviderView>) -> Seq<ProviderView> {
    ps.map_values(|p: ProviderView| strip_provider(p))
}

/// A loaded provider made safe to keep: secret values dropped, and one empty slot
/// when it has no variable at all.
pub open spec fn sanitize_provider(p: ProviderView) -> ProviderView {
    if p.variables.len() == 0 {
        ProviderView { name: p.name, enabled: p.enabled, variables: seq![empty_slot()] }
    } else {
        strip_provider(p)
    }
}

/// Every loaded provider made safe to keep.
pub open spec fn sanitize_providers(ps: Seq<ProviderView>) -> Seq<ProviderView> {
    ps.map_values(|p: ProviderView| sanitize_provider(p))
}

/// No secret variable of any provider holds a value: the form in which provider
/// state may be kept in memory and written to disk.
pub open spec fn secrets_cleared(ps: Seq<ProviderView>) -> bool {
    forall|i: int, j: int|
        0 <= i < ps.len() && 0 <= j < ps[i].variables.len() && #[trigger] ps[i].variables[j].is_secret
            ==> ps[i].variables[j].value.len() == 0
}

fn sanitize_variables(vars: &mut Vec<EnvVariable>)
    ensures
        vars_view(final(vars)@) == vars_view(old(vars)@).map_values(|v: EnvVarView| clear_secret(v)),
{
    let n = vars.len();
    for j in 0..n
        invariant
            n == vars@.len(),
            n == old(vars)@.len(),
            forall|k: int| 0 <= k < j ==> #[trigger] vars@[k]@ == clear_secret(old(vars)@[k]@),
            forall|k: int| j <= k < n ==> #[trigger] vars@[k] == old(vars)@[k],
    {
        if vars[j].is_secret {
            vars[j].value = String::new();
            assert(vars@[j as int].value@ =~= Seq::<char>::empty());
        }
    }
    assert(vars_view(vars@) =~= vars_view(old(vars)@).map_values(|v: EnvVarView| clear_secret(v)));
}

/// Strips any accidental plaintext secret values from loaded providers and ensures
/// at least one variable slot per provider: a provider loaded without variables
/// gets one empty secret slot; everything else is kept.
pub fn sanitize_loaded(providers: Vec<ProviderConfig>) -> (r: Vec<ProviderConfig>)
    ensures
        providers_view(r@) == sanitize_providers(providers_view(providers@)),
        r@.len() == providers@.len(),
        forall|i: int| 0 <= i < r@.len() ==> #[trigger] r@[i].variables@.len() >= 1,
        forall|i: int|
            0 <= i < r@.len() && providers@[i].variables@.len() > 0 ==> #[trigger] r@[i].variables@.len()
                == providers@[i].variables@.len(),
{
    let mut providers = providers;
    let ghost orig = providers@;
    let n = providers.len();
    for i in 0..n
        invariant
            n == providers@.len(),
            n == orig.len(),
            forall|k: int| 0 <= k < i ==> #[trigger] providers@[k]@ == sanitize_provider(orig[k]@),
            forall|k: int| i <= k < n ==> #[trigger] providers@[k] == orig[k],
    {
        if providers[i].variables.len() == 0 {
            providers[i].variables.push(EnvVariable { key: String::new(), value: String::new(), is_secret: true });
            assert(providers@[i as int]@.variables =~= seq![empty_slot()]);
        } else {
            sanitize_variables(&mut providers[i].variables);
        }
        assert(providers@[i as int]@ =~= sanitize_provider(orig[i as int]@));
    }
    proof {
        assert(providers_view(providers@) =~= sanitize_providers(providers_view(orig)));
        assert forall|i: int| 0 <= i < providers@.len() implies #[trigger] providers@[i].variables@.len() >= 1 by {
            assert(providers@[i]@ == sanitize_provider(orig[i]@));
            assert(providers@[i]@.variables.len() == providers@[i].variables@.len());
        }
        assert forall|i: int|
            0 <= i < providers@.len() && orig[i].variables@.len() > 0 implies #[trigger] providers@[i].variables@.len()
                == orig[i].variables@.len() by {
            assert(providers@[i]@ == sanitize_provider(orig[i]@));
            assert(providers@[i]@.variables.len() == providers@[i].variables@.len());
            assert(orig[i]@.variables.len() == orig[i].variables@.len());
        }
    }
    providers
}

/// The form in which providers are written to the state file: every secret value
/// dropped, everything else kept as it is.
pub fn providers_for_storage(providers: &[ProviderConfig]) -> (r: Vec<ProviderConfig>)
    ensures
        providers_view(r@) == strip_providers(providers_view(providers@)),
        secrets_cleared(providers_view(r@)),
{
    let ghost orig = providers_view(providers@);
    let mut out: Vec<ProviderConfig> = Vec::new();
    let n = providers.len();
    for i in 0..n
        invariant
            n == providers@.len(),
            orig == providers_view(providers@),
            out@.len() == i,
            forall|k: int| 0 <= k < i ==> #[trigger] out@[k]@ == strip_provider(orig[k]),
    {
        let mut p = providers[i].copied();
        sanitize_variables(&mut p.variables);
        assert(p@ =~= strip_provider(orig[i as int]));
        out.push(p);
    }
    assert(providers_view(out@) =~= strip_providers(orig));
    out
}

/// What reading the state file gave.
pub enum StoredState {
    /// There is no state file yet.
    Missing,
    /// The file exists but could not be read.
    Unreadable,
    /// The file was read but does not hold a provider list.
    Malformed,
    /// The provider list that the file holds.
    Parsed(Vec<ProviderConfig>),
}

/// The providers to start with, and whether the defaults must be written back:
/// a parsed list is kept with its secret values dropped; in every other case the
/// built-in providers are used and written.
pub fn resolve_stored_state(stored: StoredState) -> (r: (Vec<ProviderConfig>, bool))
    ensures
        match stored {
            StoredState::Parsed(ps) => providers_view(r.0@) == sanitize_providers(providers_view(ps@)) && !r.1,
            _ => providers_view(r.0@) == builtin_providers() && r.1,
        },
{
    match stored {
        StoredState::Parsed(ps) => (sanitize_loaded(ps), false),
        _ => (default_builtin_providers(), true),
    }
}

/// Sanitizing leaves no secret value in the providers.
pub proof fn law_sanitize_clears_secrets(ps: Seq<ProviderView>)
    ensures
        secrets_cleared(sanitize_providers(ps)),
{
}

/// Every provider comes out of sanitizing with at least one variable, and a
/// provider that had variables keeps their number.
pub proof fn law_sanitize_gives_every_provider_a_slot(ps: Seq<ProviderView>, i: int)
    requires
        0 <= i < ps.len(),
    ensures
        sanitize_providers(ps)[i].variables.len() >= 1,
        ps[i].variables.len() > 0 ==> sanitize_providers(ps)[i].variables.len() == ps[i].variables.len(),
{
}

/// Sanitizing twice is sanitizing once.
pub proof fn law_sanitize_idempotent(ps: Seq<ProviderView>)
    ensures
        sanitize_providers(sanitize_providers(ps)) == sanitize_providers(ps),
{
    let once = sanitize_providers(ps);
    assert forall|i: int| 0 <= i < ps.len() implies #[trigger] sanitize_provider(once[i]) == once[i] by {
        assert(once[i].variables.map_values(|v: EnvVarView| clear_secret(v)) =~= once[i].variables);
    }
    assert(sanitize_providers(once) =~= once);
}

/// Sanitizing keeps the providers' names, flags and variable keys, and the values
/// of variables that are not secret.
pub proof fn law_sanitize_keeps_public_values(ps: Seq<ProviderView>, i: int, j: int)
    requires
        0 <= i < ps.len(),
        0 <= j < ps[i].variables.len(),
    ensures
        sanitize_providers(ps).len() == ps.len(),
        sanitize_providers(ps)[i].name == ps[i].name,
        sanitize_providers(ps)[i].enabled == ps[i].enabled,
        sanitize_providers(ps)[i].variables.len() == ps[i].variables.len(),
        sanitize_providers(ps)[i].variables[j].key == ps[i].variables[j].key,
        sanitize_providers(ps)[i].variables[j].is_secret == ps[i].variables[j].is_secret,
        !ps[i].variables[j].is_secret ==> sanitize_providers(ps)[i].variables[j].value
            == ps[i].variables[j].value,
{
}

/// What is written to the state file holds no secret value, and writing a list
/// that already holds none changes nothing.
pub proof fn law_storage_form_holds_no_secret(ps: Seq<ProviderView>)
    ensures
        secrets_cleared(strip_providers(ps)),
        secrets_cleared(ps) ==> strip_providers(ps) == ps,
{
    if secrets_cleared(ps) {
        assert forall|i: int| 0 <= i < ps.len() implies #[trigger] strip_provider(ps[i]) == ps[i] by {
            assert forall|j: int| 0 <= j < ps[i].variables.len() implies #[trigger] clear_secret(ps[i].variables[j])
                == ps[i].variables[j] by {
                if ps[i].variables[j].is_secret {
                    assert(ps[i].variables[j].value =~= Seq::<char>::empty());
                }
            }
            assert(ps[i].variables.map_values(|v: EnvVarView| clear_secret(v)) =~= ps[i].variables);
        }
        assert(strip_providers(ps) =~= ps);
    }
}

/// Saving and loading again gives what loading the original list would: the
/// stored form, sanitized, is the sanitized list.
pub proof fn law_store_then_load(ps: Seq<ProviderView>)
    ensures
        sanitize_providers(strip_providers(ps)) == sanitize_providers(ps),
{
    assert forall|i: int| 0 <= i < ps.len() implies #[trigger] sanitize_provider(strip_provider(ps[i])) == sanitize_provider(ps[i]) by {
        let p = ps[i];
        if p.variables.len() > 0 {
            let once = p.variables.map_values(|v: EnvVarView| clear_secret(v));
            assert(once.map_values(|v: EnvVarView| clear_secret(v)) =~= once);
        }
    }
    assert(sanitize_providers(strip_providers(ps)) =~= sanitize_providers(ps));
}

/// The built-in providers hold no secret value.
pub proof fn law_builtin_providers_hold_no_secret()
    ensures
        secrets_cleared(builtin_providers()),
{
    assert forall|i: int, j: int|
        0 <= i < builtin_providers().len() && 0 <= j < builtin_providers()[i].variables.len()
            && #[trigger] builtin_providers()[i].variables[j].is_secret implies builtin_providers()[i].variables[j].value.len()
        == 0 by {
        assert(j == 0);
    }
}

/// A name is built in exactly when one of the built-in providers carries it.
pub proof fn law_builtin_names_match_builtin_providers(name: Seq<char>)
    ensures
        is_builtin(name) <==> exists|i: int| 0 <= i < builtin_providers().len() && #[trigger] builtin_providers()[i].name == name,
{
    if is_builtin(name) {
        if name == "openai"@ {
            assert(builtin_providers()[0].name == name);
        } else if name == "anthropic"@ {
            assert(builtin_providers()[1].name == name);
        } else if name == "deepseek"@ {
            assert(builtin_providers()[2].name == name);
        } else {
            assert(builtin_providers()[3].name == name);
        }
    }
}

} // verus!
