//! Editing the provider list kept by the application: enabling, adding or
//! renaming, and removing providers, with the matching upkeep of their secrets in
//! the credential store. The in-memory list never holds a secret value.
use vstd::prelude::*;
use crate::env_merge::{lemma_name_position, lemma_name_position_absent, lemma_name_position_at, name_position, set_provider_enabled, with_enabled};
use crate::models::{providers_view, vars_view, EnvVarView, EnvVariable, ProviderConfig, ProviderView};
use crate::secret_store::{delete_secret, get_secret, set_secret};
use crate::state_store::secrets_cleared;
use crate::text::text_eq;

verus! {

/// The providers not named `n`, in their order.
pub open spec fn without_name(ps: Seq<ProviderView>, n: Seq<char>) -> Seq<ProviderView>
    decreases ps.len(),
{
    if ps.len() == 0 {
        Seq::empty()
    } else if ps.last().name == n {
        without_name(ps.drop_last(), n)
    } else {
        without_name(ps.drop_last(), n).push(ps.last())
    }
}

/// `cfg` in place of the first provider with its name, or appended when there is none.
pub open spec fn replace_or_push(ps: Seq<ProviderView>, cfg: ProviderView) -> Seq<ProviderView> {
    let p = name_position(ps, cfg.name);
    if p >= 0 {
        ps.update(p, cfg)
    } else {
        ps.push(cfg)
    }
}

/// The configuration that an upsert stores: one secret variable without a value.
pub open spec fn synced_provider(name: Seq<char>, key: Seq<char>, enabled: bool) -> ProviderView {
    ProviderView {
        name,
        enabled,
        variables: seq![EnvVarView { key, value: Seq::empty(), is_secret: true }],
    }
}

/// The list once a renamed provider's old entries are gone: when `original_name`
/// differs from `name`, every provider called `original_name` is dropped.
pub open spec fn after_rename(ps: Seq<ProviderView>, original_name: Option<Seq<char>>, name: Seq<char>) -> Seq<ProviderView> {
    match original_name {
        Some(o) => if o != name {
            without_name(ps, o)
        } else {
            ps
        },
        None => ps,
    }
}

/// Where the secret of the first provider called `lookup` is filed: its name and
/// the key of its first variable, when it has one.
pub open spec fn secret_location(ps: Seq<ProviderView>, lookup: Seq<char>) -> Option<(Seq<char>, Seq<char>)> {
    let p = name_position(ps, lookup);
    if p >= 0 && ps[p].variables.len() > 0 {
        Some((ps[p].name, ps[p].variables[0].key))
    } else {
        None
    }
}

/// No two providers share a name.
pub open spec fn names_unique(ps: Seq<ProviderView>) -> bool {
    forall|i: int, j: int| 0 <= i < ps.len() && 0 <= j < ps.len() && i != j ==> ps[i].name != ps[j].name
}

/// One change to the credential store.
pub enum SecretOp {
    /// Save `value` as the secret of `key` of `provider`.
    Store { provider: String, key: String, value: String },
    /// Remove the secret of `key` of `provider`.
    Delete { provider: String, key: String },
    /// Move a secret to a new provider name or key.
    Move { from_provider: String, from_key: String, to_provider: String, to_key: String },
}

/// Model of a [`SecretOp`].
pub enum SecretOpView {
    Store { provider: Seq<char>, key: Seq<char>, value: Seq<char> },
    Delete { provider: Seq<char>, key: Seq<char> },
    Move { from_provider: Seq<char>, from_key: Seq<char>, to_provider: Seq<char>, to_key: Seq<char> },
}

impl View for SecretOp {
    type V = SecretOpView;

    open spec fn view(&self) -> SecretOpView {
        match self {
            SecretOp::Store { provider, key, value } => SecretOpView::Store {
                provider: provider@,
                key: key@,
                value: value@,
            },
            SecretOp::Delete { provider, key } => SecretOpView::Delete { provider: provider@, key: key@ },
            SecretOp::Move { from_provider, from_key, to_provider, to_key } => SecretOpView::Move {
                from_provider: from_provider@,
                from_key: from_key@,
                to_provider: to_provider@,
                to_key: to_key@,
            },
        }
    }
}

/// The models of a list of store changes.
pub open spec fn ops_view(ops: Seq<SecretOp>) -> Seq<SecretOpView> {
    ops.map_values(|o: SecretOp| o@)
}

/// The secret is filed somewhere else than `name` / `key`.
pub open spec fn location_moved(old: Option<(Seq<char>, Seq<char>)>, name: Seq<char>, key: Seq<char>) -> bool {
    match old {
        Some(l) => l.0 != name || l.1 != key,
        None => false,
    }
}

/// The store changes of an upsert. When a new value is written, the new location
/// gets the value (or loses its secret, for an empty value) and a moved old location
/// is cleared; otherwise a moved secret follows the provider to its new location.
pub open spec fn secret_sync_plan_spec(
    old: Option<(Seq<char>, Seq<char>)>,
    name: Seq<char>,
    key: Seq<char>,
    value: Seq<char>,
    write_secret: bool,
) -> Seq<SecretOpView> {
    let l = old->0;
    if write_secret {
        let first = if value.len() == 0 {
            SecretOpView::Delete { provider: name, key }
        } else {
            SecretOpView::Store { provider: name, key, value }
        };
        if location_moved(old, name, key) {
            seq![first, SecretOpView::Delete { provider: l.0, key: l.1 }]
        } else {
            seq![first]
        }
    } else if location_moved(old, name, key) {
        seq![SecretOpView::Move { from_provider: l.0, from_key: l.1, to_provider: name, to_key: key }]
    } else {
        Seq::empty()
    }
}

/// Model of an optional secret location.
pub open spec fn location_view(l: Option<(String, String)>) -> Option<(Seq<char>, Seq<char>)> {
    match l {
        Some(p) => Some((p.0@, p.1@)),
        None => None,
    }
}

/// Whether a secret filed under `old_name` / `old_key` must move to `new_name` / `new_key`.
pub fn location_changed(old_name: &str, old_key: &str, new_name: &str, new_key: &str) -> (r: bool)
    ensures
        r == (old_name@ != new_name@ || old_key@ != new_key@),
{
    !(text_eq(old_name, new_name) && text_eq(old_key, new_key))
}

/// Lists the store changes of an upsert, in the order they are made.
pub fn secret_sync_plan(
    old_location: &Option<(String, String)>,
    name: &str,
    env_key: &str,
    env_value: &str,
    write_secret: bool,
) -> (r: Vec<SecretOp>)
    ensures
        ops_view(r@) == secret_sync_plan_spec(location_view(*old_location), name@, env_key@, env_value@, write_secret),
        write_secret ==> r@.len() >= 1,
        write_secret && env_value@.len() > 0 ==> r@[0]@ == (SecretOpView::Store {
            provider: name@,
            key: env_key@,
            value: env_value@,
        }),
        write_secret && env_value@.len() == 0 ==> r@[0]@ == (SecretOpView::Delete { provider: name@, key: env_key@ }),
        forall|i: int|
            0 <= i < r@.len() && #[trigger] r@[i]@ == (SecretOpView::Delete { provider: name@, key: env_key@ })
                ==> write_secret && env_value@.len() == 0,
        forall|i: int|
            0 <= i < r@.len() && #[trigger] r@[i]@ is Store ==> write_secret && r@[i]@ == (SecretOpView::Store {
                provider: name@,
                key: env_key@,
                value: env_value@,
            }),
{
    let moved = match old_location {
        Some(l) => location_changed(l.0.as_str(), l.1.as_str(), name, env_key),
        None => false,
    };
    let mut ops: Vec<SecretOp> = Vec::new();
    if write_secret {
        if env_value.is_empty() {
            ops.push(SecretOp::Delete { provider: String::from_str(name), key: String::from_str(env_key) });
        } else {
            ops.push(
                SecretOp::Store {
                    provider: String::from_str(name),
                    key: String::from_str(env_key),
                    value: String::from_str(env_value),
                },
            );
        }
        if moved {
            match old_location {
                Some(l) => {
                    ops.push(SecretOp::Delete { provider: l.0.clone(), key: l.1.clone() });
                },
                None => {},
            }
        }
    } else if moved {
        match old_location {
            Some(l) => {
                ops.push(
                    SecretOp::Move {
                        from_provider: l.0.clone(),
                        from_key: l.1.clone(),
                        to_provider: String::from_str(name),
                        to_key: String::from_str(env_key),
                    },
                );
            },
            None => {},
        }
    }
    assert(ops_view(ops@) =~= secret_sync_plan_spec(location_view(*old_location), name@, env_key@, env_value@, write_secret));
    proof {
        law_upsert_plan_saves_new_value(location_view(*old_location), name@, env_key@, env_value@, write_secret);
        assert forall|i: int| 0 <= i < ops@.len() implies #[trigger] ops@[i]@ == ops_view(ops@)[i] by {}
    }
    ops
}

/// What an upsert does to the store at the provider's new location. When a new
/// value is written, the first change saves that value there, or clears the
/// location for an empty value, whether or not the secret moved; the new location
/// is cleared for nothing but an empty value; nothing but the written value is ever
/// saved; and without a write, nothing is saved or cleared (a moved secret is moved).
pub proof fn law_upsert_plan_saves_new_value(
    old: Option<(Seq<char>, Seq<char>)>,
    name: Seq<char>,
    key: Seq<char>,
    value: Seq<char>,
    write_secret: bool,
)
    ensures
        ({
            let plan = secret_sync_plan_spec(old, name, key, value, write_secret);
            &&& write_secret ==> plan.len() >= 1
            &&& write_secret && value.len() > 0 ==> plan[0] == (SecretOpView::Store { provider: name, key, value })
            &&& write_secret && value.len() == 0 ==> plan[0] == (SecretOpView::Delete { provider: name, key })
            &&& forall|i: int|
                0 <= i < plan.len() && #[trigger] plan[i] == (SecretOpView::Delete { provider: name, key })
                    ==> write_secret && value.len() == 0
            &&& forall|i: int|
                0 <= i < plan.len() && #[trigger] plan[i] is Store ==> write_secret && plan[i] == (SecretOpView::Store {
                    provider: name,
                    key,
                    value,
                })
            &&& !write_secret ==> forall|i: int| 0 <= i < plan.len() ==> #[trigger] plan[i] is Move
        }),
{
}

/// The store changes that move a secret from `old_name` / `old_key` to
/// `new_name` / `new_key`, given what was read at the old location: nothing when
/// the location is unchanged; otherwise a copy of the value read (when there is
/// one) to the new location, then the removal of the old one.
pub open spec fn migration_ops_spec(
    old_name: Seq<char>,
    old_key: Seq<char>,
    new_name: Seq<char>,
    new_key: Seq<char>,
    read: Option<Seq<char>>,
) -> Seq<SecretOpView> {
    if old_name == new_name && old_key == new_key {
        Seq::empty()
    } else {
        match read {
            Some(v) => seq![
                SecretOpView::Store { provider: new_name, key: new_key, value: v },
                SecretOpView::Delete { provider: old_name, key: old_key },
            ],
            None => seq![SecretOpView::Delete { provider: old_name, key: old_key }],
        }
    }
}

/// Lists the store changes of a secret move (see [`migration_ops_spec`]).
pub fn migration_ops(
    old_name: &str,
    old_key: &str,
    new_name: &str,
    new_key: &str,
    read: &Option<String>,
) -> (r: Vec<SecretOp>)
    ensures
        ops_view(r@) == migration_ops_spec(old_name@, old_key@, new_name@, new_key@, match read {
            Some(v) => Some(v@),
            None => None,
        }),
{
    let mut ops: Vec<SecretOp> = Vec::new();
    if location_changed(old_name, old_key, new_name, new_key) {
        match read {
            Some(v) => {
                ops.push(
                    SecretOp::Store {
                        provider: String::from_str(new_name),
                        key: String::from_str(new_key),
                        value: v.clone(),
                    },
                );
            },
            None => {},
        }
        ops.push(SecretOp::Delete { provider: String::from_str(old_name), key: String::from_str(old_key) });
    }
    assert(ops_view(ops@) =~= migration_ops_spec(old_name@, old_key@, new_name@, new_key@, match read {
        Some(v) => Some(v@),
        None => None,
    }));
    ops
}

/// Makes store writes and removals in order, going on after a refused write.
fn make_changes_ignoring_refusals(ops: &Vec<SecretOp>)
    requires
        forall|i: int| 0 <= i < ops@.len() ==> !(#[trigger] ops@[i] is Move),
{
    let n = ops.len();
    for i in 0..n
        invariant
            n == ops@.len(),
    {
        match &ops[i] {
            SecretOp::Store { provider, key, value } => {
                let _ = set_secret(provider.as_str(), key.as_str(), value.as_str());
            },
            SecretOp::Delete { provider, key } => {
                delete_secret(provider.as_str(), key.as_str());
            },
            SecretOp::Move { .. } => {
                assert(ops@[i as int] is Move);
            },
        }
    }
}

/// Moves the secret of `old_name` / `old_key` to `new_name` / `new_key` when the
/// location changed: reads the old location, then makes the changes of
/// [`migration_ops`] for what was read (a refused copy is ignored). Nothing is read
/// or changed when the location is unchanged.
pub fn migrate_secret_if_renamed(old_name: &str, old_key: &str, new_name: &str, new_key: &str) {
    if !location_changed(old_name, old_key, new_name, new_key) {
        return;
    }
    let read = get_secret(old_name, old_key);
    let ops = migration_ops(old_name, old_key, new_name, new_key, &read);
    proof {
        let plan = migration_ops_spec(old_name@, old_key@, new_name@, new_key@, match read {
            Some(v) => Some(v@),
            None => None,
        });
        assert(ops_view(ops@) == plan);
        assert forall|i: int| 0 <= i < ops@.len() implies !(#[trigger] ops@[i] is Move) by {
            assert(ops_view(ops@)[i] == ops@[i]@);
            assert(plan.len() == ops@.len());
            assert(!(plan[i] is Move));
        }
    }
    make_changes_ignoring_refusals(&ops);
}

/// Makes the store changes in order and stops at the first refused write. Returns
/// how many changes were made before stopping (all of them when none was refused)
/// and the refused write's error; only a write can be refused.
pub fn apply_secret_ops(ops: &Vec<SecretOp>) -> (r: (usize, Result<(), String>))
    ensures
        r.0 <= ops@.len(),
        r.1 is Ok <==> r.0 == ops@.len(),
        r.1 is Err ==> ops@[r.0 as int] is Store,
{
    let n = ops.len();
    for i in 0..n
        invariant
            n == ops@.len(),
    {
        match &ops[i] {
            SecretOp::Store { provider, key, value } => {
                match set_secret(provider.as_str(), key.as_str(), value.as_str()) {
                    Ok(()) => {},
                    Err(e) => {
                        return (i, Err(e));
                    },
                }
            },
            SecretOp::Delete { provider, key } => {
                delete_secret(provider.as_str(), key.as_str());
            },
            SecretOp::Move { from_provider, from_key, to_provider, to_key } => {
                migrate_secret_if_renamed(
                    from_provider.as_str(),
                    from_key.as_str(),
                    to_provider.as_str(),
                    to_key.as_str(),
                );
            },
        }
    }
    (n, Ok(()))
}

/// The keys of the secret variables of `p`, in order.
pub open spec fn secret_keys_spec(vars: Seq<EnvVarView>) -> Seq<Seq<char>>
    decreases vars.len(),
{
    if vars.len() == 0 {
        Seq::empty()
    } else if vars.last().is_secret {
        secret_keys_spec(vars.drop_last()).push(vars.last().key)
    } else {
        secret_keys_spec(vars.drop_last())
    }
}

/// The keys of the secret variables of a provider, in order.
pub fn secret_keys(p: &ProviderConfig) -> (r: Vec<String>)
    ensures
        r@.map_values(|s: String| s@) == secret_keys_spec(p@.variables),
{
    let ghost vs = p@.variables;
    let mut out: Vec<String> = Vec::new();
    let n = p.variables.len();
    for i in 0..n
        invariant
            n == p.variables@.len(),
            vs == vars_view(p.variables@),
            out@.map_values(|s: String| s@) == secret_keys_spec(vs.take(i as int)),
    {
        assert(vs.take(i + 1).drop_last() =~= vs.take(i as int));
        if p.variables[i].is_secret {
            let ghost before = out@;
            out.push(p.variables[i].key.clone());
            assert(out@.map_values(|s: String| s@) =~= before.map_values(|s: String| s@).push(vs[i as int].key));
        }
    }
    assert(vs.take(n as int) =~= vs);
    out
}

/// Removes from the store the secret of every secret variable of `p`.
pub fn delete_provider_secrets(p: &ProviderConfig) {
    let keys = secret_keys(p);
    let n = keys.len();
    for i in 0..n
        invariant
            n == keys@.len(),
    {
        delete_secret(p.name.as_str(), keys[i].as_str());
    }
}

/// Index of the first provider named `name`.
fn position_of_name(ps: &Vec<ProviderConfig>, name: &str) -> (r: Option<usize>)
    ensures
        match r {
            Some(i) => i == name_position(providers_view(ps@), name@) && i < ps@.len(),
            None => name_position(providers_view(ps@), name@) == -1,
        },
{
    let ghost v = providers_view(ps@);
    let n = ps.len();
    for i in 0..n
        invariant
            n == ps@.len(),
            v == providers_view(ps@),
            forall|j: int| 0 <= j < i ==> v[j].name != name@,
    {
        if text_eq(ps[i].name.as_str(), name) {
            proof {
                assert(v[i as int].name == name@);
                lemma_name_position_at(v, name@, i as int);
            }
            return Some(i);
        }
    }
    proof {
        lemma_name_position_absent(v, name@);
    }
    None
}

/// Copies of the providers not named `name`, in order.
fn providers_without_name(ps: &Vec<ProviderConfig>, name: &str) -> (r: Vec<ProviderConfig>)
    ensures
        providers_view(r@) == without_name(providers_view(ps@), name@),
{
    let ghost v = providers_view(ps@);
    let mut out: Vec<ProviderConfig> = Vec::new();
    let n = ps.len();
    for i in 0..n
        invariant
            n == ps@.len(),
            v == providers_view(ps@),
            providers_view(out@) == without_name(v.take(i as int), name@),
    {
        assert(v.take(i + 1).drop_last() =~= v.take(i as int));
        if !text_eq(ps[i].name.as_str(), name) {
            let ghost before = out@;
            out.push(ps[i].copied());
            assert(providers_view(out@) =~= providers_view(before).push(v[i as int]));
        }
    }
    assert(v.take(n as int) =~= v);
    out
}

/// Where the secret of the first provider called `lookup` is filed.
fn secret_location_of(ps: &Vec<ProviderConfig>, lookup: &str) -> (r: Option<(String, String)>)
    ensures
        location_view(r) == secret_location(providers_view(ps@), lookup@),
{
    match position_of_name(ps, lookup) {
        Some(i) => {
            if ps[i].variables.len() > 0 {
                Some((ps[i].name.clone(), ps[i].variables[0].key.clone()))
            } else {
                None
            }
        },
        None => None,
    }
}

/// Text reported after an upsert.
pub open spec fn synced_text(name: Seq<char>) -> Seq<char> {
    "Synced provider '"@ + name + "'."@
}

/// Model of an optional provider name.
pub open spec fn name_view(n: Option<String>) -> Option<Seq<char>> {
    match n {
        Some(s) => Some(s@),
        None => None,
    }
}

/// The name under which the provider being upserted is looked up before the change.
pub open spec fn upsert_lookup_name(original_name: Option<Seq<char>>, name: Seq<char>) -> Seq<char> {
    match original_name {
        Some(o) => o,
        None => name,
    }
}

/// What an upsert does: the list once a renamed provider's old entries are gone,
/// the store changes to make, and the list once the new entry is stored.
pub struct UpsertPlan {
    pub renamed: Vec<ProviderConfig>,
    pub ops: Vec<SecretOp>,
    pub updated: Vec<ProviderConfig>,
}

/// Copies of all providers, in order.
fn copy_providers(ps: &Vec<ProviderConfig>) -> (r: Vec<ProviderConfig>)
    ensures
        providers_view(r@) == providers_view(ps@),
{
    let mut out: Vec<ProviderConfig> = Vec::new();
    let n = ps.len();
    for i in 0..n
        invariant
            n == ps@.len(),
            out@.len() == i,
            forall|k: int| 0 <= k < i ==> #[trigger] out@[k]@ == ps@[k]@,
    {
        out.push(ps[i].copied());
    }
    assert(providers_view(out@) =~= providers_view(ps@));
    out
}

/// Plans an upsert of `name` over `providers`: the list after the rename, the
/// store changes of [`secret_sync_plan`] for the secret location of the provider
/// looked up (the original name, or `name`), and the list with the new entry.
pub fn plan_upsert(
    providers: &Vec<ProviderConfig>,
    original_name: &Option<String>,
    name: &str,
    env_key: &str,
    env_value: &str,
    enabled: bool,
    write_secret: bool,
) -> (r: UpsertPlan)
    ensures
        providers_view(r.renamed@) == after_rename(providers_view(providers@), name_view(*original_name), name@),
        ops_view(r.ops@) == secret_sync_plan_spec(
            secret_location(providers_view(providers@), upsert_lookup_name(name_view(*original_name), name@)),
            name@,
            env_key@,
            env_value@,
            write_secret,
        ),
        providers_view(r.updated@) == replace_or_push(
            after_rename(providers_view(providers@), name_view(*original_name), name@),
            synced_provider(name@, env_key@, enabled),
        ),
{
    let ghost old_ps = providers_view(providers@);
    let old_location = match original_name {
        Some(o) => secret_location_of(providers, o.as_str()),
        None => secret_location_of(providers, name),
    };
    let renamed = match original_name {
        Some(o) => {
            if !text_eq(o.as_str(), name) {
                providers_without_name(providers, o.as_str())
            } else {
                copy_providers(providers)
            }
        },
        None => copy_providers(providers),
    };
    assert(providers_view(renamed@) == after_rename(old_ps, name_view(*original_name), name@));
    let ops = secret_sync_plan(&old_location, name, env_key, env_value, write_secret);
    let mut updated = copy_providers(&renamed);
    let mut variables: Vec<EnvVariable> = Vec::new();
    variables.push(EnvVariable { key: String::from_str(env_key), value: String::new(), is_secret: true });
    let cfg = ProviderConfig { name: String::from_str(name), enabled, variables };
    assert(cfg@.variables =~= synced_provider(name@, env_key@, enabled).variables);
    let ghost before = providers_view(updated@);
    match position_of_name(&updated, name) {
        Some(i) => {
            updated.set(i, cfg);
            assert(providers_view(updated@) =~= before.update(i as int, cfg@));
        },
        None => {
            updated.push(cfg);
            assert(providers_view(updated@) =~= before.push(cfg@));
        },
    }
    UpsertPlan { renamed, ops, updated }
}

/// Adds or updates a provider. When `original_name` names another provider (a
/// rename), every provider with that old name is dropped first. The stored entry
/// is `name` with `enabled` and one secret variable `env_key` without a value; it
/// replaces the first provider called `name` or is appended. When `write_secret`
/// holds, `env_value` becomes the stored secret (an empty value removes it);
/// otherwise a secret whose location moved is carried over. The store changes are
/// those of [`plan_upsert`], made in order. A refused write ends the call with the
/// store's error, after the rename and before the entry is stored.
pub fn upsert_provider(
    providers: &mut Vec<ProviderConfig>,
    original_name: Option<String>,
    name: String,
    env_key: String,
    env_value: String,
    enabled: bool,
    write_secret: bool,
) -> (r: Result<String, String>)
    ensures
        r matches Ok(msg) ==> {
            &&& providers_view(final(providers)@) == replace_or_push(
                after_rename(providers_view(old(providers)@), name_view(original_name), name@),
                synced_provider(name@, env_key@, enabled),
            )
            &&& msg@ == synced_text(name@)
        },
        r is Err ==> {
            &&& providers_view(final(providers)@) == after_rename(providers_view(old(providers)@), name_view(original_name), name@)
            &&& write_secret
            &&& env_value@.len() > 0
        },
{
    let UpsertPlan { renamed, ops, updated } = plan_upsert(
        providers,
        &original_name,
        name.as_str(),
        env_key.as_str(),
        env_value.as_str(),
        enabled,
        write_secret,
    );
    *providers = renamed;
    let (made, outcome) = apply_secret_ops(&ops);
    match outcome {
        Ok(()) => {},
        Err(e) => {
            proof {
                if !(write_secret && env_value@.len() > 0) {
                    let plan = secret_sync_plan_spec(
                        secret_location(providers_view(old(providers)@), upsert_lookup_name(name_view(original_name), name@)),
                        name@,
                        env_key@,
                        env_value@,
                        write_secret,
                    );
                    assert(ops_view(ops@) == plan);
                    assert(made < ops@.len());
                    assert(plan.len() == ops@.len());
                    assert(ops_view(ops@)[made as int] == ops@[made as int]@);
                    assert(!(plan[made as int] is Store));
                }
            }
            return Err(e);
        },
    }
    *providers = updated;
    let mut msg = String::from_str("Synced provider '");
    msg.append(name.as_str());
    msg.append("'.");
    Ok(msg)
}

/// `without_name` keeps exactly the providers with other names, in order.
pub proof fn lemma_without_name(ps: Seq<ProviderView>, n: Seq<char>)
    ensures
        without_name(ps, n).len() <= ps.len(),
        without_name(ps, n).len() == ps.len() <==> (forall|j: int| 0 <= j < ps.len() ==> ps[j].name != n),
        forall|i: int| 0 <= i < without_name(ps, n).len() ==> #[trigger] without_name(ps, n)[i].name != n,
        forall|i: int| 0 <= i < without_name(ps, n).len() ==> ps.contains(#[trigger] without_name(ps, n)[i]),
    decreases ps.len(),
{
    if ps.len() > 0 {
        let d = ps.drop_last();
        lemma_without_name(d, n);
        let w = without_name(ps, n);
        assert forall|i: int| 0 <= i < w.len() implies ps.contains(#[trigger] w[i]) by {
            if i < without_name(d, n).len() {
                let x = without_name(d, n)[i];
                assert(d.contains(x));
                let k = choose|k: int| 0 <= k < d.len() && d[k] == x;
                assert(ps[k] == x);
            } else {
                assert(ps[ps.len() - 1] == w[i]);
            }
        }
        if ps.last().name == n {
            assert(ps[ps.len() - 1].name == n);
        } else {
            if without_name(ps, n).len() == ps.len() {
                assert forall|j: int| 0 <= j < ps.len() implies ps[j].name != n by {
                    if j < d.len() {
                        assert(d[j] == ps[j]);
                    }
                }
            }
            if forall|j: int| 0 <= j < ps.len() ==> ps[j].name != n {
                assert forall|j: int| 0 <= j < d.len() implies d[j].name != n by {
                    assert(d[j] == ps[j]);
                }
            }
        }
    }
}

/// The store entries a removal clears: `name` paired with the key of each secret
/// variable of the first provider named `name`; none when there is no such provider.
pub open spec fn removal_targets(ps: Seq<ProviderView>, name: Seq<char>) -> Seq<(Seq<char>, Seq<char>)> {
    let p = name_position(ps, name);
    if p >= 0 {
        secret_keys_spec(ps[p].variables).map_values(|k: Seq<char>| (name, k))
    } else {
        Seq::empty()
    }
}

/// A key is among the secret keys of `vars` exactly when some secret variable of
/// `vars` has it.
proof fn lemma_secret_keys_spec(vars: Seq<EnvVarView>, k: Seq<char>)
    ensures
        secret_keys_spec(vars).contains(k) <==> exists|j: int| 0 <= j < vars.len() && #[trigger] vars[j].is_secret && vars[j].key == k,
    decreases vars.len(),
{
    if vars.len() > 0 {
        let d = vars.drop_last();
        lemma_secret_keys_spec(d, k);
        if exists|j: int| 0 <= j < vars.len() && #[trigger] vars[j].is_secret && vars[j].key == k {
            let j = choose|j: int| 0 <= j < vars.len() && #[trigger] vars[j].is_secret && vars[j].key == k;
            if j < d.len() {
                assert(d[j] == vars[j]);
                let i = choose|i: int| 0 <= i < secret_keys_spec(d).len() && secret_keys_spec(d)[i] == k;
                if vars.last().is_secret {
                    assert(secret_keys_spec(vars)[i] == k);
                }
            } else {
                assert(secret_keys_spec(vars).last() == k);
            }
        }
        if secret_keys_spec(vars).contains(k) {
            let i = choose|i: int| 0 <= i < secret_keys_spec(vars).len() && secret_keys_spec(vars)[i] == k;
            if vars.last().is_secret && i == secret_keys_spec(d).len() {
                assert(vars[vars.len() - 1].is_secret && vars[vars.len() - 1].key == k);
            } else {
                assert(secret_keys_spec(d)[i] == k);
                let j = choose|j: int| 0 <= j < d.len() && #[trigger] d[j].is_secret && d[j].key == k;
                assert(vars[j] == d[j]);
            }
        }
    }
}

/// A removal clears the secrets of the provider it removes and nothing else: with
/// no provider of that name there is nothing to clear; otherwise every entry
/// cleared is filed under that name, and an entry `(name, k)` is cleared exactly
/// when `k` is the key of a secret variable of the first provider with that name.
pub proof fn law_removal_clears_the_provider_secrets(ps: Seq<ProviderView>, name: Seq<char>, k: Seq<char>)
    ensures
        name_position(ps, name) < 0 ==> removal_targets(ps, name).len() == 0,
        forall|i: int| 0 <= i < removal_targets(ps, name).len() ==> (#[trigger] removal_targets(ps, name)[i]).0 == name,
        name_position(ps, name) >= 0 ==> (removal_targets(ps, name).contains((name, k)) <==> exists|j: int|
            0 <= j < ps[name_position(ps, name)].variables.len() && #[trigger] ps[name_position(ps, name)].variables[j].is_secret
                && ps[name_position(ps, name)].variables[j].key == k),
{
    let p = name_position(ps, name);
    if p >= 0 {
        let keys = secret_keys_spec(ps[p].variables);
        let t = removal_targets(ps, name);
        lemma_secret_keys_spec(ps[p].variables, k);
        assert(t.len() == keys.len());
        if t.contains((name, k)) {
            let i = choose|i: int| 0 <= i < t.len() && t[i] == (name, k);
            assert(keys[i] == k);
            assert(keys.contains(k));
        }
        if keys.contains(k) {
            let i = choose|i: int| 0 <= i < keys.len() && keys[i] == k;
            assert(t[i] == (name, k));
        }
    }
}

/// What a removal does: the providers that stay, and the store entries to clear.
pub struct RemovalPlan {
    pub kept: Vec<ProviderConfig>,
    pub deletions: Vec<(String, String)>,
}

/// Model of a list of store entries.
pub open spec fn targets_view(t: Seq<(String, String)>) -> Seq<(Seq<char>, Seq<char>)> {
    t.map_values(|d: (String, String)| (d.0@, d.1@))
}

/// Plans the removal of the providers named `name`: the providers with other
/// names, and the store entries of [`removal_targets`].
pub fn plan_removal(providers: &Vec<ProviderConfig>, name: &str) -> (r: RemovalPlan)
    ensures
        providers_view(r.kept@) == without_name(providers_view(providers@), name@),
        targets_view(r.deletions@) == removal_targets(providers_view(providers@), name@),
{
    let ghost ps = providers_view(providers@);
    let mut deletions: Vec<(String, String)> = Vec::new();
    match position_of_name(providers, name) {
        Some(i) => {
            let keys = secret_keys(&providers[i]);
            let ghost ks = keys@.map_values(|s: String| s@);
            let n = keys.len();
            for j in 0..n
                invariant
                    n == keys@.len(),
                    ks == keys@.map_values(|s: String| s@),
                    targets_view(deletions@) == ks.take(j as int).map_values(|k: Seq<char>| (name@, k)),
            {
                let ghost before = targets_view(deletions@);
                deletions.push((String::from_str(name), keys[j].clone()));
                assert(ks.take(j + 1) =~= ks.take(j as int).push(ks[j as int]));
                assert(targets_view(deletions@) =~= before.push((name@, ks[j as int])));
                assert(ks.take(j + 1).map_values(|k: Seq<char>| (name@, k)) =~= ks.take(j as int).map_values(
                    |k: Seq<char>| (name@, k),
                ).push((name@, ks[j as int])));
            }
            assert(ks.take(n as int) =~= ks);
            assert(ps[i as int] == providers@[i as int]@);
        },
        None => {
            assert(targets_view(deletions@) =~= Seq::<(Seq<char>, Seq<char>)>::empty());
        },
    }
    let kept = providers_without_name(providers, name);
    RemovalPlan { kept, deletions }
}

/// Clears the listed store entries, ignoring failures.
fn delete_entries(entries: &Vec<(String, String)>) {
    let n = entries.len();
    for i in 0..n
        invariant
            n == entries@.len(),
    {
        delete_secret(entries[i].0.as_str(), entries[i].1.as_str());
    }
}

/// Removes every provider named `name` and clears the stored secrets of the first
/// of them: the store entries of [`plan_removal`] are cleared, and none is when no
/// provider has that name. Fails, changing nothing, when there is no such provider.
pub fn remove_provider(providers: &mut Vec<ProviderConfig>, name: &str) -> (r: Result<String, String>)
    ensures
        providers_view(final(providers)@) == without_name(providers_view(old(providers)@), name@),
        r is Ok <==> name_position(providers_view(old(providers)@), name@) >= 0,
        r matches Ok(m) ==> m@ == "Removed '"@ + name@ + "'."@,
        r matches Err(m) ==> m@ == "Provider '"@ + name@ + "' was not found."@,
{
    let ghost old_ps = providers_view(providers@);
    let RemovalPlan { kept, deletions } = plan_removal(providers, name);
    let before = providers.len();
    *providers = kept;
    proof {
        lemma_without_name(old_ps, name@);
        lemma_name_position(old_ps, name@);
        if name_position(old_ps, name@) >= 0 {
            assert(old_ps[name_position(old_ps, name@)].name == name@);
        }
    }
    if providers.len() < before {
        delete_entries(&deletions);
        let mut msg = String::from_str("Removed '");
        msg.append(name);
        msg.append("'.");
        Ok(msg)
    } else {
        let mut msg = String::from_str("Provider '");
        msg.append(name);
        msg.append("' was not found.");
        Err(msg)
    }
}

/// Text reported after a toggle.
pub open spec fn toggle_text(name: Seq<char>, enabled: bool, found: bool) -> Seq<char> {
    if found {
        "Provider '"@ + name + "' is now "@ + (if enabled {
            "ON"@
        } else {
            "OFF"@
        }) + "."@
    } else {
        "Provider '"@ + name + "' was not found."@
    }
}

/// Switches the first provider named `provider_name` on or off and reports the outcome.
pub fn toggle_provider(providers: &mut [ProviderConfig], provider_name: &str, enabled: bool) -> (r: String)
    ensures
        ({
            let ps = providers_view(old(providers)@);
            let p = name_position(ps, provider_name@);
            &&& r@ == toggle_text(provider_name@, enabled, p >= 0)
            &&& p >= 0 ==> providers_view(final(providers)@) == ps.update(p, with_enabled(ps[p], enabled))
            &&& p < 0 ==> final(providers)@ == old(providers)@
        }),
{
    let found = set_provider_enabled(providers, provider_name, enabled);
    let mut msg = String::from_str("Provider '");
    msg.append(provider_name);
    if found {
        msg.append("' is now ");
        if enabled {
            msg.append("ON");
        } else {
            msg.append("OFF");
        }
        msg.append(".");
    } else {
        msg.append("' was not found.");
    }
    msg
}

/// Removes the stored secret of `env_key` of `provider_name` and confirms it.
pub fn clear_provider_secret(provider_name: &str, env_key: &str) -> (r: Result<String, String>)
    ensures
        r matches Ok(m) && m@ == "Cleared stored secret for "@ + provider_name@ + " / "@ + env_key@ + "."@,
{
    delete_secret(provider_name, env_key);
    let mut msg = String::from_str("Cleared stored secret for ");
    msg.append(provider_name);
    msg.append(" / ");
    msg.append(env_key);
    msg.append(".");
    Ok(msg)
}

/// The status line shown for secret storage.
pub fn secret_status_message() -> (r: String)
    ensures
        r@ == "Session mode active. API keys are stored in the OS keychain (Keychain / Credential Manager / Secret Service), not in app memory or plain config files."@,
{
    String::from_str(
        "Session mode active. API keys are stored in the OS keychain (Keychain / Credential Manager / Secret Service), not in app memory or plain config files.",
    )
}

/// Providers not named `n` are all kept by `without_name`.
proof fn lemma_without_name_keeps_others(ps: Seq<ProviderView>, n: Seq<char>, i: int)
    requires
        0 <= i < ps.len(),
        ps[i].name != n,
    ensures
        without_name(ps, n).contains(ps[i]),
    decreases ps.len(),
{
    let d = ps.drop_last();
    if i == ps.len() - 1 {
        assert(without_name(ps, n).last() == ps[i]);
    } else {
        lemma_without_name_keeps_others(d, n, i);
        assert(d[i] == ps[i]);
        let w = without_name(d, n);
        let k = choose|k: int| 0 <= k < w.len() && w[k] == ps[i];
        if ps.last().name != n {
            assert(without_name(ps, n)[k] == ps[i]);
        }
    }
}

/// Removing the providers named `n` leaves none of that name, keeps every other
/// provider, and adds none.
pub proof fn law_remove_drops_exactly_the_name(ps: Seq<ProviderView>, n: Seq<char>)
    ensures
        name_position(without_name(ps, n), n) == -1,
        forall|i: int| 0 <= i < ps.len() && ps[i].name != n ==> without_name(ps, n).contains(#[trigger] ps[i]),
        forall|i: int| 0 <= i < without_name(ps, n).len() ==> ps.contains(#[trigger] without_name(ps, n)[i]),
{
    lemma_without_name(ps, n);
    lemma_name_position_absent(without_name(ps, n), n);
    assert forall|i: int| 0 <= i < ps.len() && ps[i].name != n implies without_name(ps, n).contains(#[trigger] ps[i]) by {
        lemma_without_name_keeps_others(ps, n, i);
    }
}

/// After an upsert, looking the provider up by name finds the stored configuration.
pub proof fn law_upsert_finds_synced(ps: Seq<ProviderView>, cfg: ProviderView)
    ensures
        name_position(replace_or_push(ps, cfg), cfg.name) >= 0,
        replace_or_push(ps, cfg)[name_position(replace_or_push(ps, cfg), cfg.name)] == cfg,
{
    lemma_name_position(ps, cfg.name);
    let p = name_position(ps, cfg.name);
    let r = replace_or_push(ps, cfg);
    if p >= 0 {
        lemma_name_position_at(r, cfg.name, p);
    } else {
        lemma_name_position_at(r, cfg.name, ps.len() as int);
    }
}

/// Enabling or disabling a provider, an upsert (finished or stopped by a refused
/// write) and a removal all keep provider names unique.
pub proof fn law_names_stay_unique(
    ps: Seq<ProviderView>,
    n: Seq<char>,
    enabled: bool,
    original_name: Option<Seq<char>>,
    key: Seq<char>,
)
    requires
        names_unique(ps),
    ensures
        name_position(ps, n) >= 0 ==> names_unique(ps.update(name_position(ps, n), with_enabled(ps[name_position(ps, n)], enabled))),
        names_unique(without_name(ps, n)),
        names_unique(after_rename(ps, original_name, n)),
        names_unique(replace_or_push(after_rename(ps, original_name, n), synced_provider(n, key, enabled))),
{
    lemma_name_position(ps, n);
    lemma_names_unique_without(ps, n);
    match original_name {
        Some(o) => {
            lemma_names_unique_without(ps, o);
        },
        None => {},
    }
    let a = after_rename(ps, original_name, n);
    lemma_name_position(a, n);
}

proof fn lemma_names_unique_without(ps: Seq<ProviderView>, n: Seq<char>)
    requires
        names_unique(ps),
    ensures
        names_unique(without_name(ps, n)),
    decreases ps.len(),
{
    if ps.len() > 0 {
        let d = ps.drop_last();
        assert(names_unique(d)) by {
            assert forall|i: int, j: int| 0 <= i < d.len() && 0 <= j < d.len() && i != j implies d[i].name != d[j].name by {
                assert(d[i] == ps[i] && d[j] == ps[j]);
            }
        }
        lemma_names_unique_without(d, n);
        lemma_without_name(d, n);
        if ps.last().name != n {
            let w = without_name(d, n);
            assert forall|i: int| 0 <= i < w.len() implies #[trigger] w[i].name != ps.last().name by {
                assert(d.contains(w[i]));
                let k = choose|k: int| 0 <= k < d.len() && d[k] == w[i];
                assert(ps[k] == d[k]);
            }
        }
    }
}

/// Enabling or disabling a provider, an upsert (finished or stopped by a refused
/// write) and a removal never bring a secret value into the provider list.
pub proof fn law_secrets_stay_cleared(
    ps: Seq<ProviderView>,
    n: Seq<char>,
    enabled: bool,
    original_name: Option<Seq<char>>,
    key: Seq<char>,
)
    requires
        secrets_cleared(ps),
    ensures
        name_position(ps, n) >= 0 ==> secrets_cleared(ps.update(name_position(ps, n), with_enabled(ps[name_position(ps, n)], enabled))),
        secrets_cleared(without_name(ps, n)),
        secrets_cleared(after_rename(ps, original_name, n)),
        secrets_cleared(replace_or_push(after_rename(ps, original_name, n), synced_provider(n, key, enabled))),
{
    lemma_name_position(ps, n);
    lemma_secrets_cleared_without(ps, n);
    match original_name {
        Some(o) => {
            lemma_secrets_cleared_without(ps, o);
        },
        None => {},
    }
    let a = after_rename(ps, original_name, n);
    lemma_name_position(a, n);
    let r = replace_or_push(a, synced_provider(n, key, enabled));
    assert forall|i: int, j: int|
        0 <= i < r.len() && 0 <= j < r[i].variables.len() && #[trigger] r[i].variables[j].is_secret implies r[i].variables[j].value.len()
        == 0 by {
        if i < a.len() && a[i] == r[i] {
            assert(a[i].variables[j].is_secret);
        }
    }
}

proof fn lemma_secrets_cleared_without(ps: Seq<ProviderView>, n: Seq<char>)
    requires
        secrets_cleared(ps),
    ensures
        secrets_cleared(without_name(ps, n)),
{
    lemma_without_name(ps, n);
    let w = without_name(ps, n);
    assert forall|i: int, j: int|
        0 <= i < w.len() && 0 <= j < w[i].variables.len() && #[trigger] w[i].variables[j].is_secret implies w[i].variables[j].value.len()
        == 0 by {
        assert(ps.contains(w[i]));
        let k = choose|k: int| 0 <= k < ps.len() && ps[k] == w[i];
        assert(ps[k].variables[j].is_secret);
    }
}

} // verus!
