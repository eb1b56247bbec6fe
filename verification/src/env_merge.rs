//! Layering of environment variables: a profile over the base environment, then
//! every enabled provider in order. A later layer replaces the first variable
//! with the same key; a key not seen before is appended.
use vstd::prelude::*;
use crate::models::{copy_vars, providers_view, vars_view, EnvVarView, EnvVariable, Profile, ProfileView, ProviderConfig, ProviderView};
use crate::text::text_eq;

verus! {

/// Index of the first variable with key `k` in `s`, or -1 when there is none.
pub open spec fn key_position(s: Seq<EnvVarView>, k: Seq<char>) -> int
    decreases s.len(),
{
    if s.len() == 0 {
        -1
    } else if s[0].key == k {
        0
    } else {
        let p = key_position(s.drop_first(), k);
        if p < 0 {
            -1
        } else {
            p + 1
        }
    }
}

/// The first variable with key `k`, if any: the value a lookup of `k` sees.
pub open spec fn lookup_key(s: Seq<EnvVarView>, k: Seq<char>) -> Option<EnvVarView> {
    let p = key_position(s, k);
    if p >= 0 {
        Some(s[p])
    } else {
        None
    }
}

/// The last variable with key `k` in `s`, if any.
pub open spec fn last_with_key(s: Seq<EnvVarView>, k: Seq<char>) -> Option<EnvVarView>
    decreases s.len(),
{
    if s.len() == 0 {
        None
    } else if s.last().key == k {
        Some(s.last())
    } else {
        last_with_key(s.drop_last(), k)
    }
}

/// Sets one variable: replaces the first one with the same key, or appends it.
pub open spec fn upsert_var(s: Seq<EnvVarView>, v: EnvVarView) -> Seq<EnvVarView> {
    let p = key_position(s, v.key);
    if p >= 0 {
        s.update(p, v)
    } else {
        s.push(v)
    }
}

/// Applies `overrides` one after the other on top of `base`.
pub open spec fn merge_vars(base: Seq<EnvVarView>, overrides: Seq<EnvVarView>) -> Seq<EnvVarView>
    decreases overrides.len(),
{
    if overrides.len() == 0 {
        base
    } else {
        upsert_var(merge_vars(base, overrides.drop_last()), overrides.last())
    }
}

/// Applies the variables of each enabled provider, in order, on top of `base`.
pub open spec fn apply_providers(base: Seq<EnvVarView>, ps: Seq<ProviderView>) -> Seq<EnvVarView>
    decreases ps.len(),
{
    if ps.len() == 0 {
        base
    } else {
        let b = apply_providers(base, ps.drop_last());
        if ps.last().enabled {
            merge_vars(b, ps.last().variables)
        } else {
            b
        }
    }
}

/// The variables of the enabled providers, concatenated in provider order.
pub open spec fn enabled_vars(ps: Seq<ProviderView>) -> Seq<EnvVarView>
    decreases ps.len(),
{
    if ps.len() == 0 {
        Seq::empty()
    } else if ps.last().enabled {
        enabled_vars(ps.drop_last()) + ps.last().variables
    } else {
        enabled_vars(ps.drop_last())
    }
}

/// The environment of a session: the profile over the system environment, then
/// the enabled providers.
pub open spec fn effective_env(
    system: Seq<EnvVarView>,
    profile: ProfileView,
    ps: Seq<ProviderView>,
) -> Seq<EnvVarView> {
    apply_providers(merge_vars(system, profile.variables), ps)
}

/// No two variables of `s` share a key.
pub open spec fn keys_unique(s: Seq<EnvVarView>) -> bool {
    forall|i: int, j: int| 0 <= i < s.len() && 0 <= j < s.len() && i != j ==> s[i].key != s[j].key
}

/// Index of the first provider named `n`, or -1 when there is none.
pub open spec fn name_position(ps: Seq<ProviderView>, n: Seq<char>) -> int
    decreases ps.len(),
{
    if ps.len() == 0 {
        -1
    } else if ps[0].name == n {
        0
    } else {
        let p = name_position(ps.drop_first(), n);
        if p < 0 {
            -1
        } else {
            p + 1
        }
    }
}

/// `p` with its `enabled` flag set to `enabled`.
pub open spec fn with_enabled(p: ProviderView, enabled: bool) -> ProviderView {
    ProviderView { name: p.name, enabled, variables: p.variables }
}

/// `key_position` is the first index holding the key.
pub proof fn lemma_key_position(s: Seq<EnvVarView>, k: Seq<char>)
    ensures
        -1 <= key_position(s, k) < s.len(),
        key_position(s, k) >= 0 ==> s[key_position(s, k)].key == k,
        key_position(s, k) >= 0 ==> forall|j: int| 0 <= j < key_position(s, k) ==> s[j].key != k,
        key_position(s, k) == -1 ==> forall|j: int| 0 <= j < s.len() ==> s[j].key != k,
    decreases s.len(),
{
    if s.len() > 0 {
        lemma_key_position(s.drop_first(), k);
        let p = key_position(s.drop_first(), k);
        if s[0].key != k && p == -1 {
            assert forall|j: int| 0 <= j < s.len() implies s[j].key != k by {
                if j > 0 {
                    assert(s[j] == s.drop_first()[j - 1]);
                }
            }
        }
        if s[0].key != k && p >= 0 {
            assert forall|j: int| 0 <= j < p + 1 implies s[j].key != k by {
                if j > 0 {
                    assert(s[j] == s.drop_first()[j - 1]);
                }
            }
        }
    }
}

/// The first index holding key `k` is `key_position(s, k)`.
pub proof fn lemma_key_position_at(s: Seq<EnvVarView>, k: Seq<char>, i: int)
    requires
        0 <= i < s.len(),
        s[i].key == k,
        forall|j: int| 0 <= j < i ==> s[j].key != k,
    ensures
        key_position(s, k) == i,
{
    lemma_key_position(s, k);
}

/// A key held nowhere has position -1.
pub proof fn lemma_key_position_absent(s: Seq<EnvVarView>, k: Seq<char>)
    requires
        forall|j: int| 0 <= j < s.len() ==> s[j].key != k,
    ensures
        key_position(s, k) == -1,
{
    lemma_key_position(s, k);
    if key_position(s, k) >= 0 {
        assert(s[key_position(s, k)].key == k);
    }
}

/// `name_position` is the first index holding the name.
pub proof fn lemma_name_position(ps: Seq<ProviderView>, n: Seq<char>)
    ensures
        -1 <= name_position(ps, n) < ps.len(),
        name_position(ps, n) >= 0 ==> ps[name_position(ps, n)].name == n,
        name_position(ps, n) >= 0 ==> forall|j: int| 0 <= j < name_position(ps, n) ==> ps[j].name != n,
        name_position(ps, n) == -1 ==> forall|j: int| 0 <= j < ps.len() ==> ps[j].name != n,
    decreases ps.len(),
{
    if ps.len() > 0 {
        lemma_name_position(ps.drop_first(), n);
        let p = name_position(ps.drop_first(), n);
        if ps[0].name != n && p == -1 {
            assert forall|j: int| 0 <= j < ps.len() implies ps[j].name != n by {
                if j > 0 {
                    assert(ps[j] == ps.drop_first()[j - 1]);
                }
            }
        }
        if ps[0].name != n && p >= 0 {
            assert forall|j: int| 0 <= j < p + 1 implies ps[j].name != n by {
                if j > 0 {
                    assert(ps[j] == ps.drop_first()[j - 1]);
                }
            }
        }
    }
}

/// The first index holding name `n` is `name_position(ps, n)`.
pub proof fn lemma_name_position_at(ps: Seq<ProviderView>, n: Seq<char>, i: int)
    requires
        0 <= i < ps.len(),
        ps[i].name == n,
        forall|j: int| 0 <= j < i ==> ps[j].name != n,
    ensures
        name_position(ps, n) == i,
{
    lemma_name_position(ps, n);
    if name_position(ps, n) >= 0 {
        assert(ps[name_position(ps, n)].name == n);
    }
}

/// A name held nowhere has position -1.
pub proof fn lemma_name_position_absent(ps: Seq<ProviderView>, n: Seq<char>)
    requires
        forall|j: int| 0 <= j < ps.len() ==> ps[j].name != n,
    ensures
        name_position(ps, n) == -1,
{
    lemma_name_position(ps, n);
    if name_position(ps, n) >= 0 {
        assert(ps[name_position(ps, n)].name == n);
    }
}

/// Index of the first variable whose key is `key`.
fn find_key_index(vars: &Vec<EnvVariable>, key: &str) -> (r: Option<usize>)
    ensures
        match r {
            Some(i) => i == key_position(vars_view(vars@), key@),
            None => key_position(vars_view(vars@), key@) == -1,
        },
{
    let ghost s = vars_view(vars@);
    let n = vars.len();
    for i in 0..n
        invariant
            n == vars@.len(),
            s == vars_view(vars@),
            forall|j: int| 0 <= j < i ==> s[j].key != key@,
    {
        if text_eq(vars[i].key.as_str(), key) {
            proof {
                lemma_key_position_at(s, key@, i as int);
            }
            return Some(i);
        }
    }
    proof {
        lemma_key_position_absent(s, key@);
    }
    None
}

/// Sets `var` in `merged`: replaces the first variable with its key, or appends it.
fn upsert_variable(merged: &mut Vec<EnvVariable>, var: &EnvVariable)
    ensures
        vars_view(final(merged)@) == upsert_var(vars_view(old(merged)@), var@),
{
    proof {
        lemma_key_position(vars_view(merged@), var@.key);
    }
    match find_key_index(merged, var.key.as_str()) {
        Some(i) => {
            merged.set(i, var.copied());
            assert(vars_view(merged@) =~= vars_view(old(merged)@).update(i as int, var@));
        },
        None => {
            merged.push(var.copied());
            assert(vars_view(merged@) =~= vars_view(old(merged)@).push(var@));
        },
    }
}

/// Applies `overrides` in order on top of `merged`.
fn apply_overrides(merged: &mut Vec<EnvVariable>, overrides: &Vec<EnvVariable>)
    ensures
        vars_view(final(merged)@) == merge_vars(vars_view(old(merged)@), vars_view(overrides@)),
{
    let ghost base = vars_view(merged@);
    let ghost ov = vars_view(overrides@);
    let n = overrides.len();
    for i in 0..n
        invariant
            n == overrides@.len(),
            ov == vars_view(overrides@),
            vars_view(merged@) == merge_vars(base, ov.take(i as int)),
    {
        upsert_variable(merged, &overrides[i]);
        assert(ov.take(i + 1).drop_last() =~= ov.take(i as int));
    }
    assert(ov.take(n as int) =~= ov);
}

/// The profile's variables layered over `base`: each profile variable replaces the
/// first base variable with the same key, or is appended when the key is new.
pub fn merge_profile_variables(base: &[EnvVariable], profile: &Profile) -> (r: Vec<EnvVariable>)
    ensures
        vars_view(r@) == merge_vars(vars_view(base@), profile@.variables),
{
    let mut merged = copy_vars(base);
    apply_overrides(&mut merged, &profile.variables);
    merged
}

/// The environment of a session: the profile over the system environment, then
/// the variables of every enabled provider, in provider order. Disabled providers
/// contribute nothing.
pub fn build_effective_session_env(
    system_env: &[EnvVariable],
    profile: &Profile,
    providers: &[ProviderConfig],
) -> (r: Vec<EnvVariable>)
    ensures
        vars_view(r@) == effective_env(vars_view(system_env@), profile@, providers_view(providers@)),
{
    let mut merged = merge_profile_variables(system_env, profile);
    let ghost base = vars_view(merged@);
    let ghost ps = providers_view(providers@);
    let n = providers.len();
    for i in 0..n
        invariant
            n == providers@.len(),
            ps == providers_view(providers@),
            vars_view(merged@) == apply_providers(base, ps.take(i as int)),
    {
        assert(ps.take(i + 1).drop_last() =~= ps.take(i as int));
        if providers[i].enabled {
            apply_overrides(&mut merged, &providers[i].variables);
        }
    }
    assert(ps.take(n as int) =~= ps);
    merged
}

/// Sets the `enabled` flag of the first provider named `provider_name`; returns
/// whether there was one. Every other provider, and every other field, is unchanged.
pub fn set_provider_enabled(providers: &mut [ProviderConfig], provider_name: &str, enabled: bool) -> (r: bool)
    ensures
        r == (name_position(providers_view(old(providers)@), provider_name@) >= 0),
        r ==> providers_view(final(providers)@) == providers_view(old(providers)@).update(
            name_position(providers_view(old(providers)@), provider_name@),
            with_enabled(
                providers_view(old(providers)@)[name_position(providers_view(old(providers)@), provider_name@)],
                enabled,
            ),
        ),
        !r ==> final(providers)@ == old(providers)@,
        final(providers)@.len() == old(providers)@.len(),
        forall|i: int|
            0 <= i < old(providers)@.len() && i != name_position(providers_view(old(providers)@), provider_name@)
                ==> #[trigger] final(providers)@[i]@ == old(providers)@[i]@,
        r ==> ({
            let p = name_position(providers_view(old(providers)@), provider_name@);
            &&& final(providers)@[p]@.name == old(providers)@[p]@.name
            &&& final(providers)@[p]@.name == provider_name@
            &&& final(providers)@[p]@.variables == old(providers)@[p]@.variables
            &&& final(providers)@[p]@.enabled == enabled
        }),
{
    let ghost ps = providers_view(providers@);
    let n = providers.len();
    for i in 0..n
        invariant
            n == providers@.len(),
            ps == providers_view(providers@),
            providers@ == old(providers)@,
            forall|j: int| 0 <= j < i ==> ps[j].name != provider_name@,
    {
        if text_eq(providers[i].name.as_str(), provider_name) {
            proof {
                lemma_name_position(ps, provider_name@);
            }
            providers[i].enabled = enabled;
            assert(providers_view(providers@) =~= ps.update(i as int, with_enabled(ps[i as int], enabled)));
            return true;
        }
    }
    proof {
        lemma_name_position(ps, provider_name@);
        if name_position(ps, provider_name@) >= 0 {
            assert(ps[name_position(ps, provider_name@)].name == provider_name@);
        }
    }
    false
}

/// Switching a provider on or off changes its flag and nothing else: its name and
/// its variables stay as they were, whichever way it is switched; switching it back
/// gives the provider it was; and switching it twice is switching it once.
pub proof fn law_toggle_keeps_provider_contents(p: ProviderView, enabled: bool, again: bool)
    ensures
        with_enabled(p, enabled).name == p.name,
        with_enabled(p, enabled).variables == p.variables,
        with_enabled(p, enabled).enabled == enabled,
        with_enabled(with_enabled(p, enabled), p.enabled) == p,
        with_enabled(with_enabled(p, enabled), again) == with_enabled(p, again),
        with_enabled(p, p.enabled) == p,
{
}

/// The precedence of the three layers: the last enabled-provider variable with the
/// key, else the last profile variable with it, else the first system variable.
pub open spec fn layered_lookup(
    system: Seq<EnvVarView>,
    profile: ProfileView,
    ps: Seq<ProviderView>,
    k: Seq<char>,
) -> Option<EnvVarView> {
    match last_with_key(enabled_vars(ps), k) {
        Some(v) => Some(v),
        None => match last_with_key(profile.variables, k) {
            Some(v) => Some(v),
            None => lookup_key(system, k),
        },
    }
}

/// Setting a variable: a lookup of its key then sees it, and a lookup of any other
/// key sees what it saw before.
pub proof fn law_upsert_lookup(s: Seq<EnvVarView>, v: EnvVarView, k: Seq<char>)
    ensures
        lookup_key(upsert_var(s, v), k) == (if k == v.key {
            Some(v)
        } else {
            lookup_key(s, k)
        }),
{
    let t = upsert_var(s, v);
    let p = key_position(s, v.key);
    lemma_key_position(s, v.key);
    lemma_key_position(s, k);
    lemma_key_position(t, k);
    let q = key_position(s, k);
    let q2 = key_position(t, k);
    if p >= 0 {
        assert forall|j: int| 0 <= j < s.len() implies t[j].key == s[j].key by {}
        if q >= 0 {
            assert(t[q].key == k);
            lemma_key_position_at(t, k, q);
        } else {
            lemma_key_position_absent(t, k);
        }
    } else {
        if k == v.key {
            assert(t[s.len() as int].key == k);
            lemma_key_position_at(t, k, s.len() as int);
        } else if q >= 0 {
            lemma_key_position_at(t, k, q);
        } else {
            lemma_key_position_absent(t, k);
        }
    }
}

/// Later layers win: a lookup in `base` overridden by `overrides` sees the last
/// override with the key, or else what `base` shows for it.
pub proof fn law_merge_lookup(base: Seq<EnvVarView>, overrides: Seq<EnvVarView>, k: Seq<char>)
    ensures
        lookup_key(merge_vars(base, overrides), k) == (match last_with_key(overrides, k) {
            Some(v) => Some(v),
            None => lookup_key(base, k),
        }),
    decreases overrides.len(),
{
    if overrides.len() > 0 {
        law_merge_lookup(base, overrides.drop_last(), k);
        law_upsert_lookup(merge_vars(base, overrides.drop_last()), overrides.last(), k);
    }
}

/// Overriding with `x` and then with `y` is overriding with `x` followed by `y`.
pub proof fn law_merge_append(base: Seq<EnvVarView>, x: Seq<EnvVarView>, y: Seq<EnvVarView>)
    ensures
        merge_vars(base, x + y) == merge_vars(merge_vars(base, x), y),
    decreases y.len(),
{
    if y.len() == 0 {
        assert(x + y =~= x);
    } else {
        law_merge_append(base, x, y.drop_last());
        assert((x + y).drop_last() =~= x + y.drop_last());
        assert((x + y).last() == y.last());
    }
}

/// Applying the providers is overriding with the variables of the enabled ones.
pub proof fn law_apply_providers_is_merge(base: Seq<EnvVarView>, ps: Seq<ProviderView>)
    ensures
        apply_providers(base, ps) == merge_vars(base, enabled_vars(ps)),
    decreases ps.len(),
{
    if ps.len() > 0 {
        law_apply_providers_is_merge(base, ps.drop_last());
        if ps.last().enabled {
            law_merge_append(base, enabled_vars(ps.drop_last()), ps.last().variables);
        }
    }
}

/// An enabled provider overrides the profile and the system environment, and the
/// profile overrides the system environment.
pub proof fn law_effective_precedence(
    system: Seq<EnvVarView>,
    profile: ProfileView,
    ps: Seq<ProviderView>,
    k: Seq<char>,
)
    ensures
        lookup_key(effective_env(system, profile, ps), k) == layered_lookup(system, profile, ps, k),
{
    let b = merge_vars(system, profile.variables);
    law_apply_providers_is_merge(b, ps);
    law_merge_lookup(b, enabled_vars(ps), k);
    law_merge_lookup(system, profile.variables, k);
}

/// A disabled provider takes no effect: removing it leaves the session unchanged.
pub proof fn law_disabled_provider_has_no_effect(
    system: Seq<EnvVarView>,
    profile: ProfileView,
    ps: Seq<ProviderView>,
    i: int,
)
    requires
        0 <= i < ps.len(),
        !ps[i].enabled,
    ensures
        effective_env(system, profile, ps.remove(i)) == effective_env(system, profile, ps),
{
    let b = merge_vars(system, profile.variables);
    lemma_enabled_vars_remove_disabled(ps, i);
    law_apply_providers_is_merge(b, ps);
    law_apply_providers_is_merge(b, ps.remove(i));
}

proof fn lemma_enabled_vars_remove_disabled(ps: Seq<ProviderView>, i: int)
    requires
        0 <= i < ps.len(),
        !ps[i].enabled,
    ensures
        enabled_vars(ps.remove(i)) == enabled_vars(ps),
    decreases ps.len(),
{
    if i == ps.len() - 1 {
        assert(ps.remove(i) =~= ps.drop_last());
    } else {
        lemma_enabled_vars_remove_disabled(ps.drop_last(), i);
        assert(ps.remove(i).drop_last() =~= ps.drop_last().remove(i));
        assert(ps.remove(i).last() == ps.last());
    }
}

/// Setting a variable keeps every existing key in place and adds at most one entry.
proof fn lemma_upsert_keeps_positions(s: Seq<EnvVarView>, v: EnvVarView)
    ensures
        s.len() <= upsert_var(s, v).len() <= s.len() + 1,
        forall|i: int| 0 <= i < s.len() ==> #[trigger] upsert_var(s, v)[i].key == s[i].key,
        keys_unique(s) ==> keys_unique(upsert_var(s, v)),
{
    lemma_key_position(s, v.key);
}

/// Merging keeps the variables of `base` at their positions (with their keys) and
/// appends at most one entry per override.
pub proof fn law_merge_keeps_base_positions(base: Seq<EnvVarView>, overrides: Seq<EnvVarView>)
    ensures
        base.len() <= merge_vars(base, overrides).len() <= base.len() + overrides.len(),
        forall|i: int| 0 <= i < base.len() ==> #[trigger] merge_vars(base, overrides)[i].key == base[i].key,
    decreases overrides.len(),
{
    if overrides.len() > 0 {
        let m = merge_vars(base, overrides.drop_last());
        law_merge_keeps_base_positions(base, overrides.drop_last());
        lemma_upsert_keeps_positions(m, overrides.last());
        assert forall|i: int| 0 <= i < base.len() implies #[trigger] merge_vars(base, overrides)[i].key
            == base[i].key by {
            assert(m[i].key == base[i].key);
        }
    }
}

/// Merging never introduces a duplicate key.
pub proof fn law_merge_keeps_keys_unique(base: Seq<EnvVarView>, overrides: Seq<EnvVarView>)
    requires
        keys_unique(base),
    ensures
        keys_unique(merge_vars(base, overrides)),
    decreases overrides.len(),
{
    if overrides.len() > 0 {
        law_merge_keeps_keys_unique(base, overrides.drop_last());
        lemma_upsert_keeps_positions(merge_vars(base, overrides.drop_last()), overrides.last());
    }
}

/// Sequences with the same keys at the same positions place every key alike.
proof fn lemma_key_position_same_keys(s: Seq<EnvVarView>, t: Seq<EnvVarView>, k: Seq<char>)
    requires
        s.len() == t.len(),
        forall|i: int| 0 <= i < s.len() ==> #[trigger] s[i].key == t[i].key,
    ensures
        key_position(s, k) == key_position(t, k),
{
    lemma_key_position(s, k);
    lemma_key_position(t, k);
    let p = key_position(s, k);
    if p >= 0 {
        assert(t[p].key == k);
        assert forall|j: int| 0 <= j < p implies t[j].key != k by {
            assert(s[j].key == t[j].key);
        }
        lemma_key_position_at(t, k, p);
    } else {
        assert forall|j: int| 0 <= j < t.len() implies t[j].key != k by {
            assert(s[j].key == t[j].key);
        }
        lemma_key_position_absent(t, k);
    }
}

/// A key held somewhere in `ov` has a last variable there.
proof fn lemma_last_with_key_found(ov: Seq<EnvVarView>, i: int)
    requires
        0 <= i < ov.len(),
    ensures
        last_with_key(ov, ov[i].key) is Some,
    decreases ov.len(),
{
    if i < ov.len() - 1 && ov.last().key != ov[i].key {
        lemma_last_with_key_found(ov.drop_last(), i);
    }
}

/// Overriding with keys that are all present already changes no key and no
/// position that is not the first of its key.
proof fn lemma_merge_present_keys(s: Seq<EnvVarView>, ov: Seq<EnvVarView>)
    requires
        forall|i: int| 0 <= i < ov.len() ==> key_position(s, #[trigger] ov[i].key) >= 0,
    ensures
        merge_vars(s, ov).len() == s.len(),
        forall|q: int| 0 <= q < s.len() ==> #[trigger] merge_vars(s, ov)[q].key == s[q].key,
        forall|q: int| 0 <= q < s.len() && key_position(s, s[q].key) != q ==> #[trigger] merge_vars(s, ov)[q] == s[q],
    decreases ov.len(),
{
    if ov.len() > 0 {
        let d = ov.drop_last();
        assert forall|i: int| 0 <= i < d.len() implies key_position(s, #[trigger] d[i].key) >= 0 by {
            assert(d[i] == ov[i]);
        }
        lemma_merge_present_keys(s, d);
        let t = merge_vars(s, d);
        let v = ov.last();
        assert(key_position(s, ov[ov.len() - 1].key) >= 0);
        lemma_key_position_same_keys(s, t, v.key);
        lemma_key_position(t, v.key);
        let p = key_position(t, v.key);
        assert forall|q: int| 0 <= q < s.len() && key_position(s, s[q].key) != q implies #[trigger] merge_vars(s, ov)[q] == s[q] by {
            if q == p {
                assert(t[q].key == s[q].key);
            }
        }
    }
}

/// Applying the same overrides a second time changes nothing.
pub proof fn law_merge_idempotent(base: Seq<EnvVarView>, overrides: Seq<EnvVarView>)
    ensures
        merge_vars(merge_vars(base, overrides), overrides) == merge_vars(base, overrides),
{
    let m = merge_vars(base, overrides);
    assert forall|i: int| 0 <= i < overrides.len() implies key_position(m, #[trigger] overrides[i].key) >= 0 by {
        lemma_last_with_key_found(overrides, i);
        law_merge_lookup(base, overrides, overrides[i].key);
    }
    lemma_merge_present_keys(m, overrides);
    let r = merge_vars(m, overrides);
    assert forall|q: int| 0 <= q < m.len() implies #[trigger] r[q] == m[q] by {
        let k = m[q].key;
        if key_position(m, k) == q {
            lemma_key_position_same_keys(m, r, k);
            law_merge_lookup(m, overrides, k);
            law_merge_lookup(base, overrides, k);
        }
    }
    assert(r =~= m);
}

/// The enabled providers' variables depend only on the enabled flags and on the
/// variables of enabled providers.
proof fn lemma_enabled_vars_depend_on_enabled_only(ps1: Seq<ProviderView>, ps2: Seq<ProviderView>)
    requires
        ps1.len() == ps2.len(),
        forall|i: int| 0 <= i < ps1.len() ==> #[trigger] ps1[i].enabled == ps2[i].enabled,
        forall|i: int| 0 <= i < ps1.len() && ps1[i].enabled ==> #[trigger] ps1[i].variables == ps2[i].variables,
    ensures
        enabled_vars(ps1) == enabled_vars(ps2),
    decreases ps1.len(),
{
    if ps1.len() > 0 {
        let d1 = ps1.drop_last();
        let d2 = ps2.drop_last();
        assert forall|i: int| 0 <= i < d1.len() implies #[trigger] d1[i].enabled == d2[i].enabled by {
            assert(d1[i] == ps1[i] && d2[i] == ps2[i]);
        }
        assert forall|i: int| 0 <= i < d1.len() && d1[i].enabled implies #[trigger] d1[i].variables == d2[i].variables by {
            assert(d1[i] == ps1[i] && d2[i] == ps2[i]);
        }
        lemma_enabled_vars_depend_on_enabled_only(d1, d2);
        assert(ps1.last().enabled == ps2.last().enabled);
    }
}

/// The session does not depend on the profile's name, on the providers' names, or
/// on the variables of disabled providers.
pub proof fn law_session_ignores_names_and_disabled_providers(
    system: Seq<EnvVarView>,
    profile1: ProfileView,
    profile2: ProfileView,
    ps1: Seq<ProviderView>,
    ps2: Seq<ProviderView>,
)
    requires
        profile1.variables == profile2.variables,
        ps1.len() == ps2.len(),
        forall|i: int| 0 <= i < ps1.len() ==> #[trigger] ps1[i].enabled == ps2[i].enabled,
        forall|i: int| 0 <= i < ps1.len() && ps1[i].enabled ==> #[trigger] ps1[i].variables == ps2[i].variables,
    ensures
        effective_env(system, profile1, ps1) == effective_env(system, profile2, ps2),
{
    let b = merge_vars(system, profile1.variables);
    lemma_enabled_vars_depend_on_enabled_only(ps1, ps2);
    law_apply_providers_is_merge(b, ps1);
    law_apply_providers_is_merge(b, ps2);
}

} // verus!
