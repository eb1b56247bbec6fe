//! Shared domain types: environment variables, profiles and provider configurations.
use vstd::prelude::*;

verus! {

/// One environment variable, possibly marked as secret.
#[derive(Debug, Clone, PartialEq, Eq)]
pub struct EnvVariable {
    pub key: String,
    pub value: String,
    pub is_secret: bool,
}

/// A named set of variables layered over the base environment.
#[derive(Debug, Clone, PartialEq, Eq)]
pub struct Profile {
    pub name: String,
    pub variables: Vec<EnvVariable>,
}

/// A credential provider that contributes variables while it is enabled.
#[derive(Debug, Clone, PartialEq, Eq)]
pub struct ProviderConfig {
    pub name: String,
    pub enabled: bool,
    pub variables: Vec<EnvVariable>,
}

/// Mathematical model of an [`EnvVariable`].
pub struct EnvVarView {
    pub key: Seq<char>,
    pub value: Seq<char>,
    pub is_secret: bool,
}

/// Mathematical model of a [`Profile`].
pub struct ProfileView {
    pub name: Seq<char>,
    pub variables: Seq<EnvVarView>,
}

/// Mathematical model of a [`ProviderConfig`].
pub struct ProviderView {
    pub name: Seq<char>,
    pub enabled: bool,
    pub variables: Seq<EnvVarView>,
}

/// The models of a sequence of variables, in order.
pub open spec fn vars_view(vars: Seq<EnvVariable>) -> Seq<EnvVarView> {
    vars.map_values(|v: EnvVariable| v@)
}

/// The models of a sequence of providers, in order.
pub open spec fn providers_view(ps: Seq<ProviderConfig>) -> Seq<ProviderView> {
    ps.map_values(|p: ProviderConfig| p@)
}

impl View for EnvVariable {
    type V = EnvVarView;

    open spec fn view(&self) -> EnvVarView {
        EnvVarView { key: self.key@, value: self.value@, is_secret: self.is_secret }
    }
}

impl View for Profile {
    type V = ProfileView;

    open spec fn view(&self) -> ProfileView {
        ProfileView { name: self.name@, variables: vars_view(self.variables@) }
    }
}

impl View for ProviderConfig {
    type V = ProviderView;

    open spec fn view(&self) -> ProviderView {
        ProviderView { name: self.name@, enabled: self.enabled, variables: vars_view(self.variables@) }
    }
}

impl EnvVariable {
    /// A field-by-field copy whose model equals the original's.
    pub fn copied(&self) -> (r: EnvVariable)
        ensures
            r@ == self@,
    {
        EnvVariable { key: self.key.clone(), value: self.value.clone(), is_secret: self.is_secret }
    }
}

/// Copies a list of variables, keeping order and every field.
pub fn copy_vars(vars: &[EnvVariable]) -> (r: Vec<EnvVariable>)
    ensures
        vars_view(r@) == vars_view(vars@),
{
    let mut out: Vec<EnvVariable> = Vec::new();
    let n = vars.len();
    for i in 0..n
        invariant
            n == vars@.len(),
            out@.len() == i,
            forall|j: int| 0 <= j < i ==> #[trigger] out@[j]@ == vars@[j]@,
    {
        out.push(vars[i].copied());
    }
    assert(vars_view(out@) =~= vars_view(vars@));
    out
}

impl ProviderConfig {
    /// A deep copy whose model equals the original's.
    pub fn copied(&self) -> (r: ProviderConfig)
        ensures
            r@ == self@,
    {
        ProviderConfig {
            name: self.name.clone(),
            enabled: self.enabled,
            variables: copy_vars(self.variables.as_slice()),
        }
    }
}

impl Profile {
    /// A deep copy whose model equals the original's.
    pub fn copied(&self) -> (r: Profile)
        ensures
            r@ == self@,
    {
        Profile { name: self.name.clone(), variables: copy_vars(self.variables.as_slice()) }
    }
}

} // verus!
