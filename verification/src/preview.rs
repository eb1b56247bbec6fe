//! The session preview: the system environment taken as variables, secrets of
//! the providers filled in from the credential store, and a short listing of the
//! API-related variables of the effective environment with secret values masked.
use vstd::prelude::*;
use crate::env_merge::{build_effective_session_env, effective_env, law_session_ignores_names_and_disabled_providers};
use crate::models::{providers_view, vars_view, EnvVarView, EnvVariable, Profile, ProfileView, ProviderConfig, ProviderView};
use crate::providers::location_view;
use crate::secret_store::get_secret;
use crate::text::{
    can_mask, chars_of, contains_chars, has_infix, has_prefix, is_secret_like_key, occurs_at, mask_value, maskable, masked,
    starts_with_chars, looks_like_secret,
};

verus! {

/// Most variables listed in a preview.
pub const PREVIEW_LIMIT: usize = 8;

/// The variable for one `(name, value)` pair of the process environment; it is
/// marked secret when its name looks like a credential.
pub open spec fn system_var(key: Seq<char>, value: Seq<char>) -> EnvVarView {
    EnvVarView { key, value, is_secret: is_secret_like_key(key) }
}

/// Turns the process environment into variables, in order.
pub fn system_env_from_vars(vars: &Vec<(String, String)>) -> (r: Vec<EnvVariable>)
    ensures
        r@.len() == vars@.len(),
        forall|i: int| 0 <= i < vars@.len() ==> #[trigger] r@[i]@ == system_var(vars@[i].0@, vars@[i].1@),
{
    let mut out: Vec<EnvVariable> = Vec::new();
    let n = vars.len();
    for i in 0..n
        invariant
            n == vars@.len(),
            out@.len() == i,
            forall|j: int| 0 <= j < i ==> #[trigger] out@[j]@ == system_var(vars@[j].0@, vars@[j].1@),
    {
        let key = vars[i].0.clone();
        let value = vars[i].1.clone();
        let is_secret = looks_like_secret(key.as_str());
        out.push(EnvVariable { key, value, is_secret });
    }
    out
}

/// A variable with the value read from the store: secret variables take the
/// stored value, or an empty one when nothing was read; others are unchanged.
pub open spec fn with_stored_secret(v: EnvVarView, stored: Option<Seq<char>>) -> EnvVarView {
    if v.is_secret {
        EnvVarView {
            key: v.key,
            value: match stored {
                Some(s) => s,
                None => Seq::empty(),
            },
            is_secret: true,
        }
    } else {
        v
    }
}

/// Fills in one variable from what the store gave for it.
pub fn resolve_variable(var: &mut EnvVariable, stored: Option<String>)
    ensures
        final(var)@ == with_stored_secret(old(var)@, match stored {
            Some(s) => Some(s@),
            None => None,
        }),
{
    if var.is_secret {
        match stored {
            Some(s) => {
                var.value = s;
            },
            None => {
                var.value = String::new();
            },
        }
    }
}

/// `q` is `p` with, at most, other values for its secret variables.
pub open spec fn same_but_secret_values(p: ProviderView, q: ProviderView) -> bool {
    q.name == p.name && q.enabled == p.enabled && q.variables.len() == p.variables.len() && (forall|j: int|
        0 <= j < p.variables.len() ==> same_but_secret_value(p.variables[j], #[trigger] q.variables[j]))
}

/// `w` is `v` with, at most, another value when `v` is secret.
pub open spec fn same_but_secret_value(v: EnvVarView, w: EnvVarView) -> bool {
    w.key == v.key && w.is_secret == v.is_secret && (!v.is_secret ==> w.value == v.value)
}

/// `qs` is `ps` with, at most, other values for secret variables.
pub open spec fn resolved_from(ps: Seq<ProviderView>, qs: Seq<ProviderView>) -> bool {
    qs.len() == ps.len() && forall|i: int| 0 <= i < ps.len() ==> same_but_secret_values(ps[i], #[trigger] qs[i])
}

/// Where the stored value of variable `j` of `p` is read from: the provider's name
/// and the variable's key for a secret variable; nothing for any other variable.
pub open spec fn lookup_target(p: ProviderView, j: int) -> Option<(Seq<char>, Seq<char>)> {
    if p.variables[j].is_secret {
        Some((p.name, p.variables[j].key))
    } else {
        None
    }
}

/// Lists, per provider and per variable, the store entry that fills it.
pub fn secret_lookup_targets(providers: &[ProviderConfig]) -> (r: Vec<Vec<Option<(String, String)>>>)
    ensures
        r@.len() == providers@.len(),
        forall|i: int| 0 <= i < r@.len() ==> #[trigger] r@[i]@.len() == providers@[i].variables@.len(),
        forall|i: int, j: int|
            0 <= i < r@.len() && 0 <= j < r@[i]@.len() ==> location_view(#[trigger] r@[i]@[j]) == lookup_target(
                providers@[i]@,
                j,
            ),
{
    let mut out: Vec<Vec<Option<(String, String)>>> = Vec::new();
    let n = providers.len();
    for i in 0..n
        invariant
            n == providers@.len(),
            out@.len() == i,
            forall|k: int| 0 <= k < i ==> #[trigger] out@[k]@.len() == providers@[k].variables@.len(),
            forall|k: int, j: int|
                0 <= k < i && 0 <= j < out@[k]@.len() ==> location_view(#[trigger] out@[k]@[j]) == lookup_target(
                    providers@[k]@,
                    j,
                ),
    {
        let p = &providers[i];
        let mut row: Vec<Option<(String, String)>> = Vec::new();
        let m = p.variables.len();
        for j in 0..m
            invariant
                m == p.variables@.len(),
                row@.len() == j,
                forall|l: int| 0 <= l < j ==> location_view(#[trigger] row@[l]) == lookup_target(p@, l),
        {
            if p.variables[j].is_secret {
                row.push(Some((p.name.clone(), p.variables[j].key.clone())));
            } else {
                row.push(None);
            }
        }
        out.push(row);
    }
    out
}

/// The models of the store's answers, per provider and per variable.
pub open spec fn answers_view(a: Seq<Vec<Option<String>>>) -> Seq<Seq<Option<Seq<char>>>> {
    a.map_values(
        |row: Vec<Option<String>>|
            row@.map_values(
                |o: Option<String>|
                    match o {
                        Some(s) => Some(s@),
                        None => None,
                    },
            ),
    )
}

/// The answer for variable `j` of provider `i`; none where the list has no entry.
pub open spec fn answer_at(ans: Seq<Seq<Option<Seq<char>>>>, i: int, j: int) -> Option<Seq<char>> {
    if 0 <= i < ans.len() && 0 <= j < ans[i].len() {
        ans[i][j]
    } else {
        None
    }
}

/// Provider `i` with each secret variable `j` filled from answer `(i, j)`.
pub open spec fn fill_provider(p: ProviderView, ans: Seq<Seq<Option<Seq<char>>>>, i: int) -> ProviderView {
    ProviderView {
        name: p.name,
        enabled: p.enabled,
        variables: Seq::new(p.variables.len(), |j: int| with_stored_secret(p.variables[j], answer_at(ans, i, j))),
    }
}

/// Every provider with its secret variables filled from the answers.
pub open spec fn fill_providers(ps: Seq<ProviderView>, ans: Seq<Seq<Option<Seq<char>>>>) -> Seq<ProviderView> {
    Seq::new(ps.len(), |i: int| fill_provider(ps[i], ans, i))
}

/// Copies of the providers whose secret variable `j` of provider `i` takes answer
/// `(i, j)` (an empty value where there is none); other variables are kept.
pub fn fill_secrets(providers: &[ProviderConfig], answers: &Vec<Vec<Option<String>>>) -> (r: Vec<ProviderConfig>)
    ensures
        providers_view(r@) == fill_providers(providers_view(providers@), answers_view(answers@)),
{
    let ghost ps = providers_view(providers@);
    let ghost ans = answers_view(answers@);
    let mut out: Vec<ProviderConfig> = Vec::new();
    let n = providers.len();
    for i in 0..n
        invariant
            n == providers@.len(),
            ps == providers_view(providers@),
            ans == answers_view(answers@),
            out@.len() == i,
            forall|k: int| 0 <= k < i ==> #[trigger] out@[k]@ == fill_provider(ps[k], ans, k),
    {
        let mut p = providers[i].copied();
        let m = p.variables.len();
        for j in 0..m
            invariant
                i < n,
                n == providers@.len(),
                ps == providers_view(providers@),
                ans == answers_view(answers@),
                m == p.variables@.len(),
                p@.name == ps[i as int].name,
                p@.enabled == ps[i as int].enabled,
                p@.variables.len() == ps[i as int].variables.len(),
                forall|l: int| 0 <= l < j ==> #[trigger] p@.variables[l] == with_stored_secret(ps[i as int].variables[l], answer_at(ans, i as int, l)),
                forall|l: int| j <= l < m ==> #[trigger] p@.variables[l] == ps[i as int].variables[l],
        {
            let ghost before = p@;
            let stored: Option<String> = if i < answers.len() && j < answers[i].len() {
                match &answers[i][j] {
                    Some(s) => Some(s.clone()),
                    None => None,
                }
            } else {
                None
            };
            proof {
                assert(before.variables[j as int] == ps[i as int].variables[j as int]);
                if i < answers@.len() && j < answers@[i as int]@.len() {
                    assert(ans[i as int][j as int] == match answers@[i as int]@[j as int] {
                        Some(s) => Some(s@),
                        None => None::<Seq<char>>,
                    });
                }
            }
            resolve_variable(&mut p.variables[j], stored);
            proof {
                assert(p@.variables =~= before.variables.update(j as int, p.variables@[j as int]@));
            }
        }
        proof {
            assert(p@.variables =~= fill_provider(ps[i as int], ans, i as int).variables);
        }
        out.push(p);
    }
    assert(providers_view(out@) =~= fill_providers(ps, ans));
    out
}

/// Filling from any answers keeps everything but secret values.
pub proof fn lemma_fill_resolves(ps: Seq<ProviderView>, ans: Seq<Seq<Option<Seq<char>>>>)
    ensures
        resolved_from(ps, fill_providers(ps, ans)),
{
    assert forall|i: int| 0 <= i < ps.len() implies same_but_secret_values(ps[i], #[trigger] fill_providers(ps, ans)[i]) by {
        let q = fill_providers(ps, ans)[i];
        assert forall|j: int| 0 <= j < ps[i].variables.len() implies same_but_secret_value(ps[i].variables[j], #[trigger] q.variables[j]) by {}
    }
}

/// Copies of the providers with the values of their secret variables read from the
/// store (empty where nothing could be read): the entries of
/// [`secret_lookup_targets`] are read, and [`fill_secrets`] puts answer `(i, j)`
/// into variable `j` of provider `i`. What the store answers is not stated.
pub fn providers_with_resolved_secrets(providers: &[ProviderConfig]) -> (r: Vec<ProviderConfig>)
    ensures
        exists|ans: Seq<Seq<Option<Seq<char>>>>| #[trigger] fill_providers(providers_view(providers@), ans) == providers_view(r@),
        resolved_from(providers_view(providers@), providers_view(r@)),
{
    let targets = secret_lookup_targets(providers);
    let mut answers: Vec<Vec<Option<String>>> = Vec::new();
    let n = targets.len();
    for i in 0..n
        invariant
            n == targets@.len(),
    {
        let mut row: Vec<Option<String>> = Vec::new();
        let m = targets[i].len();
        for j in 0..m
            invariant
                i < n,
                n == targets@.len(),
                m == targets@[i as int]@.len(),
        {
            let answer = match &targets[i][j] {
                Some(t) => get_secret(t.0.as_str(), t.1.as_str()),
                None => None,
            };
            row.push(answer);
        }
        answers.push(row);
    }
    let r = fill_secrets(providers, &answers);
    proof {
        lemma_fill_resolves(providers_view(providers@), answers_view(answers@));
    }
    r
}

/// A key shown in the preview: it contains `API_KEY` or begins with `OPEN`.
pub open spec fn is_api_related(key: Seq<char>) -> bool {
    has_infix(key, seq!['A', 'P', 'I', '_', 'K', 'E', 'Y']) || has_prefix(key, seq!['O', 'P', 'E', 'N'])
}

/// The text `API_KEY`.
pub open spec fn api_key_marker() -> Seq<char> {
    seq!['A', 'P', 'I', '_', 'K', 'E', 'Y']
}

/// The text `OPEN`.
pub open spec fn open_marker() -> Seq<char> {
    seq!['O', 'P', 'E', 'N']
}

/// A key is shown in the preview exactly when `API_KEY` stands somewhere in it, at
/// its start, in its middle or at its end, or it begins with `OPEN`. So every key
/// of the form `X + "API_KEY" + Y`, and every key `"OPEN" + Y`, is shown, and no
/// other key is.
pub proof fn law_api_related_keys(k: Seq<char>, x: Seq<char>, y: Seq<char>)
    ensures
        is_api_related(x + api_key_marker() + y),
        is_api_related(x + api_key_marker()),
        is_api_related(open_marker() + y),
        is_api_related(k) <==> (exists|a: Seq<char>, b: Seq<char>|
            k == #[trigger] (a + api_key_marker() + b)) || (exists|b: Seq<char>| k == #[trigger] (open_marker() + b)),
{
    let api = api_key_marker();
    let open = open_marker();
    assert(api =~= seq!['A', 'P', 'I', '_', 'K', 'E', 'Y']);
    assert(open =~= seq!['O', 'P', 'E', 'N']);
    let w = x + api + y;
    assert(w.subrange(x.len() as int, ((x.len() + api.len()) as int) as int) =~= api);
    assert(occurs_at(w, api, x.len() as int));
    let w2 = x + api;
    assert(w2.subrange(x.len() as int, ((x.len() + api.len()) as int) as int) =~= api);
    assert(occurs_at(w2, api, x.len() as int));
    let w3 = open + y;
    assert(w3.subrange(0, open.len() as int) =~= open);
    if has_infix(k, api) {
        let i = choose|i: int| occurs_at(k, api, i);
        let a = k.subrange(0, i);
        let b = k.subrange(i + api.len(), k.len() as int);
        assert(k =~= a + api + b);
    }
    if has_prefix(k, open) {
        let b = k.subrange(open.len() as int, k.len() as int);
        assert(k =~= open + b);
    }
    if exists|a: Seq<char>, b: Seq<char>| k == #[trigger] (a + api + b) {
        let (a, b) = choose|a: Seq<char>, b: Seq<char>| k == #[trigger] (a + api + b);
        assert(k.subrange(a.len() as int, (a.len() + api.len()) as int) =~= api);
        assert(occurs_at(k, api, a.len() as int));
    }
    if exists|b: Seq<char>| k == #[trigger] (open + b) {
        let b = choose|b: Seq<char>| k == #[trigger] (open + b);
        assert(k.subrange(0, open.len() as int) =~= open);
    }
}

/// Whether a key is shown in the preview.
pub fn is_api_related_key(key: &str) -> (r: bool)
    ensures
        r == is_api_related(key@),
        r <==> (exists|a: Seq<char>, b: Seq<char>|
            key@ == #[trigger] (a + api_key_marker() + b)) || (exists|b: Seq<char>| key@ == #[trigger] (open_marker() + b)),
{
    proof {
        law_api_related_keys(key@, Seq::empty(), Seq::empty());
    }
    let k = chars_of(key);
    let p_api = vec!['A', 'P', 'I', '_', 'K', 'E', 'Y'];
    let p_open = vec!['O', 'P', 'E', 'N'];
    assert(p_api@ =~= seq!['A', 'P', 'I', '_', 'K', 'E', 'Y']);
    assert(p_open@ =~= seq!['O', 'P', 'E', 'N']);
    contains_chars(k.as_slice(), p_api.as_slice()) || starts_with_chars(k.as_slice(), p_open.as_slice())
}

/// The API-related variables of `s`, in order.
pub open spec fn api_vars(s: Seq<EnvVarView>) -> Seq<EnvVarView>
    decreases s.len(),
{
    if s.len() == 0 {
        Seq::empty()
    } else if is_api_related(s.last().key) {
        api_vars(s.drop_last()).push(s.last())
    } else {
        api_vars(s.drop_last())
    }
}

/// At most the first `PREVIEW_LIMIT` entries of `s`.
pub open spec fn limit(s: Seq<EnvVarView>) -> Seq<EnvVarView> {
    if s.len() <= PREVIEW_LIMIT {
        s
    } else {
        s.take(PREVIEW_LIMIT as int)
    }
}

/// The variables listed in the preview of `s`.
pub open spec fn preview_selection(s: Seq<EnvVarView>) -> Seq<EnvVarView> {
    limit(api_vars(s))
}

/// One preview line: `KEY=value`, with the value masked when it is secret.
pub open spec fn preview_line(v: EnvVarView) -> Seq<char> {
    v.key + "="@ + (if v.is_secret {
        masked(v.value)
    } else {
        v.value
    })
}

/// Lines joined by newlines.
pub open spec fn join_lines(lines: Seq<Seq<char>>) -> Seq<char>
    decreases lines.len(),
{
    if lines.len() == 0 {
        Seq::empty()
    } else if lines.len() == 1 {
        lines[0]
    } else {
        join_lines(lines.drop_last()) + "\n"@ + lines.last()
    }
}

/// The preview text of an effective environment.
pub open spec fn preview_text(s: Seq<EnvVarView>) -> Seq<char> {
    let sel = preview_selection(s);
    "Effective env preview:\n"@ + (if sel.len() == 0 {
        "No API-related variables found in effective session env."@
    } else {
        join_lines(sel.map_values(|v: EnvVarView| preview_line(v)))
    })
}

/// Every secret value listed in the preview can be masked.
pub open spec fn preview_maskable(s: Seq<EnvVarView>) -> bool {
    forall|i: int|
        0 <= i < preview_selection(s).len() && #[trigger] preview_selection(s)[i].is_secret ==> maskable(
            preview_selection(s)[i].value,
        )
}

/// The API-related variables of a prefix of `s` begin the API-related variables of `s`.
pub proof fn lemma_api_vars_prefix(s: Seq<EnvVarView>, i: int)
    requires
        0 <= i <= s.len(),
    ensures
        api_vars(s.take(i)).len() <= api_vars(s).len(),
        forall|j: int| 0 <= j < api_vars(s.take(i)).len() ==> #[trigger] api_vars(s.take(i))[j] == api_vars(s)[j],
    decreases s.len(),
{
    if i == s.len() {
        assert(s.take(i) =~= s);
    } else {
        lemma_api_vars_prefix(s.drop_last(), i);
        assert(s.drop_last().take(i) =~= s.take(i));
    }
}

/// The preview line of one variable.
fn preview_line_of(v: &EnvVariable) -> (r: String)
    requires
        v.is_secret ==> maskable(v.value@),
    ensures
        r@ == preview_line(v@),
{
    let mut r = v.key.clone();
    r.append("=");
    if v.is_secret {
        let m = mask_value(v.value.as_str());
        r.append(m.as_str());
    } else {
        r.append(v.value.as_str());
    }
    r
}

/// How the listed variables grow by one step of the scan over `s`.
proof fn lemma_selection_step(s: Seq<EnvVarView>, i: int)
    requires
        0 <= i < s.len(),
    ensures
        limit(api_vars(s.take(i + 1))) == (if is_api_related(s[i].key) && limit(api_vars(s.take(i))).len()
            < PREVIEW_LIMIT {
            limit(api_vars(s.take(i))).push(s[i])
        } else {
            limit(api_vars(s.take(i)))
        }),
        limit(api_vars(s.take(i))).len() <= PREVIEW_LIMIT,
{
    assert(s.take(i + 1).drop_last() =~= s.take(i));
    assert(s.take(i + 1).last() == s[i]);
    let x = api_vars(s.take(i));
    if is_api_related(s[i].key) {
        if x.len() >= PREVIEW_LIMIT {
            assert(x.push(s[i]).take(PREVIEW_LIMIT as int) =~= x.take(PREVIEW_LIMIT as int));
        }
    }
}

/// The variables listed for a prefix of `s` begin the variables listed for `s`.
proof fn lemma_selection_prefix(s: Seq<EnvVarView>, i: int)
    requires
        0 <= i <= s.len(),
    ensures
        limit(api_vars(s.take(i))).len() <= preview_selection(s).len(),
        forall|j: int|
            0 <= j < limit(api_vars(s.take(i))).len() ==> #[trigger] limit(api_vars(s.take(i)))[j]
                == preview_selection(s)[j],
{
    lemma_api_vars_prefix(s, i);
}

/// Whether every secret value that the preview of `effective` lists can be masked.
pub fn preview_can_mask(effective: &[EnvVariable]) -> (r: bool)
    ensures
        r == preview_maskable(vars_view(effective@)),
{
    let ghost s = vars_view(effective@);
    let n = effective.len();
    let mut count: usize = 0;
    assert(s.take(0) =~= Seq::<EnvVarView>::empty());
    let ghost mut sel: Seq<EnvVarView> = Seq::empty();
    for i in 0..n
        invariant
            n == effective@.len(),
            s == vars_view(effective@),
            sel == limit(api_vars(s.take(i as int))),
            count as int == sel.len(),
            forall|j: int| 0 <= j < sel.len() && #[trigger] sel[j].is_secret ==> maskable(sel[j].value),
    {
        proof {
            lemma_selection_step(s, i as int);
            lemma_selection_prefix(s, i + 1);
        }
        let v = &effective[i];
        let related = is_api_related_key(v.key.as_str());
        if related && count < PREVIEW_LIMIT {
            if v.is_secret && !can_mask(v.value.as_str()) {
                proof {
                    let c = count as int;
                    assert(limit(api_vars(s.take(i + 1)))[c] == v@);
                    assert(preview_selection(s)[c] == v@);
                    assert(preview_selection(s)[c].is_secret);
                }
                return false;
            }
            count = count + 1;
            proof {
                sel = sel.push(v@);
            }
        }
    }
    proof {
        assert(s.take(n as int) =~= s);
        assert forall|j: int| 0 <= j < preview_selection(s).len() && #[trigger] preview_selection(s)[j].is_secret implies maskable(
            preview_selection(s)[j].value,
        ) by {
            assert(sel[j] == preview_selection(s)[j]);
        }
    }
    true
}

/// Renders the preview of `effective`: a header line, then up to eight API-related
/// variables as `KEY=value` lines with secret values masked, or a note that there
/// are none.
pub fn render_preview(effective: &[EnvVariable]) -> (r: String)
    requires
        preview_maskable(vars_view(effective@)),
    ensures
        r@ == preview_text(vars_view(effective@)),
{
    let ghost s = vars_view(effective@);
    let mut body = String::from_str("Effective env preview:\n");
    let ghost header = body@;
    let n = effective.len();
    let mut count: usize = 0;
    assert(s.take(0) =~= Seq::<EnvVarView>::empty());
    for i in 0..n
        invariant
            n == effective@.len(),
            s == vars_view(effective@),
            preview_maskable(s),
            header == "Effective env preview:\n"@,
            count as int == limit(api_vars(s.take(i as int))).len(),
            body@ == header + join_lines(limit(api_vars(s.take(i as int))).map_values(|v: EnvVarView| preview_line(v))),
    {
        let ghost sel_before = limit(api_vars(s.take(i as int)));
        assert(s.take(i + 1).drop_last() =~= s.take(i as int));
        proof {
            lemma_api_vars_prefix(s, i + 1);
        }
        let v = &effective[i];
        let related = is_api_related_key(v.key.as_str());
        proof {
            let x = api_vars(s.take(i as int));
            assert(s.take(i + 1).last() == v@);
            if x.len() >= PREVIEW_LIMIT {
                assert(x.push(v@).take(PREVIEW_LIMIT as int) =~= x.take(PREVIEW_LIMIT as int));
            }
        }
        if related && count < PREVIEW_LIMIT {
            proof {
                lemma_selection_step(s, i as int);
                lemma_selection_prefix(s, i + 1);
                let c = count as int;
                assert(limit(api_vars(s.take(i + 1)))[c] == v@);
                assert(preview_selection(s)[c] == v@);
                if v.is_secret {
                    assert(preview_selection(s)[c].is_secret);
                    assert(maskable(preview_selection(s)[c].value));
                }
            }
            let line = preview_line_of(v);
            let ghost lines_before = sel_before.map_values(|v: EnvVarView| preview_line(v));
            if count > 0 {
                body.append("\n");
            }
            body.append(line.as_str());
            count = count + 1;
            proof {
                let sel_after = limit(api_vars(s.take(i + 1)));
                assert(sel_after =~= sel_before.push(v@));
                let lines_after = sel_after.map_values(|v: EnvVarView| preview_line(v));
                assert(lines_after =~= lines_before.push(line@));
                assert(lines_after.drop_last() =~= lines_before);
                if lines_before.len() == 0 {
                    assert(join_lines(lines_before) =~= Seq::<char>::empty());
                }
            }
        } else {
            proof {
                let sel_after = limit(api_vars(s.take(i + 1)));
                assert(sel_after =~= sel_before);
            }
        }
    }
    assert(s.take(n as int) =~= s);
    if count == 0 {
        body.append("No API-related variables found in effective session env.");
        assert(join_lines(Seq::<Seq<char>>::empty()) =~= Seq::<char>::empty());
    }
    body
}

/// The profile used for a preview: the selected name and no variables of its own.
pub open spec fn preview_profile(name: Seq<char>) -> ProfileView {
    ProfileView { name, variables: Seq::empty() }
}

/// Builds the session preview for the selected profile over the process
/// environment `system_vars` and the providers, with their secrets read from the
/// store. The store's answers are not stated: whatever they are, the text is the
/// preview of that session. `None` when a listed secret value cannot be masked
/// without cutting a character.
pub fn run_with_selected_profile(
    profile: String,
    system_vars: &Vec<(String, String)>,
    providers: &[ProviderConfig],
) -> (r: Option<String>)
    ensures
        exists|resolved: Seq<ProviderView>|
            #![trigger resolved_from(providers_view(providers@), resolved)]
            {
                let sys = system_vars@.map_values(|p: (String, String)| system_var(p.0@, p.1@));
                let eff = effective_env(sys, preview_profile(profile@), resolved);
                &&& resolved_from(providers_view(providers@), resolved)
                &&& match r {
                    Some(t) => preview_maskable(eff) && t@ == preview_text(eff),
                    None => !preview_maskable(eff),
                }
            },
{
    let ghost name = profile@;
    let system_env = system_env_from_vars(system_vars);
    let profile = Profile { name: profile, variables: Vec::new() };
    let resolved = providers_with_resolved_secrets(providers);
    let effective = build_effective_session_env(system_env.as_slice(), &profile, resolved.as_slice());
    let ghost sys = system_vars@.map_values(|p: (String, String)| system_var(p.0@, p.1@));
    proof {
        assert(vars_view(system_env@) =~= sys);
        assert(profile@.variables =~= Seq::<EnvVarView>::empty());
        assert(profile@ == preview_profile(name));
    }
    let ghost eff = effective_env(sys, preview_profile(name), providers_view(resolved@));
    let r = if preview_can_mask(effective.as_slice()) {
        Some(render_preview(effective.as_slice()))
    } else {
        None
    };
    assert(vars_view(effective@) == eff);
    r
}

/// The selected profile's name does not change the preview: for the same process
/// environment and the same store answers, any two names give the same session.
pub proof fn law_preview_ignores_profile_name(
    system: Seq<EnvVarView>,
    a: Seq<char>,
    b: Seq<char>,
    resolved: Seq<ProviderView>,
)
    ensures
        effective_env(system, preview_profile(a), resolved) == effective_env(system, preview_profile(b), resolved),
        preview_text(effective_env(system, preview_profile(a), resolved)) == preview_text(
            effective_env(system, preview_profile(b), resolved),
        ),
{
    law_session_ignores_names_and_disabled_providers(system, preview_profile(a), preview_profile(b), resolved, resolved);
}

} // verus!
