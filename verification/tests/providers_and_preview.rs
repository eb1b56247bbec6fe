use fluxenv::providers::{apply_secret_ops, migration_ops, plan_removal};
use fluxenv::secret_store::secret_write_result;
use fluxenv::providers::{plan_upsert, UpsertPlan};
use fluxenv::preview::{fill_secrets, secret_lookup_targets};
use fluxenv::providers::{secret_sync_plan, secret_status_message, SecretOp};
use fluxenv::secret_store::stored_secret_present;
use fluxenv::text::mask_value;
use fluxenv::preview::{is_api_related_key, preview_can_mask, resolve_variable};
use fluxenv::{
    clear_provider_secret, remove_provider, render_preview, run_with_selected_profile, system_env_from_vars,
    toggle_provider, upsert_provider, EnvVariable, ProviderConfig,
};

fn var(key: &str, value: &str, is_secret: bool) -> EnvVariable {
    EnvVariable { key: key.to_string(), value: value.to_string(), is_secret }
}

fn provider(name: &str, enabled: bool, key: &str) -> ProviderConfig {
    ProviderConfig { name: name.to_string(), enabled, variables: vec![var(key, "", true)] }
}

#[test]
fn toggle_reports_outcome() {
    let mut ps = vec![provider("openai", false, "OPENAI_API_KEY")];
    assert_eq!(toggle_provider(&mut ps, "openai", true), "Provider 'openai' is now ON.");
    assert!(ps[0].enabled);
    assert_eq!(toggle_provider(&mut ps, "openai", false), "Provider 'openai' is now OFF.");
    assert!(!ps[0].enabled);
    assert_eq!(toggle_provider(&mut ps, "nope", true), "Provider 'nope' was not found.");
}

#[test]
fn upsert_adds_then_updates_without_secret_write() {
    let mut ps = vec![provider("openai", false, "OPENAI_API_KEY")];
    let r = upsert_provider(&mut ps, None, "groq".to_string(), "GROQ_API_KEY".to_string(), String::new(), true, false);
    assert_eq!(r, Ok("Synced provider 'groq'.".to_string()));
    assert_eq!(ps.len(), 2);
    assert_eq!(ps[1], provider("groq", true, "GROQ_API_KEY"));
    let r = upsert_provider(
        &mut ps,
        Some("groq".to_string()),
        "groq".to_string(),
        "GROQ_KEY".to_string(),
        String::new(),
        false,
        false,
    );
    assert_eq!(r, Ok("Synced provider 'groq'.".to_string()));
    assert_eq!(ps, vec![provider("openai", false, "OPENAI_API_KEY"), provider("groq", false, "GROQ_KEY")]);
}

#[test]
fn upsert_rename_drops_old_entries() {
    let mut ps = vec![provider("old", true, "K"), provider("other", false, "O"), provider("old", false, "K2")];
    let r = upsert_provider(&mut ps, Some("old".to_string()), "new".to_string(), "K".to_string(), String::new(), true, false);
    assert!(r.is_ok());
    assert_eq!(ps, vec![provider("other", false, "O"), provider("new", true, "K")]);
}

#[test]
fn upsert_with_empty_secret_value_succeeds_and_keeps_no_plaintext() {
    let mut ps = vec![];
    let r = upsert_provider(&mut ps, None, "p".to_string(), "P_KEY".to_string(), String::new(), false, true);
    assert_eq!(r, Ok("Synced provider 'p'.".to_string()));
    assert_eq!(ps, vec![provider("p", false, "P_KEY")]);
    assert_eq!(ps[0].variables[0].value, "");
}

#[test]
fn secret_plan_cases() {
    let old = Some(("old".to_string(), "OLD_KEY".to_string()));
    let plan = secret_sync_plan(&old, "new", "NEW_KEY", "v", true);
    assert!(matches!(&plan[..], [SecretOp::Store { provider, key, value }, SecretOp::Delete { provider: dp, key: dk }]
        if provider == "new" && key == "NEW_KEY" && value == "v" && dp == "old" && dk == "OLD_KEY"));
    let plan = secret_sync_plan(&old, "new", "NEW_KEY", "", true);
    assert!(matches!(&plan[..], [SecretOp::Delete { provider, .. }, SecretOp::Delete { provider: dp, .. }]
        if provider == "new" && dp == "old"));
    let plan = secret_sync_plan(&old, "new", "NEW_KEY", "v", false);
    assert!(matches!(&plan[..], [SecretOp::Move { from_provider, from_key, to_provider, to_key }]
        if from_provider == "old" && from_key == "OLD_KEY" && to_provider == "new" && to_key == "NEW_KEY"));
    let same = Some(("new".to_string(), "NEW_KEY".to_string()));
    assert!(secret_sync_plan(&same, "new", "NEW_KEY", "v", false).is_empty());
    assert_eq!(secret_sync_plan(&same, "new", "NEW_KEY", "v", true).len(), 1);
    assert!(secret_sync_plan(&None, "new", "NEW_KEY", "v", false).is_empty());
}

#[test]
fn remove_reports_and_drops_all_with_name() {
    let mut ps = vec![provider("a", false, "A"), provider("b", false, "B"), provider("a", true, "A2")];
    assert_eq!(remove_provider(&mut ps, "a"), Ok("Removed 'a'.".to_string()));
    assert_eq!(ps, vec![provider("b", false, "B")]);
    assert_eq!(remove_provider(&mut ps, "a"), Err("Provider 'a' was not found.".to_string()));
    assert_eq!(ps, vec![provider("b", false, "B")]);
}

#[test]
fn clear_secret_message() {
    assert_eq!(
        clear_provider_secret("openai", "OPENAI_API_KEY"),
        Ok("Cleared stored secret for openai / OPENAI_API_KEY.".to_string())
    );
}

#[test]
fn status_message_text() {
    assert!(secret_status_message().starts_with("Session mode active."));
}

#[test]
fn stored_secret_presence() {
    assert!(!stored_secret_present(&None));
    assert!(!stored_secret_present(&Some(String::new())));
    assert!(stored_secret_present(&Some("x".to_string())));
}

#[test]
fn resolve_variable_fills_only_secrets() {
    let mut v = var("K", "old", true);
    resolve_variable(&mut v, Some("new".to_string()));
    assert_eq!(v, var("K", "new", true));
    resolve_variable(&mut v, None);
    assert_eq!(v, var("K", "", true));
    let mut p = var("P", "keep", false);
    resolve_variable(&mut p, Some("new".to_string()));
    assert_eq!(p, var("P", "keep", false));
}

#[test]
fn system_env_marks_secret_like_names() {
    let vars = vec![("PATH".to_string(), "/bin".to_string()), ("GH_TOKEN".to_string(), "t".to_string())];
    let env = system_env_from_vars(&vars);
    assert_eq!(env, vec![var("PATH", "/bin", false), var("GH_TOKEN", "t", true)]);
}

#[test]
fn api_related_keys() {
    assert!(is_api_related_key("OPENAI_API_KEY"));
    assert!(is_api_related_key("OPENSSL_DIR"));
    assert!(is_api_related_key("MY_API_KEY_2"));
    assert!(!is_api_related_key("api_key"));
    assert!(!is_api_related_key("XOPEN"));
}

#[test]
fn preview_lists_api_vars_with_masking() {
    let eff = vec![
        var("PATH", "/bin", false),
        var("OPENAI_API_KEY", "sk-abcdef", true),
        var("OPENSSL_DIR", "/usr", false),
    ];
    assert!(preview_can_mask(&eff));
    assert_eq!(
        render_preview(&eff),
        "Effective env preview:\nOPENAI_API_KEY=sk***ef\nOPENSSL_DIR=/usr"
    );
}

#[test]
fn preview_without_api_vars() {
    let eff = vec![var("PATH", "/bin", false)];
    assert_eq!(
        render_preview(&eff),
        "Effective env preview:\nNo API-related variables found in effective session env."
    );
}

#[test]
fn preview_takes_at_most_eight() {
    let eff: Vec<EnvVariable> = (0..10).map(|i| var(&format!("OPEN_{}", i), "v", false)).collect();
    let text = render_preview(&eff);
    let lines: Vec<&str> = text.lines().collect();
    assert_eq!(lines.len(), 9);
    assert_eq!(lines[8], "OPEN_7=v");
}

#[test]
fn preview_mask_check_only_looks_at_listed_values() {
    let mut eff: Vec<EnvVariable> = (0..8).map(|i| var(&format!("OPEN_{}", i), "v", false)).collect();
    eff.push(var("OPEN_BAD", "aébcd", true));
    assert!(preview_can_mask(&eff));
    let bad = vec![var("OPEN_BAD", "aébcd", true)];
    assert!(!preview_can_mask(&bad));
}

#[test]
fn run_preview_with_environment() {
    let vars = vec![("OPENAI_API_KEY".to_string(), "sk-system-1".to_string()), ("HOME".to_string(), "/h".to_string())];
    let out = run_with_selected_profile("dev".to_string(), &vars, &[]);
    assert_eq!(out, Some("Effective env preview:\nOPENAI_API_KEY=sk***-1".to_string()));
    let bad = vec![("OPEN_TOKEN".to_string(), "aébcd".to_string())];
    assert_eq!(run_with_selected_profile("dev".to_string(), &bad, &[]), None);
}

#[test]
fn mask_matches_preview_line() {
    assert_eq!(mask_value("sk-system-1"), "sk***-1");
}

#[test]
fn upsert_plan_for_rename_with_new_value() {
    let ps = vec![provider("old", true, "OLD_KEY"), provider("keep", false, "K")];
    let UpsertPlan { renamed, ops, updated } =
        plan_upsert(&ps, &Some("old".to_string()), "new", "NEW_KEY", "v", false, true);
    assert_eq!(renamed, vec![provider("keep", false, "K")]);
    assert_eq!(updated, vec![provider("keep", false, "K"), provider("new", false, "NEW_KEY")]);
    assert!(matches!(&ops[..], [SecretOp::Store { provider, key, value }, SecretOp::Delete { provider: dp, key: dk }]
        if provider == "new" && key == "NEW_KEY" && value == "v" && dp == "old" && dk == "OLD_KEY"));
}

#[test]
fn upsert_plan_without_write_moves_secret() {
    let ps = vec![provider("p", true, "OLD")];
    let plan = plan_upsert(&ps, &None, "p", "NEW", "", true, false);
    assert_eq!(plan.renamed, ps);
    assert_eq!(plan.updated, vec![provider("p", true, "NEW")]);
    assert!(matches!(&plan.ops[..], [SecretOp::Move { from_provider, from_key, to_provider, to_key }]
        if from_provider == "p" && from_key == "OLD" && to_provider == "p" && to_key == "NEW"));
}

#[test]
fn lookup_targets_and_filling() {
    let ps = vec![ProviderConfig {
        name: "prov".to_string(),
        enabled: true,
        variables: vec![var("URL", "u", false), var("TOKEN", "stale", true), var("KEY2", "stale2", true)],
    }];
    let targets = secret_lookup_targets(&ps);
    assert_eq!(
        targets,
        vec![vec![None, Some(("prov".to_string(), "TOKEN".to_string())), Some(("prov".to_string(), "KEY2".to_string()))]]
    );
    let answers = vec![vec![Some("ignored".to_string()), Some("fresh".to_string()), None]];
    let filled = fill_secrets(&ps, &answers);
    assert_eq!(filled[0].variables, vec![var("URL", "u", false), var("TOKEN", "fresh", true), var("KEY2", "", true)]);
    let short: Vec<Vec<Option<String>>> = vec![];
    let filled = fill_secrets(&ps, &short);
    assert_eq!(filled[0].variables, vec![var("URL", "u", false), var("TOKEN", "", true), var("KEY2", "", true)]);
}

#[test]
fn migration_ops_cases() {
    assert!(migration_ops("p", "K", "p", "K", &Some("v".to_string())).is_empty());
    let ops = migration_ops("old", "OK", "new", "NK", &Some("v".to_string()));
    assert!(matches!(&ops[..], [SecretOp::Store { provider, key, value }, SecretOp::Delete { provider: dp, key: dk }]
        if provider == "new" && key == "NK" && value == "v" && dp == "old" && dk == "OK"));
    let ops = migration_ops("old", "OK", "old", "NK", &None);
    assert!(matches!(&ops[..], [SecretOp::Delete { provider, key }] if provider == "old" && key == "OK"));
}

#[test]
fn removal_plan_targets_first_provider_secrets() {
    let ps = vec![
        ProviderConfig {
            name: "a".to_string(),
            enabled: true,
            variables: vec![var("URL", "u", false), var("A_KEY", "", true), var("A_TOKEN", "", true)],
        },
        provider("b", false, "B_KEY"),
        provider("a", false, "OTHER_KEY"),
    ];
    let plan = plan_removal(&ps, "a");
    assert_eq!(plan.kept, vec![provider("b", false, "B_KEY")]);
    assert_eq!(
        plan.deletions,
        vec![("a".to_string(), "A_KEY".to_string()), ("a".to_string(), "A_TOKEN".to_string())]
    );
    let none = plan_removal(&ps, "zzz");
    assert_eq!(none.kept, ps);
    assert!(none.deletions.is_empty());
}

#[test]
fn write_result_forms() {
    assert_eq!(secret_write_result(None, None), Ok(()));
    assert_eq!(secret_write_result(Some("open failed".to_string()), None), Err("open failed".to_string()));
    assert_eq!(
        secret_write_result(None, Some("denied".to_string())),
        Err("keyring set failed: denied".to_string())
    );
    assert_eq!(
        secret_write_result(Some("open failed".to_string()), Some("denied".to_string())),
        Err("open failed".to_string())
    );
}

#[test]
fn applying_no_store_changes_succeeds() {
    let (made, outcome) = apply_secret_ops(&vec![]);
    assert_eq!(made, 0);
    assert_eq!(outcome, Ok(()));
}

#[test]
fn preview_same_for_any_profile_name() {
    let vars = vec![("OPENAI_API_KEY".to_string(), "sk-abcdef".to_string())];
    assert_eq!(
        run_with_selected_profile("dev".to_string(), &vars, &[]),
        run_with_selected_profile("prod".to_string(), &vars, &[])
    );
}

#[test]
fn masked_values_show_only_ends_and_length_class() {
    assert_eq!(mask_value("abcd"), mask_value("wxyz"));
    assert_eq!(mask_value("ab123456cd"), mask_value("abZZcd"));
    assert_ne!(mask_value("abc"), mask_value("abcd"));
}
