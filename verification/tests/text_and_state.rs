use fluxenv::state_store::{StoredState, STATE_FILE_NAME};
use fluxenv::text::can_mask;
use fluxenv::{default_builtin_providers, entry_key, is_builtin_name, looks_like_secret, mask_value};
use fluxenv::{resolve_stored_state, sanitize_loaded, EnvVariable, ProviderConfig};

fn var(key: &str, value: &str, is_secret: bool) -> EnvVariable {
    EnvVariable { key: key.to_string(), value: value.to_string(), is_secret }
}

#[test]
fn secret_like_names_are_detected_ignoring_case() {
    assert!(looks_like_secret("OPENAI_API_KEY"));
    assert!(looks_like_secret("github_token"));
    assert!(looks_like_secret("Db_Password"));
    assert!(looks_like_secret("client_secret"));
    assert!(looks_like_secret("keyboard"));
    assert!(!looks_like_secret("PATH"));
    assert!(!looks_like_secret("HOME"));
    assert!(!looks_like_secret(""));
    assert!(!looks_like_secret("ké"));
}

#[test]
fn mask_value_forms() {
    assert_eq!(mask_value(""), "<empty>");
    assert_eq!(mask_value("a"), "*");
    assert_eq!(mask_value("abcd"), "****");
    assert_eq!(mask_value("abcde"), "ab***de");
    assert_eq!(mask_value("sk-1234567890"), "sk***90");
    // One star per byte for short values.
    assert_eq!(mask_value("é"), "**");
    assert_eq!(mask_value("éé"), "****");
    // Two bytes at each end, taken on character boundaries.
    assert_eq!(mask_value("éabcé"), "é***é");
}

#[test]
fn can_mask_rejects_cuts_inside_a_character() {
    assert!(can_mask(""));
    assert!(can_mask("éé"));
    assert!(can_mask("abcdef"));
    assert!(!can_mask("aébcd"));
    assert!(!can_mask("abcdé1"));
    assert!(can_mask("éabcé"));
}

#[test]
fn entry_key_layout() {
    assert_eq!(entry_key("openai", "OPENAI_API_KEY"), "v1|openai|OPENAI_API_KEY");
    assert_eq!(entry_key("", ""), "v1||");
}

#[test]
fn builtin_providers_are_disabled_with_empty_secret_slot() {
    let ps = default_builtin_providers();
    let names: Vec<&str> = ps.iter().map(|p| p.name.as_str()).collect();
    assert_eq!(names, vec!["openai", "anthropic", "deepseek", "openrouter"]);
    let keys: Vec<&str> = ps.iter().map(|p| p.variables[0].key.as_str()).collect();
    assert_eq!(keys, vec!["OPENAI_API_KEY", "ANTHROPIC_API_KEY", "DEEPSEEK_API_KEY", "OPENROUTER_API_KEY"]);
    for p in &ps {
        assert!(!p.enabled);
        assert_eq!(p.variables.len(), 1);
        assert!(p.variables[0].is_secret);
        assert_eq!(p.variables[0].value, "");
        assert!(is_builtin_name(&p.name));
    }
}

#[test]
fn builtin_names() {
    assert!(is_builtin_name("openai"));
    assert!(is_builtin_name("openrouter"));
    assert!(!is_builtin_name("OpenAI"));
    assert!(!is_builtin_name("custom"));
    assert!(!is_builtin_name(""));
}

#[test]
fn sanitize_clears_only_secret_values() {
    let loaded = vec![ProviderConfig {
        name: "x".to_string(),
        enabled: true,
        variables: vec![var("TOKEN", "leaked", true), var("URL", "https://x", false)],
    }];
    let clean = sanitize_loaded(loaded);
    assert_eq!(clean.len(), 1);
    assert_eq!(clean[0].name, "x");
    assert!(clean[0].enabled);
    assert_eq!(clean[0].variables, vec![var("TOKEN", "", true), var("URL", "https://x", false)]);
    let again = sanitize_loaded(clean.clone());
    assert_eq!(again, clean);
}

#[test]
fn stored_state_outcomes() {
    let (ps, write) = resolve_stored_state(StoredState::Missing);
    assert_eq!(ps, default_builtin_providers());
    assert!(write);
    let (ps, write) = resolve_stored_state(StoredState::Unreadable);
    assert_eq!(ps, default_builtin_providers());
    assert!(write);
    let (ps, write) = resolve_stored_state(StoredState::Malformed);
    assert_eq!(ps, default_builtin_providers());
    assert!(write);
    let parsed = vec![ProviderConfig {
        name: "mine".to_string(),
        enabled: true,
        variables: vec![var("MY_KEY", "plain", true)],
    }];
    let (ps, write) = resolve_stored_state(StoredState::Parsed(parsed));
    assert!(!write);
    assert_eq!(ps[0].variables[0].value, "");
    assert_eq!(ps[0].name, "mine");
}

#[test]
fn state_file_name_and_path() {
    assert_eq!(STATE_FILE_NAME, "providers_state.json");
    let p = fluxenv::state_path(std::path::Path::new("/data/app"));
    assert_eq!(p, std::path::PathBuf::from("/data/app/providers_state.json"));
}

#[test]
fn sanitize_gives_empty_provider_a_slot() {
    let loaded = vec![
        ProviderConfig { name: "bare".to_string(), enabled: false, variables: vec![] },
        ProviderConfig {
            name: "two".to_string(),
            enabled: true,
            variables: vec![var("A", "x", false), var("B_TOKEN", "y", true)],
        },
    ];
    let clean = sanitize_loaded(loaded);
    assert_eq!(clean[0].variables, vec![var("", "", true)]);
    assert_eq!(clean[1].variables, vec![var("A", "x", false), var("B_TOKEN", "", true)]);
    assert_eq!(sanitize_loaded(clean.clone()), clean);
}

#[test]
fn storage_form_drops_secret_values_only() {
    let ps = vec![
        ProviderConfig { name: "bare".to_string(), enabled: false, variables: vec![] },
        ProviderConfig {
            name: "p".to_string(),
            enabled: true,
            variables: vec![var("URL", "https://x", false), var("P_KEY", "secret", true)],
        },
    ];
    let stored = fluxenv::state_store::providers_for_storage(&ps);
    assert_eq!(stored[0].variables, vec![]);
    assert_eq!(stored[1].variables, vec![var("URL", "https://x", false), var("P_KEY", "", true)]);
    assert_eq!(stored[1].name, "p");
    assert!(stored[1].enabled);
}

#[test]
fn storing_then_loading_equals_loading() {
    let ps = vec![
        ProviderConfig { name: "bare".to_string(), enabled: true, variables: vec![] },
        ProviderConfig { name: "p".to_string(), enabled: false, variables: vec![var("P_KEY", "s", true), var("U", "u", false)] },
    ];
    let stored = fluxenv::state_store::providers_for_storage(&ps);
    assert_eq!(sanitize_loaded(stored), sanitize_loaded(ps));
}
