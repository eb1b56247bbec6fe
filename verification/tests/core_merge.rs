use fluxenv::{build_effective_session_env, merge_profile_variables, set_provider_enabled};
use fluxenv::{EnvVariable, Profile, ProviderConfig};

fn var(key: &str, value: &str, is_secret: bool) -> EnvVariable {
    EnvVariable { key: key.to_string(), value: value.to_string(), is_secret }
}

fn provider(name: &str, enabled: bool, vars: Vec<EnvVariable>) -> ProviderConfig {
    ProviderConfig { name: name.to_string(), enabled, variables: vars }
}

#[test]
fn profile_values_override_base_values() {
    let base = vec![EnvVariable {
        key: "API_URL".to_string(),
        value: "http://localhost".to_string(),
        is_secret: false,
    }];

    let profile = Profile {
        name: "staging".to_string(),
        variables: vec![EnvVariable {
            key: "API_URL".to_string(),
            value: "https://staging.example.com".to_string(),
            is_secret: false,
        }],
    };

    let merged = merge_profile_variables(&base, &profile);
    assert_eq!(merged.len(), 1);
    assert_eq!(merged[0].value, "https://staging.example.com");
}

#[test]
fn enabled_provider_overrides_profile_and_system_values() {
    let system_env = vec![EnvVariable {
        key: "OPENAI_API_KEY".to_string(),
        value: "system-key".to_string(),
        is_secret: true,
    }];
    let profile = Profile {
        name: "dev".to_string(),
        variables: vec![EnvVariable {
            key: "OPENAI_API_KEY".to_string(),
            value: "profile-key".to_string(),
            is_secret: true,
        }],
    };
    let providers = vec![ProviderConfig {
        name: "openrouter".to_string(),
        enabled: true,
        variables: vec![EnvVariable {
            key: "OPENAI_API_KEY".to_string(),
            value: "provider-key".to_string(),
            is_secret: true,
        }],
    }];

    let effective = build_effective_session_env(&system_env, &profile, &providers);
    assert_eq!(effective.len(), 1);
    assert_eq!(effective[0].value, "provider-key");
}

#[test]
fn disabled_provider_does_not_take_effect() {
    let system_env = vec![EnvVariable {
        key: "ANTHROPIC_API_KEY".to_string(),
        value: "system-anthropic".to_string(),
        is_secret: true,
    }];
    let profile = Profile {
        name: "dev".to_string(),
        variables: vec![],
    };
    let providers = vec![ProviderConfig {
        name: "anthropic".to_string(),
        enabled: false,
        variables: vec![EnvVariable {
            key: "ANTHROPIC_API_KEY".to_string(),
            value: "provider-anthropic".to_string(),
            is_secret: true,
        }],
    }];

    let effective = build_effective_session_env(&system_env, &profile, &providers);
    assert_eq!(effective[0].value, "system-anthropic");
}

#[test]
fn toggling_provider_changes_effective_output() {
    let system_env = vec![EnvVariable {
        key: "DEEPSEEK_API_KEY".to_string(),
        value: "system-deepseek".to_string(),
        is_secret: true,
    }];
    let profile = Profile {
        name: "dev".to_string(),
        variables: vec![],
    };
    let mut providers = vec![ProviderConfig {
        name: "deepseek".to_string(),
        enabled: false,
        variables: vec![EnvVariable {
            key: "DEEPSEEK_API_KEY".to_string(),
            value: "provider-deepseek".to_string(),
            is_secret: true,
        }],
    }];

    let before = build_effective_session_env(&system_env, &profile, &providers);
    assert_eq!(before[0].value, "system-deepseek");

    assert!(set_provider_enabled(&mut providers, "deepseek", true));
    let after = build_effective_session_env(&system_env, &profile, &providers);
    assert_eq!(after[0].value, "provider-deepseek");
}

#[test]
fn merge_appends_new_keys_in_profile_order() {
    let base = vec![var("A", "1", false), var("B", "2", false)];
    let profile = Profile {
        name: "p".to_string(),
        variables: vec![var("C", "3", false), var("A", "9", true), var("D", "4", false)],
    };
    let merged = merge_profile_variables(&base, &profile);
    assert_eq!(merged, vec![var("A", "9", true), var("B", "2", false), var("C", "3", false), var("D", "4", false)]);
}

#[test]
fn merge_replaces_only_first_duplicate_in_base() {
    let base = vec![var("A", "1", false), var("A", "2", false)];
    let profile = Profile { name: "p".to_string(), variables: vec![var("A", "x", false)] };
    let merged = merge_profile_variables(&base, &profile);
    assert_eq!(merged, vec![var("A", "x", false), var("A", "2", false)]);
}

#[test]
fn merge_last_profile_value_wins() {
    let base = vec![];
    let profile = Profile {
        name: "p".to_string(),
        variables: vec![var("K", "first", false), var("K", "second", false)],
    };
    let merged = merge_profile_variables(&base, &profile);
    assert_eq!(merged, vec![var("K", "second", false)]);
}

#[test]
fn merge_with_empty_profile_keeps_base() {
    let base = vec![var("A", "1", false), var("B", "2", true)];
    let profile = Profile { name: "empty".to_string(), variables: vec![] };
    assert_eq!(merge_profile_variables(&base, &profile), base);
}

#[test]
fn later_enabled_provider_wins_and_disabled_is_skipped() {
    let system = vec![var("X", "sys", false), var("Y", "sys-y", false)];
    let profile = Profile { name: "dev".to_string(), variables: vec![var("X", "prof", false)] };
    let providers = vec![
        provider("one", true, vec![var("X", "one", true), var("Z", "one-z", false)]),
        provider("off", false, vec![var("X", "off", true), var("W", "off-w", false)]),
        provider("two", true, vec![var("X", "two", true)]),
    ];
    let effective = build_effective_session_env(&system, &profile, &providers);
    assert_eq!(
        effective,
        vec![var("X", "two", true), var("Y", "sys-y", false), var("Z", "one-z", false)]
    );
}

#[test]
fn removing_disabled_provider_leaves_session_unchanged() {
    let system = vec![var("X", "sys", false)];
    let profile = Profile { name: "dev".to_string(), variables: vec![] };
    let with_off = vec![
        provider("off", false, vec![var("X", "off", true)]),
        provider("on", true, vec![var("Y", "on", false)]),
    ];
    let without_off = vec![provider("on", true, vec![var("Y", "on", false)])];
    assert_eq!(
        build_effective_session_env(&system, &profile, &with_off),
        build_effective_session_env(&system, &profile, &without_off)
    );
}

#[test]
fn set_provider_enabled_unknown_name_changes_nothing() {
    let mut providers = vec![provider("a", false, vec![]), provider("b", true, vec![])];
    let before = providers.clone();
    assert!(!set_provider_enabled(&mut providers, "c", true));
    assert_eq!(providers, before);
}

#[test]
fn set_provider_enabled_touches_only_first_match() {
    let mut providers = vec![provider("a", false, vec![]), provider("a", false, vec![]), provider("b", false, vec![])];
    assert!(set_provider_enabled(&mut providers, "a", true));
    assert!(providers[0].enabled);
    assert!(!providers[1].enabled);
    assert!(!providers[2].enabled);
    assert!(set_provider_enabled(&mut providers, "a", false));
    assert!(!providers[0].enabled);
}

#[test]
fn merging_the_same_profile_twice_changes_nothing() {
    let base = vec![var("A", "1", false), var("A", "dup", false), var("B", "2", true)];
    let profile = Profile {
        name: "p".to_string(),
        variables: vec![var("A", "x", false), var("C", "3", false), var("A", "y", true)],
    };
    let once = merge_profile_variables(&base, &profile);
    let twice = merge_profile_variables(&once, &profile);
    assert_eq!(once, twice);
    assert_eq!(once, vec![var("A", "y", true), var("A", "dup", false), var("B", "2", true), var("C", "3", false)]);
}

#[test]
fn session_ignores_names_and_disabled_variables() {
    let system = vec![var("X", "sys", false)];
    let p1 = Profile { name: "one".to_string(), variables: vec![var("Y", "p", false)] };
    let p2 = Profile { name: "two".to_string(), variables: vec![var("Y", "p", false)] };
    let ps1 = vec![provider("a", true, vec![var("X", "a", true)]), provider("off", false, vec![var("Z", "z", false)])];
    let ps2 = vec![provider("renamed", true, vec![var("X", "a", true)]), provider("other", false, vec![])];
    assert_eq!(
        build_effective_session_env(&system, &p1, &ps1),
        build_effective_session_env(&system, &p2, &ps2)
    );
}
