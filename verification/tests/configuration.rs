use load0::config::{build_config, env_var_to_vec, get_load_burst_size, select_port};

#[test]
fn env_list_parsing_trims_and_filters() {
    assert_eq!(
        env_var_to_vec(Some("a, b ,,c".to_string())),
        vec!["a".to_string(), "b".to_string(), "c".to_string()]
    );
    assert!(env_var_to_vec(Some(String::new())).is_empty());
    assert!(env_var_to_vec(None).is_empty());
}

#[test]
fn burst_size_parses_or_falls_back_to_five() {
    assert_eq!(get_load_burst_size(Some("12".to_string())), 12);
    assert_eq!(get_load_burst_size(Some("not-a-number".to_string())), 5);
    assert_eq!(get_load_burst_size(Some(String::new())), 5);
    assert_eq!(get_load_burst_size(None), 5);
}

#[test]
fn port_selection_prefers_env_then_fallback_then_default() {
    assert_eq!(select_port(Some("8080".to_string()), Some(4000)), 8080);
    assert_eq!(select_port(Some("70000".to_string()), Some(4000)), 4000);
    assert_eq!(select_port(Some("x".to_string()), None), 3000);
    assert_eq!(select_port(None, Some(4000)), 4000);
    assert_eq!(select_port(None, None), 3000);
}

#[test]
fn config_is_built_from_raw_values() {
    let c = build_config(
        Some("a.example,b.example".to_string()),
        Some("secret".to_string()),
        6,
        60,
        999999,
    );
    assert_eq!(
        c.whitelist,
        vec!["a.example".to_string(), "b.example".to_string()]
    );
    assert_eq!(c.internal_key, "secret");
    assert_eq!(c.public_burst, 6);

    let c = build_config(None, None, 1, 1, 1);
    assert!(c.whitelist.is_empty());
    assert_eq!(c.internal_key, "");
}
