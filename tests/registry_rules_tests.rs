use lars::config::unique_service_name;
use lars::validation::parse_env_override;
use lars::{AppConfig, ConfigManager, LarsError, Service, ValidationError};

fn manager() -> ConfigManager {
    ConfigManager::new("/tmp/lars-rules/config".to_string(), "/tmp/lars-rules/logs".to_string())
}

fn registry(names: &[&str]) -> AppConfig {
    let mut config = AppConfig::new();
    for n in names {
        config.add_service(Service::new(n.to_string(), "true".to_string()));
    }
    config
}

#[test]
fn unique_name_appends_first_free_counter() {
    let config = registry(&["web", "web-1", "web-3"]);
    assert_eq!(unique_service_name(&config, "web"), "web-2");
    assert_eq!(unique_service_name(&config, "api"), "api");
    let empty = AppConfig::new();
    assert_eq!(unique_service_name(&empty, "web"), "web");
    let crowded = registry(&["x", "x-1", "x-2", "x-3", "x-4", "x-5", "x-6", "x-7", "x-8", "x-9", "x-10"]);
    assert_eq!(unique_service_name(&crowded, "x"), "x-11");
}

#[test]
fn env_override_splits_at_first_equals() {
    assert_eq!(parse_env_override("FOO=bar").unwrap(), ("FOO".to_string(), "bar".to_string()));
    assert_eq!(parse_env_override("A=b=c").unwrap(), ("A".to_string(), "b=c".to_string()));
    assert_eq!(parse_env_override("EMPTY=").unwrap(), ("EMPTY".to_string(), String::new()));
    assert_eq!(
        parse_env_override("NOEQUALS").unwrap_err(),
        "Invalid environment variable format: NOEQUALS. Expected KEY=VALUE"
    );
}

#[test]
fn env_set_replaces_or_appends() {
    let mut s = Service::new("web".to_string(), "serve".to_string());
    s.set_env("FOO".to_string(), "bar".to_string());
    s.set_env("BAZ".to_string(), "qux".to_string());
    s.set_env("FOO".to_string(), "again".to_string());
    assert_eq!(
        s.env,
        vec![("FOO".to_string(), "again".to_string()), ("BAZ".to_string(), "qux".to_string())]
    );
}

#[test]
fn rename_moves_record_to_end() {
    let m = manager();
    let mut config = registry(&["a", "b", "c"]);
    let a_id = config.services[0].id;
    m.rename_service(&mut config, "a", "z").unwrap();
    let names: Vec<&str> = config.services.iter().map(|s| s.name.as_str()).collect();
    assert_eq!(names, vec!["b", "c", "z"]);
    assert_eq!(config.services[2].id, a_id);
}

#[test]
fn rename_failures_change_nothing() {
    let m = manager();
    let mut config = registry(&["a", "b"]);
    assert!(matches!(
        m.rename_service(&mut config, "a", "bad name"),
        Err(LarsError::Validation(ValidationError::InvalidNameCharacters))
    ));
    assert!(matches!(m.rename_service(&mut config, "missing", "c"), Err(LarsError::ServiceNotFound(_))));
    assert!(matches!(m.rename_service(&mut config, "a", "b"), Err(LarsError::ServiceAlreadyExists(_))));
    let names: Vec<&str> = config.services.iter().map(|s| s.name.as_str()).collect();
    assert_eq!(names, vec!["a", "b"]);
}

#[test]
fn merge_skips_taken_names() {
    let m = manager();
    let mut config = registry(&["a", "b"]);
    let incoming = registry(&["b", "c", "c", "d"]);
    let c_id = incoming.services[1].id;
    let skipped = m.merge_services(&mut config, incoming.services);
    assert_eq!(skipped, vec!["b".to_string(), "c".to_string()]);
    let names: Vec<&str> = config.services.iter().map(|s| s.name.as_str()).collect();
    assert_eq!(names, vec!["a", "b", "c", "d"]);
    assert_ne!(config.services[2].id, c_id);
}

#[test]
fn import_refreshes_identities() {
    let m = manager();
    let mut config = registry(&["a", "b"]);
    let old_ids: Vec<u128> = config.services.iter().map(|s| s.id).collect();
    m.refresh_identities(&mut config);
    assert_eq!(config.services.len(), 2);
    assert_ne!(config.services[0].id, old_ids[0]);
    assert_ne!(config.services[1].id, old_ids[1]);
    assert_eq!(config.services[1].name, "b");
}

#[test]
fn enabled_filter_keeps_order() {
    let m = manager();
    let mut config = registry(&["a", "b", "c"]);
    config.services[1].enabled = false;
    let names: Vec<String> = m.enabled_services(config).into_iter().map(|s| s.name).collect();
    assert_eq!(names, vec!["a".to_string(), "c".to_string()]);
}
