use lars::models::{default_config_version, default_restart_timeout, default_true};
use lars::{AppConfig, AppSettings, LarsError, RunnerType, Service, ShutdownBehavior, ValidationError, CURRENT_CONFIG_VERSION};

#[test]
fn test_error_display() {
    let err = LarsError::ServiceNotFound("test".to_string());
    assert_eq!(err.to_string(), "Service not found: test");

    let err = LarsError::Validation(ValidationError::InvalidNameCharacters);
    assert!(err.to_string().contains("alphanumeric"));
}

#[test]
fn test_validation_error_display() {
    let err = ValidationError::InvalidNameLength(100);
    assert!(err.to_string().contains("1-64"));

    let err = ValidationError::NullByteInInput;
    assert!(err.to_string().contains("null"));
}

#[test]
fn error_messages_exact() {
    assert_eq!(ValidationError::InvalidNameLength(100).to_string(), "Name must be 1-64 characters, got 100");
    assert_eq!(ValidationError::InvalidNameLength(0).to_string(), "Name must be 1-64 characters, got 0");
    assert_eq!(LarsError::StopTimeout("web".to_string()).to_string(), "Timeout waiting for service to stop: web");
    assert_eq!(LarsError::InvalidPath.to_string(), "Invalid path");
    let e: LarsError = ValidationError::EmptyInput.into();
    assert_eq!(e.to_string(), "Validation error: Input cannot be empty");
}

#[test]
fn test_service_new() {
    let service = Service::new("test".to_string(), "echo hello".to_string());
    assert_eq!(service.name, "test");
    assert_eq!(service.command, "echo hello");
    assert!(service.enabled);
    assert!(!service.autostart);
    assert_eq!(service.runner_type, RunnerType::Tmux);
}

#[test]
fn service_identities_differ() {
    let a = Service::new("a".to_string(), "true".to_string());
    let b = Service::new("b".to_string(), "true".to_string());
    assert_ne!(a.id, b.id);
    assert_eq!(a.created_at, a.updated_at);
}

#[test]
fn identity_text_is_hyphenated() {
    let mut s = Service::new("a".to_string(), "true".to_string());
    s.id = 0x67e5504410b1426f9247bb680e5fe0c8;
    assert_eq!(s.id_string(), "67e55044-10b1-426f-9247-bb680e5fe0c8");
}

#[test]
fn test_runner_type_display_and_parse() {
    assert_eq!(RunnerType::Tmux.to_string(), "tmux");
    assert_eq!(RunnerType::Screen.to_string(), "screen");
    assert_eq!(RunnerType::Direct.to_string(), "direct");

    assert_eq!("tmux".parse::<RunnerType>().unwrap(), RunnerType::Tmux);
    assert_eq!("TMUX".parse::<RunnerType>().unwrap(), RunnerType::Tmux);
    assert!("invalid".parse::<RunnerType>().is_err());
}

#[test]
fn shutdown_behavior_parse_forms() {
    assert_eq!("stop_all".parse::<ShutdownBehavior>().unwrap(), ShutdownBehavior::StopAll);
    assert_eq!("Leave-Running".parse::<ShutdownBehavior>().unwrap(), ShutdownBehavior::LeaveRunning);
    assert_eq!("LEAVERUNNING".parse::<ShutdownBehavior>().unwrap(), ShutdownBehavior::LeaveRunning);
    assert_eq!("nope".parse::<ShutdownBehavior>().unwrap_err(), "Invalid shutdown behavior: nope");
    assert_eq!(ShutdownBehavior::LeaveRunning.to_string(), "leave_running");
    assert_eq!("Screen".parse::<RunnerType>().unwrap(), RunnerType::Screen);
    assert_eq!("bogus".parse::<RunnerType>().unwrap_err(), "Invalid runner type: bogus");
}

#[test]
fn test_app_config_default() {
    let config = AppConfig::new();
    assert_eq!(config.config_version, CURRENT_CONFIG_VERSION);
    assert!(config.services.is_empty());
}

#[test]
fn settings_defaults() {
    let s = AppSettings::default();
    assert_eq!(s.default_runner, RunnerType::Tmux);
    assert_eq!(s.shutdown_behavior, ShutdownBehavior::StopAll);
    assert_eq!(s.restart_timeout_secs, 10);
    assert!(default_true());
    assert_eq!(default_restart_timeout(), 10);
    assert_eq!(default_config_version(), 1);
}

#[test]
fn test_app_config_service_operations() {
    let mut config = AppConfig::new();
    let service = Service::new("test".to_string(), "echo hello".to_string());

    config.add_service(service);
    assert!(config.service_name_exists("test"));
    assert!(config.find_service_by_name("test").is_some());

    let removed = config.remove_service_by_name("test");
    assert!(removed.is_some());
    assert!(!config.service_name_exists("test"));
}

#[test]
fn find_by_id_and_first_of_name() {
    let mut config = AppConfig::new();
    let a = Service::new("a".to_string(), "one".to_string());
    let b = Service::new("b".to_string(), "two".to_string());
    let b_id = b.id;
    config.add_service(a);
    config.add_service(b);
    assert_eq!(config.find_service_by_id(b_id).unwrap().name, "b");
    assert!(config.find_service_by_id(7).is_none());
    assert_eq!(config.position_by_name("b"), Some(1));
    assert_eq!(config.position_by_name("c"), None);
}
