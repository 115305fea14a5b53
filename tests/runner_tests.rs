use lars::doctor::{all_required_passed, check_config_dir, check_screen, check_shell, check_tmux};
use lars::runner::{restart_begin, restart_next, stop_timeout_error};
use lars::{create_runner, ExitCode, LarsError, OutputContext, RestartStep, RunnerType, Service, StartStep, TmuxRunner};

#[test]
fn test_session_name() {
    let service = Service::new("test".to_string(), "echo hello".to_string());
    let session_name = TmuxRunner::session_name(&service);

    assert!(session_name.starts_with("lar_"));
    assert!(session_name.contains(&service.id_string()));
}

#[test]
fn test_tmux_runner_type() {
    let runner = TmuxRunner::new();
    assert_eq!(runner.runner_type(), RunnerType::Tmux);
}

#[test]
fn test_tmux_attach_command() {
    let runner = TmuxRunner::new();
    let service = Service::new("test".to_string(), "echo hello".to_string());

    let cmd = runner.attach_command(&service);
    assert!(cmd.is_some());

    let cmd = cmd.unwrap();
    assert_eq!(cmd[0], "tmux");
    assert_eq!(cmd[1], "attach");
}

fn fixed_service() -> Service {
    let mut s = Service::new("web".to_string(), "python -m http.server".to_string());
    s.id = 0x67e5504410b1426f9247bb680e5fe0c8;
    s
}

#[test]
fn start_arguments_without_and_with_cwd() {
    let runner = TmuxRunner::new();
    let mut s = fixed_service();
    let args = runner.start_args(&s, "/var/log/my logs/web.log");
    assert_eq!(
        args,
        vec![
            "new-session",
            "-d",
            "-s",
            "lar_67e55044-10b1-426f-9247-bb680e5fe0c8",
            "sh",
            "-c",
            "python -m http.server > '/var/log/my logs/web.log' 2>&1",
        ]
    );
    s.cwd = Some("/srv/web".to_string());
    let args = runner.start_args(&s, "/tmp/web.log");
    assert_eq!(args[4], "-c");
    assert_eq!(args[5], "/srv/web");
    assert_eq!(args[8], "python -m http.server > /tmp/web.log 2>&1");
}

#[test]
fn session_commands() {
    let runner = TmuxRunner::new();
    let s = fixed_service();
    let session = "lar_67e55044-10b1-426f-9247-bb680e5fe0c8";
    assert_eq!(runner.stop_args(&s), vec!["kill-session", "-t", session]);
    assert_eq!(runner.is_running_args(&s), vec!["has-session", "-t", session]);
    assert_eq!(runner.pid_args(&s), vec!["list-panes", "-t", session, "-F", "#{pane_pid}"]);
    assert_eq!(runner.attach_command(&s).unwrap(), vec!["tmux", "attach", "-t", session]);
    assert_eq!(TmuxRunner::probe_args(), vec!["-V"]);
    assert_eq!(TmuxRunner::program(), "tmux");
}

#[test]
fn start_decisions() {
    let runner = TmuxRunner::new();
    assert!(matches!(runner.start_step(false, false), Err(LarsError::RunnerNotAvailable(_))));
    assert_eq!(runner.start_step(true, true).unwrap(), StartStep::AlreadyRunning);
    assert_eq!(runner.start_step(true, false).unwrap(), StartStep::Launch);
    assert!(runner.launch_outcome(true, "exit status: 0").is_ok());
    match runner.launch_outcome(false, "exit status: 1") {
        Err(LarsError::ProcessFailed(m)) => assert_eq!(m, "tmux new-session failed with status: exit status: 1"),
        _ => panic!("expected ProcessFailed"),
    }
}

#[test]
fn stopping_a_stopped_service_succeeds() {
    let runner = TmuxRunner::new();
    // tmux reports "no such session", and the session is indeed absent.
    assert!(runner.stop_needs_check(false));
    assert!(runner.stop_outcome(false, false, "exit status: 1").is_ok());
    assert!(!runner.is_running_outcome(false));
    assert!(runner.stop_outcome(true, false, "exit status: 0").is_ok());
    assert!(!runner.stop_needs_check(true));
    assert!(matches!(runner.stop_outcome(false, true, "exit status: 1"), Err(LarsError::ProcessFailed(_))));
}

#[test]
fn pid_from_pane_listing() {
    let runner = TmuxRunner::new();
    assert_eq!(runner.pid_outcome(true, "4242\n"), Some(4242));
    assert_eq!(runner.pid_outcome(true, "  +17 "), Some(17));
    assert_eq!(runner.pid_outcome(true, "4242\n4243\n"), None);
    assert_eq!(runner.pid_outcome(true, ""), None);
    assert_eq!(runner.pid_outcome(true, "4294967295"), Some(u32::MAX));
    assert_eq!(runner.pid_outcome(true, "4294967296"), None);
    assert_eq!(runner.pid_outcome(false, "4242"), None);
}

#[test]
fn restart_times_out_only_after_the_limit() {
    assert_eq!(restart_begin(true), RestartStep::Stop);
    assert_eq!(restart_begin(false), RestartStep::Start);
    assert_eq!(restart_next(false, 0, 2), RestartStep::Start);
    assert_eq!(restart_next(true, 1_900_000_000, 2), RestartStep::Poll);
    assert_eq!(restart_next(true, 2_000_000_000, 2), RestartStep::Poll);
    assert_eq!(restart_next(true, 2_000_000_001, 2), RestartStep::TimedOut);
    assert_eq!(restart_next(true, 2_100_000_000, 2), RestartStep::TimedOut);
    assert_eq!(restart_next(true, 1, 0), RestartStep::TimedOut);
    assert!(matches!(stop_timeout_error("web"), LarsError::StopTimeout(n) if n == "web"));
}

#[test]
fn runner_factory() {
    assert!(create_runner(RunnerType::Tmux, true).is_ok());
    assert!(matches!(create_runner(RunnerType::Tmux, false), Err(LarsError::RunnerNotAvailable(_))));
    match create_runner(RunnerType::Screen, true) {
        Err(LarsError::RunnerNotAvailable(m)) => assert_eq!(m, "screen runner is not yet implemented"),
        _ => panic!("expected RunnerNotAvailable"),
    }
    assert!(matches!(create_runner(RunnerType::Direct, true), Err(LarsError::RunnerNotAvailable(_))));
}

#[test]
fn indicators_with_and_without_colour() {
    let plain = OutputContext::new(false, true, false);
    assert_eq!(plain.status_indicator(true), "running");
    assert_eq!(plain.status_indicator(false), "stopped");
    assert_eq!(plain.enabled_indicator(true), "yes");
    assert_eq!(plain.enabled_indicator(false), "no");
    let colour = OutputContext::new(false, false, true);
    assert_eq!(colour.status_indicator(true), "\x1b[32mrunning\x1b[39m");
    assert_eq!(colour.status_indicator(false), "\x1b[31mstopped\x1b[39m");
    assert_eq!(colour.enabled_indicator(true), "\x1b[32myes\x1b[39m");
    assert_eq!(colour.enabled_indicator(false), "\x1b[2mno\x1b[0m");
    assert!(!colour.shows_messages());
}

#[test]
fn exit_codes() {
    assert_eq!(ExitCode::Success.code(), 0);
    assert_eq!(i32::from(ExitCode::ServiceNotFound), 10);
    assert_eq!(i32::from(ExitCode::ConfigError), 30);
    assert_eq!(ExitCode::StopFailed.code(), 22);
}

#[test]
fn diagnostics_verdicts() {
    let tmux = check_tmux(true, Some("tmux 3.4".to_string()));
    assert_eq!((tmux.status.as_str(), tmux.message.as_str(), tmux.required), ("pass", "tmux 3.4", true));
    let missing = check_tmux(false, None);
    assert_eq!((missing.status.as_str(), missing.message.as_str()), ("fail", "not found in PATH"));
    let screen = check_screen(Some("  Screen version 4.09.01 (GNU) 20-Aug-23\r\nmore\n"));
    assert_eq!(screen.message, "Screen version 4.09.01 (GNU) 20-Aug-23");
    assert!(!screen.required);
    assert_eq!(check_screen(Some("")).message, "unknown");
    assert_eq!(check_screen(None).status, "fail");
    let dir = check_config_dir("/etc/lars", false);
    assert_eq!(dir.message, "/etc/lars (not writable)");
    let checks = vec![check_shell(true), check_screen(None)];
    assert!(all_required_passed(&checks));
    let checks = vec![check_shell(true), dir];
    assert!(!all_required_passed(&checks));
}

#[test]
fn service_default_record() {
    let s = Service::default();
    assert_eq!(s.name, "default");
    assert_eq!(s.command, "echo hello");
}

#[test]
fn sessions_follow_identity_not_name() {
    let a = fixed_service();
    let mut renamed = fixed_service();
    renamed.name = "renamed".to_string();
    renamed.command = "other".to_string();
    assert_eq!(TmuxRunner::session_name(&a), TmuxRunner::session_name(&renamed));
    let mut other = fixed_service();
    other.id += 1;
    assert_eq!(TmuxRunner::session_name(&other), "lar_67e55044-10b1-426f-9247-bb680e5fe0c9");
    assert_ne!(TmuxRunner::session_name(&a), TmuxRunner::session_name(&other));
}

#[test]
fn unavailable_runner_messages() {
    match create_runner(RunnerType::Direct, true) {
        Err(LarsError::RunnerNotAvailable(m)) => assert_eq!(m, "direct runner is not yet implemented"),
        _ => panic!("expected RunnerNotAvailable"),
    }
    match create_runner(RunnerType::Tmux, false) {
        Err(LarsError::RunnerNotAvailable(m)) => assert_eq!(m, "tmux is not installed or not in PATH"),
        _ => panic!("expected RunnerNotAvailable"),
    }
    match TmuxRunner::new().start_step(false, true) {
        Err(LarsError::RunnerNotAvailable(m)) => assert_eq!(m, "tmux is not installed or not in PATH"),
        _ => panic!("expected RunnerNotAvailable"),
    }
}
