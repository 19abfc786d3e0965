use ghost::models::{AuthMethod, HealthStatus, SecurityStatus, ServerConnection};
use ghost::ssh::{
    AvailableTerminal, ConnectionMode, ConnectionTestResult, DetectionStrategy, EnvHint,
    LaunchPlan, SSHManager, TcpProbeOutcome, classify_quick_check, detection_order,
    env_terminal_hint, first_available, new_terminal_command, direct_ssh_args,
    CONNECTION_TIMEOUT, QUICK_CHECK_TIMEOUT,
};

fn target(name: &str, host: &str, port: u16, user: &str) -> ServerConnection {
    ServerConnection::new(
        name.to_string(),
        host.to_string(),
        port,
        user.to_string(),
    )
}

#[test]
fn security_classification_table() {
    let manager = SSHManager::new();
    let mut key = target("k", "h", 22, "u");
    key.auth_method = AuthMethod::PublicKey { key_path: "~/.ssh/id_rsa".to_string() };
    assert_eq!(manager.assess_security_status(&key), SecurityStatus::Secure);

    let agent = target("a", "h", 22, "u");
    assert_eq!(manager.assess_security_status(&agent), SecurityStatus::Secure);

    let mut pw22 = target("p", "h", 22, "u");
    pw22.auth_method = AuthMethod::Password;
    assert_eq!(manager.assess_security_status(&pw22), SecurityStatus::Vulnerable);

    let mut pw_other = target("p", "h", 2222, "u");
    pw_other.auth_method = AuthMethod::Password;
    assert_eq!(manager.assess_security_status(&pw_other), SecurityStatus::Secure);

    let mut inter = target("i", "h", 22, "u");
    inter.auth_method = AuthMethod::Interactive;
    assert_eq!(manager.assess_security_status(&inter), SecurityStatus::Unknown);

    let mut pw1 = target("p", "h", 1, "u");
    pw1.auth_method = AuthMethod::Password;
    assert_eq!(manager.assess_security_status(&pw1), SecurityStatus::Secure);

    let mut pw_max = target("p", "h", 65535, "u");
    pw_max.auth_method = AuthMethod::Password;
    assert_eq!(manager.assess_security_status(&pw_max), SecurityStatus::Secure);
}

#[test]
fn timeout_budgets_are_distinct() {
    assert_eq!(CONNECTION_TIMEOUT, 10);
    assert_eq!(QUICK_CHECK_TIMEOUT, 5);
}

#[test]
fn refused_connection_probes_offline_with_cause() {
    let server = target("box", "10.0.0.5", 22, "root");
    let outcome = TcpProbeOutcome::ConnectFailed("connection refused".to_string());
    let result = classify_quick_check(&server, &outcome, 12);
    assert_eq!(result.status, HealthStatus::Offline);
    assert_eq!(result.security_status, SecurityStatus::Unknown);
    assert_eq!(result.latency_ms, Some(12));
    let msg = result.error_message.expect("a failed probe carries a cause");
    assert!(!msg.is_empty());
    assert_eq!(msg, "Connection failed: connection refused");
}

#[test]
fn timed_out_probe_is_offline() {
    let server = target("box", "10.0.0.5", 22, "root");
    let result = classify_quick_check(&server, &TcpProbeOutcome::TimedOut, 5000);
    assert_eq!(result.status, HealthStatus::Offline);
    assert_eq!(result.error_message.as_deref(), Some("Connection timeout"));
}

#[test]
fn successful_probe_is_online_with_classification() {
    let mut server = target("box", "h", 22, "root");
    server.auth_method = AuthMethod::Password;
    let result = classify_quick_check(&server, &TcpProbeOutcome::Connected, 7);
    assert_eq!(result.status, HealthStatus::Online);
    assert_eq!(result.security_status, SecurityStatus::Vulnerable);
    assert_eq!(result.latency_ms, Some(7));
    assert!(result.error_message.is_none());
}

#[test]
fn test_connection_uses_its_own_causes() {
    let server = target("box", "h", 22, "root");
    let manager = SSHManager::new();
    let failed = manager.test_connection(
        &server,
        &TcpProbeOutcome::ConnectFailed("nope".to_string()),
        3,
    );
    assert_eq!(failed.error_message.as_deref(), Some("Failed to establish TCP connection"));
    let timed = manager.test_connection(&server, &TcpProbeOutcome::TimedOut, 3);
    assert_eq!(timed.error_message.as_deref(), Some("Connection timeout"));
}

fn online_probe() -> ConnectionTestResult {
    ConnectionTestResult {
        status: HealthStatus::Online,
        security_status: SecurityStatus::Secure,
        latency_ms: Some(1),
        error_message: None,
    }
}

#[test]
fn force_new_window_without_terminal_names_the_supported_set() {
    let server = target("box", "h", 22, "root");
    let mut manager = SSHManager::new();
    let plan = manager.plan_connection(
        &server,
        ConnectionMode::NewTerminal,
        &online_probe(),
        AvailableTerminal::NoTerminal,
    );
    match plan {
        Err(msg) => {
            assert_eq!(
                msg,
                "No terminal emulator available for new terminal mode. Available terminals: \
                 Ghostty, Alacritty, Kitty, Wezterm, GNOME Terminal, Konsole, XFCE Terminal, XTerm"
            );
            assert!(msg.contains("Ghostty"));
            assert!(msg.contains("XTerm"));
        },
        Ok(_) => panic!("a forced new window must fail without a terminal"),
    }
}

#[test]
fn unreachable_target_aborts_before_any_spawn() {
    let server = target("box", "h", 22, "root");
    let mut manager = SSHManager::new();
    let probe = ConnectionTestResult {
        status: HealthStatus::Offline,
        security_status: SecurityStatus::Unknown,
        latency_ms: Some(10),
        error_message: Some("Connection timeout".to_string()),
    };
    let plan = manager.plan_connection(
        &server,
        ConnectionMode::Auto,
        &probe,
        AvailableTerminal::Alacritty,
    );
    match plan {
        Err(msg) => assert_eq!(msg, "Cannot connect: Connection timeout"),
        Ok(_) => panic!("an unreachable target must not be launched"),
    }
}

#[test]
fn auto_mode_prefers_a_new_window() {
    let server = target("box", "example.com", 22, "alice");
    let mut manager = SSHManager::new();
    let plan = manager.plan_connection(
        &server,
        ConnectionMode::Auto,
        &online_probe(),
        AvailableTerminal::Alacritty,
    );
    match plan {
        Ok(LaunchPlan::SpawnTerminal { program, args }) => {
            assert_eq!(program, "alacritty");
            assert_eq!(
                args,
                vec![
                    "-e",
                    "ssh",
                    "alice@example.com",
                    "-o",
                    "ServerAliveInterval=60",
                    "-o",
                    "ServerAliveCountMax=3",
                    "-o",
                    "ConnectTimeout=10",
                    "-o",
                    "BatchMode=no",
                ]
            );
        },
        _ => panic!("auto mode with a terminal available must spawn"),
    }
}

#[test]
fn auto_mode_falls_back_to_the_current_terminal() {
    let server = target("box", "example.com", 2200, "alice");
    let mut manager = SSHManager::new();
    let plan = manager.plan_connection(
        &server,
        ConnectionMode::Auto,
        &online_probe(),
        AvailableTerminal::NoTerminal,
    );
    match plan {
        Ok(LaunchPlan::TakeOver { args }) => {
            assert_eq!(&args[0..3], &["-p", "2200", "alice@example.com"]);
        },
        _ => panic!("auto mode without a terminal must take over"),
    }
}

#[test]
fn direct_mode_always_takes_over() {
    let server = target("box", "example.com", 22, "alice");
    let mut manager = SSHManager::new();
    let plan = manager.plan_connection(
        &server,
        ConnectionMode::Direct,
        &online_probe(),
        AvailableTerminal::Kitty,
    );
    assert!(matches!(plan, Ok(LaunchPlan::TakeOver { .. })));
}

#[test]
fn direct_args_always_carry_the_port() {
    let server = target("box", "example.com", 22, "alice");
    let args = direct_ssh_args(&server);
    assert_eq!(
        args,
        vec![
            "-p",
            "22",
            "alice@example.com",
            "-o",
            "ServerAliveInterval=60",
            "-o",
            "ServerAliveCountMax=3",
            "-o",
            "ConnectTimeout=10",
            "-o",
            "BatchMode=no",
        ]
    );
}

#[test]
fn key_paths_are_expanded_before_use() {
    let mut server = target("box", "example.com", 22, "alice");
    server.auth_method = AuthMethod::PublicKey { key_path: "/tmp/key_ed25519".to_string() };
    let args = direct_ssh_args(&server);
    // A path without the home shorthand passes through expansion unchanged.
    assert_eq!(args[3], "-i");
    assert_eq!(args[4], "/tmp/key_ed25519");

    server.auth_method = AuthMethod::PublicKey { key_path: "~/.ssh/id_rsa".to_string() };
    let args = direct_ssh_args(&server);
    assert_eq!(args[3], "-i");
    assert!(args[4].ends_with(".ssh/id_rsa"));
}

#[test]
fn wrapper_terminals_take_the_whole_command() {
    let server = target("box", "example.com", 22, "alice");
    let (program, args) =
        new_terminal_command(&AvailableTerminal::GnomeTerminal, &server).expect("a command");
    assert_eq!(program, "gnome-terminal");
    assert_eq!(&args[0..3], &["--", "bash", "-c"]);
    assert_eq!(
        args[3],
        "ssh -o ServerAliveInterval=60 -o ServerAliveCountMax=3 -o ConnectTimeout=10 \
         -o BatchMode=no alice@example.com"
    );

    let (program, args) =
        new_terminal_command(&AvailableTerminal::XTerm, &server).expect("a command");
    assert_eq!(program, "xterm");
    assert_eq!(args[0], "-e");
    assert!(args[1].starts_with("ssh "));
    assert!(args[1].ends_with("alice@example.com"));

    assert!(new_terminal_command(&AvailableTerminal::NoTerminal, &server).is_none());
}

#[test]
fn bare_invocations_per_terminal() {
    let server = target("box", "example.com", 22, "alice");
    let args = AvailableTerminal::XTerm.get_ssh_command(&server).expect("args");
    assert_eq!(args, vec!["-e", "ssh alice@example.com"]);
    let args = AvailableTerminal::Kitty.get_ssh_command(&server).expect("args");
    assert_eq!(args, vec!["ssh", "alice@example.com"]);
    let args = AvailableTerminal::Wezterm.get_ssh_command(&server).expect("args");
    assert_eq!(args, vec!["start", "--", "ssh", "alice@example.com"]);
    assert!(AvailableTerminal::NoTerminal.get_ssh_command(&server).is_none());
}

#[test]
fn environment_marker_decides_detection() {
    assert_eq!(env_terminal_hint(&None), EnvHint::NoHint);
    assert_eq!(
        env_terminal_hint(&Some("Apple_Terminal".to_string())),
        EnvHint::Identified(AvailableTerminal::MacTerminal)
    );
    assert_eq!(
        env_terminal_hint(&Some("kitty".to_string())),
        EnvHint::Identified(AvailableTerminal::Kitty)
    );
    assert_eq!(
        env_terminal_hint(&Some("WezTerm".to_string())),
        EnvHint::Identified(AvailableTerminal::Wezterm)
    );
    // The one terminal that cannot spawn windows is excluded outright.
    assert_eq!(env_terminal_hint(&Some("WarpTerminal".to_string())), EnvHint::Excluded);
    assert_eq!(env_terminal_hint(&Some("xterm-256color".to_string())), EnvHint::NoHint);
}

#[test]
fn candidate_order_and_first_available() {
    let order = detection_order();
    assert_eq!(order.len(), 9);
    assert_eq!(order[0], AvailableTerminal::Ghostty);
    assert_eq!(order[8], AvailableTerminal::MacTerminal);
    // The process-checked terminal is never a candidate.
    assert!(!order.contains(&AvailableTerminal::Warp));

    let available = vec![false, false, true, true, false, false, false, false, false];
    assert_eq!(first_available(&order, &available), AvailableTerminal::Kitty);
    let none = vec![false; 9];
    assert_eq!(first_available(&order, &none), AvailableTerminal::NoTerminal);
}

#[test]
fn detection_strategies() {
    assert_eq!(AvailableTerminal::Warp.detection_strategy(), DetectionStrategy::ProcessQuery);
    assert_eq!(AvailableTerminal::Warp.process_query_name(), Some("warp-terminal"));
    assert_eq!(
        AvailableTerminal::MacTerminal.detection_strategy(),
        DetectionStrategy::PlatformBuiltin
    );
    assert_eq!(
        AvailableTerminal::NoTerminal.detection_strategy(),
        DetectionStrategy::NotSpawnable
    );
    assert_eq!(AvailableTerminal::Ghostty.detection_strategy(), DetectionStrategy::PathLookup);
    assert_eq!(AvailableTerminal::Ghostty.command_name(), Some("ghostty"));
    assert_eq!(AvailableTerminal::NoTerminal.command_name(), None);
}

#[test]
fn update_server_stats_moves_the_counters() {
    let mut server = target("box", "h", 22, "root");
    let ok = classify_quick_check(&server, &TcpProbeOutcome::Connected, 4);
    ok.update_server_stats(&mut server);
    assert_eq!(server.health_status, HealthStatus::Online);
    assert_eq!(server.stats.connection_count, 1);
    assert_eq!(server.stats.failed_attempts, 0);
    assert_eq!(server.stats.latency_ms, Some(4));
    assert!(server.stats.last_connected_ms.is_some());

    let bad = classify_quick_check(&server, &TcpProbeOutcome::TimedOut, 5000);
    bad.update_server_stats(&mut server);
    assert_eq!(server.health_status, HealthStatus::Offline);
    assert_eq!(server.stats.connection_count, 1);
    assert_eq!(server.stats.failed_attempts, 1);
}
