use std::collections::BTreeSet;
use std::time::Duration;

use alas_launcher::backend::{
    after_configured_probe, after_ephemeral_probe, after_scan_probe, backend_exit_message,
    backend_startup_step, first_port_probe, is_backend_startup_timeout, killable_pids,
    leaked_launcher_pids,
    lsof_listing_pids, netstat_listing_pids, parse_lsof_pids, parse_windows_netstat_pids,
    startup_stderr_summary, stop_failure_message, BackendError, BackendStartupTimeout,
    PortChoice, PortProbe, StartupDecision, StartupObservation, WebuiLaunchConfig,
    BACKEND_STARTUP_TIMEOUT_SECS, DEVELOPMENT_PORT, FALLBACK_SCAN_START, LAST_RESORT_PORT,
};
use alas_launcher::deploy::DeployValue;

fn text(s: &str) -> DeployValue {
    DeployValue::Text(s.to_string())
}

fn object(entries: Vec<(&str, DeployValue)>) -> DeployValue {
    DeployValue::Object {
        entries: entries.into_iter().map(|(k, v)| (k.to_string(), v)).collect(),
        text: String::new(),
    }
}

/// Runs the port choice with the given answers to its probes.
fn choose_port(
    configured: Option<u16>,
    free: impl Fn(u16) -> bool,
    ephemeral: Option<u16>,
) -> u16 {
    let mut choice = first_port_probe(configured);
    loop {
        choice = match choice {
            PortChoice::Chosen(port) => return port,
            PortChoice::Probe(PortProbe::Configured(port)) => {
                after_configured_probe(port, free(port))
            }
            PortChoice::Probe(PortProbe::Ephemeral) => after_ephemeral_probe(ephemeral),
            PortChoice::Probe(PortProbe::Scan(port)) => after_scan_probe(port, free(port)),
        };
    }
}

#[test]
fn backend_startup_timeout_is_five_minutes() {
    assert_eq!(
        Duration::from_secs(BACKEND_STARTUP_TIMEOUT_SECS),
        Duration::from_secs(5 * 60)
    );
}

#[test]
fn backend_startup_timeout_is_identified_without_matching_other_errors() {
    let timeout: BackendError = BackendStartupTimeout { port: 22267 }.into();

    assert!(is_backend_startup_timeout(&timeout));
    assert!(!is_backend_startup_timeout(&BackendError::Failed(
        "other startup error".to_string()
    )));
}

#[test]
fn startup_timeout_message_names_the_port() {
    assert_eq!(
        BackendStartupTimeout { port: 22267 }.message(),
        "Timeout waiting for port 22267 to be ready"
    );
}

#[test]
fn test_pick_production_free_port_allocates_available_port() {
    let free = |p: u16| p != 25550;
    let port = choose_port(None, free, Some(41000));
    assert!(port > 0);
    assert!(free(port));
}

#[test]
fn test_pick_production_free_port_avoids_development_port() {
    let free = |p: u16| p != 0;
    let port = choose_port(Some(25548), free, Some(41001));
    assert!(port > 0);
    assert!(free(port));
    assert_ne!(port, DEVELOPMENT_PORT);
    assert_eq!(choose_port(Some(0), |_| true, Some(50002)), 50002);
    // A port the system hands out is not used when it is the development port or 0.
    assert_eq!(choose_port(Some(25548), |_| true, Some(DEVELOPMENT_PORT)), FALLBACK_SCAN_START);
    assert_eq!(choose_port(None, |p| p == FALLBACK_SCAN_START + 1, Some(0)), FALLBACK_SCAN_START + 1);
}

#[test]
fn test_pick_production_free_port_respects_custom_available_port() {
    let free_port = 30000;
    let chosen = choose_port(Some(free_port), |_| true, Some(50000));
    assert_eq!(chosen, free_port);
}

#[test]
fn port_choice_asks_the_system_when_custom_port_is_taken() {
    assert_eq!(choose_port(Some(30000), |p| p != 30000, Some(50003)), 50003);
}

#[test]
fn port_choice_scans_fallback_range() {
    assert_eq!(
        choose_port(None, |p| p == FALLBACK_SCAN_START + 3, None),
        FALLBACK_SCAN_START + 3
    );
    assert_eq!(choose_port(None, |_| false, None), LAST_RESORT_PORT);
}

#[test]
fn launch_config_reads_webui_settings() {
    let config = object(vec![(
        "Deploy",
        object(vec![(
            "Webui",
            object(vec![
                ("WebuiHost", text("0.0.0.0")),
                ("WebuiPort", text("22267")),
                ("Password", text("  ")),
                ("CDN", text("Yes")),
                ("WebuiSSLKey", text("key.pem")),
                (
                    "Run",
                    DeployValue::Array {
                        items: vec![text("alas"), text(" "), text("alas2")],
                        text: String::new(),
                    },
                ),
            ]),
        )]),
    )]);
    assert_eq!(WebuiLaunchConfig::configured_port(Some(&config)), Some(22267));
    let launch = WebuiLaunchConfig::from_deploy_config(Some(&config), 30001);
    assert_eq!(launch.host, "0.0.0.0");
    assert_eq!(launch.port, 30001);
    assert_eq!(launch.password, None);
    assert!(launch.cdn);
    assert_eq!(launch.ssl_key.as_deref(), Some("key.pem"));
    assert_eq!(launch.ssl_cert, None);
    assert_eq!(
        launch.args(),
        vec![
            "gui.py", "--host", "0.0.0.0", "--port", "30001", "--cdn", "--ssl-key", "key.pem",
            "--run", "alas", "alas2"
        ]
    );
}

#[test]
fn launch_config_defaults_without_configuration() {
    let launch = WebuiLaunchConfig::from_deploy_config(None, 25550);
    assert_eq!(launch.args(), vec!["gui.py", "--host", "127.0.0.1", "--port", "25550"]);
}

#[test]
fn netstat_listing_finds_listening_pids_on_port() {
    let listing = "\r\nActive Connections\r\n\r\n  Proto  Local Address          Foreign Address        State           PID\r\n  TCP    0.0.0.0:22267          0.0.0.0:0              LISTENING       4242\r\n  TCP    127.0.0.1:22267        127.0.0.1:50000        ESTABLISHED     4343\r\n  TCP    [::]:22267             [::]:0                 LISTENING       4444\r\n  TCP    0.0.0.0:222670         0.0.0.0:0              LISTENING       4545\r\n";
    let pids = netstat_listing_pids(listing, 22267);
    assert_eq!(pids, BTreeSet::from([4242, 4444]));
}

#[test]
fn netstat_output_with_invalid_utf8_is_still_read() {
    let mut output = b"  TCP    0.0.0.0:8080   0.0.0.0:0   LISTENING   77\n".to_vec();
    output.extend_from_slice(&[0xff, 0xfe, b'\n']);
    output.extend_from_slice(b"  TCP    0.0.0.0:8080   0.0.0.0:0   LISTENING   78\xff\n");
    let pids = parse_windows_netstat_pids(&output, 8080);
    assert_eq!(pids, BTreeSet::from([77]));
}

#[test]
fn lsof_listing_reads_one_pid_per_line() {
    assert_eq!(lsof_listing_pids("123\n 456 \nabc\n"), BTreeSet::from([123, 456]));
    assert_eq!(parse_lsof_pids(b"9\n\xff10\n"), BTreeSet::from([9]));
    assert!(parse_lsof_pids(b"").is_empty());
}

#[test]
fn killable_pids_spare_idle_and_current_process() {
    let pids = BTreeSet::from([0, 7, 42, 99]);
    assert_eq!(killable_pids(&pids, 42), BTreeSet::from([7, 99]));
}

#[test]
fn stderr_summary_keeps_last_six_lines() {
    let stderr = "\n l1\nl2\nl3\nl4\nl5\nl6\nl7\n\n";
    assert_eq!(
        startup_stderr_summary(stderr).as_deref(),
        Some("l2\nl3\nl4\nl5\nl6\nl7")
    );
    assert_eq!(startup_stderr_summary(" \n\t "), None);
}

#[test]
fn exit_message_includes_summary_when_present() {
    assert_eq!(
        backend_exit_message(22267, "exit code: 1", "Traceback\nError: boom\n"),
        "Backend exited before port 22267 was ready: exit code: 1\nTraceback\nError: boom"
    );
    assert_eq!(
        backend_exit_message(22267, "exit code: 1", "   "),
        "Backend exited before port 22267 was ready: exit code: 1"
    );
}

#[test]
fn stop_failure_message_names_port_and_error() {
    assert_eq!(
        stop_failure_message(8080, "access denied"),
        "Failed to stop timed out backend on port 8080 before recovery: access denied"
    );
}

#[test]
fn startup_step_decides_on_each_look() {
    let second = 1_000_000_000u64;
    assert!(matches!(
        backend_startup_step(8080, second, StartupObservation::PortOpen),
        StartupDecision::Ready
    ));
    assert!(matches!(
        backend_startup_step(8080, second, StartupObservation::Running),
        StartupDecision::KeepWaiting
    ));
    match backend_startup_step(
        8080,
        second,
        StartupObservation::Exited { status: "exit code: 2".to_string(), stderr: String::new() },
    ) {
        StartupDecision::Failed(m) => {
            assert_eq!(m, "Backend exited before port 8080 was ready: exit code: 2")
        }
        _ => panic!("an exited backend fails"),
    }
    assert!(matches!(
        backend_startup_step(8080, 300 * second, StartupObservation::PortOpen),
        StartupDecision::TimedOut
    ));
}

#[test]
fn leftover_processes_found_by_launcher_pid() {
    let env = |v: &[&str]| v.iter().map(|s| s.to_string()).collect::<Vec<String>>();
    let procs = vec![
        (10, env(&["PATH=/bin", "ALAS_LAUNCHER_PID=42"])),
        (42, env(&["ALAS_LAUNCHER_PID=42"])),
        (11, env(&["ALAS_LAUNCHER_PID=420"])),
        (12, env(&[])),
        (13, env(&["ALAS_LAUNCHER_PID=42", "ALAS_LAUNCHER_PID=42"])),
    ];
    assert_eq!(leaked_launcher_pids(&procs, 42), vec![10, 13]);
    assert!(leaked_launcher_pids(&procs, 7).is_empty());
}

#[test]
fn launch_settings_read_from_yaml_text() {
    let yaml = "Deploy:\n  Webui:\n    WebuiHost: 0.0.0.0\n    WebuiPort: 22267\n    CDN: true\n    Run: [alas, '', 3]\n";
    assert_eq!(WebuiLaunchConfig::configured_port_of_text(Some(yaml)), Some(22267));
    let launch = WebuiLaunchConfig::from_deploy_text(Some(yaml), 30002);
    assert_eq!(launch.host, "0.0.0.0");
    assert_eq!(launch.port, 30002);
    assert!(launch.cdn);
    assert_eq!(launch.run, vec!["alas".to_string(), "3".to_string()]);
    let default = WebuiLaunchConfig::from_deploy_text(None, 30003);
    assert_eq!(default.host, "127.0.0.1");
    assert_eq!(WebuiLaunchConfig::configured_port_of_text(None), None);
}
