use alas_launcher::progress::{
    dependency_global_progress, extract_uv_downloaded_package_name, extract_uv_package_name,
    is_uv_progress_line, retry_after_failure, runtime_wait_progress, scale_progress,
    should_report_wait_tick, splash_update_for_git_output, tip_index, get_tip,
    uv_download_size_text, CommandMonitor, GitProgressState, LineSplitter, LogLevel,
    OutputUpdate, ScriptPhase, SplashUpdate, UvDetail, UvProgressState, MAX_UPDATE_RETRIES,
    TIPS_COUNT,
};

const SECOND: u64 = 1_000_000_000;

fn split_all(bytes: &[u8]) -> Vec<String> {
    let mut splitter = LineSplitter::new();
    let mut lines = Vec::new();
    for b in bytes {
        lines.extend(splitter.feed(*b));
    }
    if let Some(last) = splitter.finish() {
        lines.push(last);
    }
    lines
}

#[test]
fn line_splitter_breaks_on_control_bytes() {
    assert_eq!(split_all(b"first\r\nsecond\n\nthird"), vec!["first", "second", "third"]);
    assert_eq!(split_all("é".as_bytes()), Vec::<String>::new());
}

#[test]
fn line_splitter_cuts_repeated_progress_labels() {
    assert_eq!(
        split_all(b"Receiving objects: 10%Receiving objects: 20%"),
        vec!["Receiving objects: 10%", "Receiving objects: 20%"]
    );
    assert_eq!(split_all(b"a:b"), vec!["a:b"]);
}

#[test]
fn splash_updates_are_capped() {
    let s = SplashUpdate::loading("sub".to_string(), "t".to_string(), "d".to_string(), 150);
    assert_eq!(s.progress, 100);
    assert!(!s.is_error);
    let e = SplashUpdate::error("sub".to_string(), "t".to_string(), "d".to_string(), 40)
        .with_subtitle("other".to_string())
        .with_uv_progress(120, "uv".to_string());
    assert!(e.is_error);
    assert_eq!(e.subtitle, "other");
    assert_eq!(e.uv_progress.expect("uv progress").progress, 100);
}

#[test]
fn progress_scaling() {
    assert_eq!(scale_progress(50, 29, 52), 40);
    assert_eq!(scale_progress(200, 10, 20), 20);
    assert_eq!(dependency_global_progress(0), 64);
    assert_eq!(dependency_global_progress(100), 90);
    assert_eq!(runtime_wait_progress(605, 11, 13), (12, 60));
    assert_eq!(runtime_wait_progress(5000, 11, 13), (13, 500));
    assert!(should_report_wait_tick(1));
    assert!(should_report_wait_tick(20));
    assert!(!should_report_wait_tick(21));
}

#[test]
fn retries_stop_at_the_limit() {
    assert_eq!(retry_after_failure(0), Some(1));
    assert_eq!(retry_after_failure(MAX_UPDATE_RETRIES), None);
}

#[test]
fn tips_cycle_through_all() {
    assert_eq!(tip_index(19), 0);
    assert_eq!(tip_index(45), 7);
}

#[test]
fn uv_line_parsing() {
    assert_eq!(extract_uv_package_name("Downloading NumPy==2.4.3 (8.2 MiB)").as_deref(), Some("numpy"));
    assert_eq!(extract_uv_package_name("Downloading torch @ https://x/y.whl").as_deref(), Some("torch"));
    assert_eq!(extract_uv_package_name("Downloading demo (1.5MiB)").as_deref(), Some("demo"));
    assert_eq!(extract_uv_package_name("Downloaded demo"), None);
    assert_eq!(extract_uv_downloaded_package_name("Downloaded Demo==1.0 extra").as_deref(), Some("demo"));
    assert_eq!(uv_download_size_text("Downloading demo (1.5MiB)").as_deref(), Some("1.5MiB"));
    assert!(is_uv_progress_line("warning: something"));
    assert!(!is_uv_progress_line("error: something"));
}

#[test]
fn git_output_moves_forward_only() {
    let mut state = GitProgressState::new();
    let section = splash_update_for_git_output("===== PULL REPOSITORY BRANCH =====", &mut state)
        .expect("a section banner updates the splash");
    assert_eq!(section.progress, 58);
    assert_eq!(section.detail, "PULL REPOSITORY BRANCH");
    let line = splash_update_for_git_output("Receiving objects:  50% (1/2)", &mut state)
        .expect("a progress line updates the splash");
    assert_eq!(line.progress, 58);
    assert!(splash_update_for_git_output("plain text", &mut state).is_none());
}

#[test]
fn uv_progress_moves_through_stages() {
    let mut uv = UvProgressState::new(0);
    assert_eq!(uv.progress(25 * SECOND), 4);
    assert_eq!(uv.detail(25 * SECOND), UvDetail::Resolving { secs: 25 });
    uv.observe("Resolved 12 packages in 1.2s", 26 * SECOND, None);
    assert_eq!(uv.progress(26 * SECOND), 22);
    uv.observe("Prepared 12 packages", 27 * SECOND, None);
    assert_eq!(uv.progress(27 * SECOND), 92);
    assert_eq!(uv.detail(27 * SECOND), UvDetail::Installing);
    uv.observe("Installed 12 packages", 28 * SECOND, None);
    assert_eq!(uv.progress(28 * SECOND), 98);
}

#[test]
fn uv_download_detail_reports_bytes() {
    let mut uv = UvProgressState::new(0);
    uv.observe("Downloading a (1KiB)", SECOND, Some(1024));
    assert_eq!(uv.detail(2 * SECOND), UvDetail::WaitingForSpeed);
    uv.observe("Downloaded a", 3 * SECOND, None);
    assert_eq!(
        uv.detail(5 * SECOND),
        UvDetail::Downloading { bytes: 1024, elapsed_nanos: 4 * SECOND }
    );
}

#[test]
fn command_monitor_tracks_dependency_sync() {
    let mut monitor = CommandMonitor::new(ScriptPhase::Dependencies, 0);
    let (update, level) = monitor.on_line(true, "Resolved 3 packages", SECOND, None);
    assert_eq!(level, LogLevel::Info);
    match update {
        Some(OutputUpdate::Dependencies(u)) => {
            assert_eq!(u.uv_progress, 22);
            assert_eq!(u.progress, 69);
        }
        _ => panic!("a status line updates the splash"),
    }
    let (none, warn) = monitor.on_line(true, "error: boom", SECOND, None);
    assert!(none.is_none());
    assert_eq!(warn, LogLevel::Warning);
    let wait = monitor.on_wait(2 * SECOND).expect("dependency waits are shown");
    assert_eq!(wait.elapsed_secs, 1);
    assert!(wait.progress >= 69);
    assert_eq!(monitor.on_exit(false), Err(Some("error: boom".to_string())));
    assert_eq!(monitor.on_exit(true), Ok(()));
}

#[test]
fn command_monitor_for_git_has_no_wait_updates() {
    let mut monitor = CommandMonitor::new(ScriptPhase::Git, 0);
    assert!(monitor.on_wait(SECOND).is_none());
    assert_eq!(monitor.on_exit(false), Err(None));
    let (update, _) = monitor.on_line(false, "  SHOW VERSION =====  ", SECOND, None);
    match update {
        Some(OutputUpdate::Git(g)) => assert_eq!(g.progress, 63),
        _ => panic!("a banner updates the splash"),
    }
}

#[test]
fn tip_key_names_one_of_the_tips() {
    assert_eq!(get_tip(45), "tips.7");
    assert_eq!(get_tip(19), "tips.0");
    let key = get_tip(1_700_000_000);
    let n: usize = key.strip_prefix("tips.").unwrap().parse().unwrap();
    assert!(n < TIPS_COUNT);
}

#[test]
fn uv_progress_never_goes_back() {
    let mut uv = UvProgressState::new(0);
    assert_eq!(uv.progress(100 * SECOND), 12);
    uv.observe("Updating index", 101 * SECOND, None);
    assert_eq!(uv.progress(0), 12);
    uv.observe("Resolved 3 packages in 0.1s", 102 * SECOND, None);
    assert_eq!(uv.progress(102 * SECOND), 22);
    assert_eq!(uv.progress(0), 22);
}

#[test]
fn git_progress_never_goes_back() {
    let mut state = GitProgressState::new();
    let first = splash_update_for_git_output("Updating files: 100% (9881/9881), done.", &mut state)
        .expect("a progress line");
    let second = splash_update_for_git_output("remote: Counting objects:   1% (1/66)", &mut state)
        .expect("a progress line");
    assert!(second.progress >= first.progress);
    assert_eq!(second.progress, first.progress);
    assert!(splash_update_for_git_output("nothing to see", &mut state).is_none());
}

#[test]
fn dependency_progress_never_goes_back_over_a_run() {
    let mut monitor = CommandMonitor::new(ScriptPhase::Dependencies, 0);
    let mut shown = Vec::new();
    let lines = [
        "Resolved 3 packages in 0.5s",
        "Downloading a (1KiB)",
        "Downloaded a",
        "Prepared 3 packages",
        "Installed 3 packages",
    ];
    for (i, line) in lines.iter().enumerate() {
        if let (Some(OutputUpdate::Dependencies(u)), _) =
            monitor.on_line(false, line, (i as u64 + 1) * SECOND, Some(1024))
        {
            shown.push(u.progress);
        }
        if let Some(w) = monitor.on_wait((i as u64 + 1) * SECOND) {
            shown.push(w.progress);
        }
    }
    assert!(!shown.is_empty());
    assert!(shown.iter().all(|p| (64..=100).contains(p)));
    assert!(shown.windows(2).all(|w| w[0] <= w[1]));
}
