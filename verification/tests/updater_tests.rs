use alas_launcher::updater::{
    CheckOutcome, CheckStart, DownloadStart, UpdateError, UpdateNotice, UpdateState, UpdaterStore,
};

type Store = UpdaterStore<String, String>;

fn available(version: &str) -> CheckOutcome<String> {
    CheckOutcome::Available {
        version: version.to_string(),
        platform: "windows-x64".to_string(),
        title: "Update available".to_string(),
        detail: format!("Version {version} is ready"),
    }
}

#[test]
fn state_reads_back_what_was_set() {
    let mut store = Store::new();
    assert_eq!(store.get_update_state(), UpdateState::Idle);
    store.set_update_state(UpdateState::updating(42, "Updating".to_string(), "half".to_string()));
    assert_eq!(
        store.get_update_state(),
        UpdateState::Updating { progress: 42, title: "Updating".to_string(), detail: "half".to_string() }
    );
    store.set_update_state(UpdateState::ready_to_restart("1.2.3".to_string()));
    assert_eq!(
        store.get_update_state(),
        UpdateState::ReadyToRestart { version: "1.2.3".to_string() }
    );
}

#[test]
fn pending_payload_is_taken_once() {
    let mut store = Store::new();
    assert!(!store.has_pending_launcher_update());
    store.set_pending_launcher_update("payload.exe".to_string());
    assert!(store.has_pending_launcher_update());
    assert_eq!(store.take_pending_launcher_update().as_deref(), Some("payload.exe"));
    assert!(!store.has_pending_launcher_update());
    assert_eq!(store.take_pending_launcher_update(), None);
}

#[test]
fn pending_platform_is_kept_until_cleared() {
    let mut store = Store::new();
    assert_eq!(store.get_pending_update_platform(), None);
    store.set_pending_update_platform("1.2.3".to_string(), "mac-arm64".to_string());
    assert_eq!(
        store.get_pending_update_platform(),
        Some(("1.2.3".to_string(), "mac-arm64".to_string()))
    );
    store.clear_pending_update_platform();
    assert_eq!(store.get_pending_update_platform(), None);
}

#[test]
fn second_check_is_refused_while_one_runs() {
    let mut store = Store::new();
    let first = store.begin_update_check(false);
    assert_eq!(first, CheckStart::Started { announce: true });
    assert_eq!(first.name(), "checking_started");
    assert!(store.is_update_in_progress());
    assert_eq!(store.get_update_state(), UpdateState::Checking);
    let second = store.begin_update_check(true);
    assert_eq!(second, CheckStart::InProgress);
    assert_eq!(second.name(), "in_progress");
    assert_eq!(store.get_update_state(), UpdateState::Checking);
}

#[test]
fn background_check_is_not_announced() {
    let mut store = Store::new();
    assert_eq!(store.begin_update_check(true), CheckStart::Started { announce: false });
}

#[test]
fn found_update_is_remembered_and_announced() {
    let mut store = Store::new();
    store.begin_update_check(true);
    let follow = store.finish_update_check(available("2.0.0"), true);
    assert!(!store.is_update_in_progress());
    assert_eq!(
        follow.notice,
        Some(UpdateNotice::UpdateAvailable { version: "2.0.0".to_string() })
    );
    assert_eq!(follow.reset_to_idle_after_millis, None);
    assert_eq!(
        store.get_pending_update_platform(),
        Some(("2.0.0".to_string(), "windows-x64".to_string()))
    );
    assert_eq!(
        store.get_update_state(),
        UpdateState::Available {
            version: "2.0.0".to_string(),
            title: "Update available".to_string(),
            detail: "Version 2.0.0 is ready".to_string(),
        }
    );
}

#[test]
fn up_to_date_is_announced_only_when_asked() {
    let mut store = Store::new();
    store.set_pending_update_platform("old".to_string(), "p".to_string());
    store.begin_update_check(false);
    let follow = store.finish_update_check(CheckOutcome::UpToDate, false);
    assert_eq!(follow.notice, Some(UpdateNotice::AlreadyLatest));
    assert_eq!(follow.reset_to_idle_after_millis, Some(3500));
    assert_eq!(store.get_pending_update_platform(), None);
    assert_eq!(store.get_update_state(), UpdateState::AlreadyLatest);

    store.begin_update_check(true);
    let quiet = store.finish_update_check(CheckOutcome::UpToDate, true);
    assert_eq!(quiet.notice, None);
}

#[test]
fn failed_check_is_announced_and_resets() {
    let mut store = Store::new();
    store.begin_update_check(true);
    let follow =
        store.finish_update_check(CheckOutcome::Failed { detail: "offline".to_string() }, true);
    assert_eq!(follow.notice, Some(UpdateNotice::Failed { detail: "offline".to_string() }));
    assert_eq!(follow.reset_to_idle_after_millis, Some(5000));
    assert_eq!(store.get_update_state(), UpdateState::Failed { detail: "offline".to_string() });
    assert!(!store.is_update_in_progress());
}

#[test]
fn download_needs_a_found_update() {
    let mut store = Store::new();
    match store.begin_download("t".to_string(), "d".to_string()) {
        Err(e) => {
            assert_eq!(e, UpdateError::NoPendingUpdate);
            assert_eq!(e.message(), "No pending update available to download");
        }
        Ok(_) => panic!("nothing to download"),
    }
    assert!(!store.is_update_in_progress());
}

#[test]
fn download_is_refused_while_a_check_runs() {
    let mut store = Store::new();
    store.set_pending_update_platform("2.0.0".to_string(), "linux".to_string());
    store.begin_update_check(true);
    match store.begin_download("t".to_string(), "d".to_string()) {
        Ok(start) => {
            assert_eq!(start.name(), "in_progress");
            assert!(matches!(start, DownloadStart::InProgress));
        }
        Err(_) => panic!("an update was found"),
    }
    assert_eq!(store.get_update_state(), UpdateState::Checking);
}

#[test]
fn finished_download_waits_for_restart() {
    let mut store = Store::new();
    store.begin_update_check(true);
    store.finish_update_check(available("2.0.0"), true);
    let start = store
        .begin_download("Updating".to_string(), "Version 2.0.0".to_string())
        .expect("an update was found");
    assert_eq!(start.name(), "download_started");
    let version = match start {
        DownloadStart::Started { version, platform } => {
            assert_eq!(platform, "windows-x64");
            version
        }
        DownloadStart::InProgress => panic!("nothing else runs"),
    };
    assert_eq!(
        store.get_update_state(),
        UpdateState::Updating { progress: 8, title: "Updating".to_string(), detail: "Version 2.0.0".to_string() }
    );
    let follow = store.finish_download(version, Ok("payload.exe".to_string()));
    assert_eq!(follow.notice, Some(UpdateNotice::ReadyToRestart));
    assert_eq!(
        store.get_update_state(),
        UpdateState::ReadyToRestart { version: "2.0.0".to_string() }
    );
    assert_eq!(store.get_pending_update_platform(), None);
    assert_eq!(store.take_pending_launcher_update().as_deref(), Some("payload.exe"));
}

#[test]
fn failed_download_keeps_found_update() {
    let mut store = Store::new();
    store.set_pending_update_platform("2.0.0".to_string(), "linux".to_string());
    store.begin_download("t".to_string(), "d".to_string()).expect("found");
    let follow = store.finish_download("2.0.0".to_string(), Err("disk full".to_string()));
    assert_eq!(follow.notice, Some(UpdateNotice::Failed { detail: "disk full".to_string() }));
    assert_eq!(follow.reset_to_idle_after_millis, Some(5000));
    assert!(!store.is_update_in_progress());
    assert_eq!(
        store.get_pending_update_platform(),
        Some(("2.0.0".to_string(), "linux".to_string()))
    );
    assert!(!store.has_pending_launcher_update());
}

#[test]
fn dismiss_goes_idle_and_forgets_found_update() {
    let mut store = Store::new();
    store.set_pending_update_platform("2.0.0".to_string(), "linux".to_string());
    store.set_update_state(UpdateState::AlreadyLatest);
    store.cancel_or_dismiss_update();
    assert_eq!(store.get_update_state(), UpdateState::Idle);
    assert_eq!(store.get_pending_update_platform(), None);
}
