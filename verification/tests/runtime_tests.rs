use alas_launcher::commands::{
    bypass_proxy_for_child, git_update_command, ignore_uv_index_env, python_install_command,
    python_script_command, requests_install_command, uv_cache_clean_command,
    uv_python_install_mirrors, venv_create_command, CommandArg, EnvEdit, GIT_UPDATE_SCRIPT,
    IMPORT_REQUESTS_SCRIPT,
};
use alas_launcher::layout::{
    launcher_path_dirs, managed_python_candidates, managed_python_dir_matches,
    packaged_tool_matches, reset_virtualenv_layout, venv_adb, venv_git, venv_git_exec_path,
    venv_git_template_dir, venv_python, venv_python_install_dir, venv_uv,
};
use alas_launcher::platform::Platform;
use alas_launcher::runtime::{cleanup_target_belongs_to_launcher, path_starts_with, should_keep_runtime_entry};
use alas_launcher::setup_flow::{
    after_attempt, after_requests_check, after_requests_install, rebuild_plan,
    after_step, plan_start, removal_retry_delay_millis, setup_plan, update_plan, AttemptNext,
    PlanNext, PythonSetup,
    PythonSetupError, PythonStep, RequestsStep, SetupStep, SplashStage, CLEANUP_RETRIES,
};

fn texts(args: &[CommandArg<String>]) -> Vec<String> {
    args.iter()
        .map(|a| match a {
            CommandArg::Text(t) => t.clone(),
            CommandArg::Path(p) => format!("<{p}>"),
        })
        .collect()
}

fn edits(env: &[EnvEdit<String>]) -> Vec<String> {
    env.iter()
        .map(|e| match e {
            EnvEdit::Assign(k, CommandArg::Text(v)) => format!("{k}={v}"),
            EnvEdit::Assign(k, CommandArg::Path(p)) => format!("{k}=<{p}>"),
            EnvEdit::Unset(k) => format!("-{k}"),
        })
        .collect()
}

#[test]
fn runtime_entries_kept_on_rebuild() {
    let keep = |name: &str| should_keep_runtime_entry(Some(name), "my-launcher.exe", Platform::Windows);
    assert!(keep("Deploy"));
    assert!(keep("log"));
    assert!(keep("CONFIG"));
    assert!(keep("bootstrap"));
    assert!(keep("unins000.dat"));
    assert!(keep("Unins000.EXE"));
    assert!(keep("alas-launcher.exe"));
    assert!(keep("My-Launcher.exe"));
    assert!(!keep(".venv"));
    assert!(!keep("module"));
    assert!(should_keep_runtime_entry(Some(".venv"), "x", Platform::MacOs));
    assert!(!should_keep_runtime_entry(Some(".venv"), "x", Platform::OtherUnix));
    assert!(should_keep_runtime_entry(None, "x", Platform::OtherUnix));
}

#[test]
fn venv_layout_follows_platform() {
    assert_eq!(venv_python(Platform::Windows), vec![".venv", "Scripts", "python.exe"]);
    assert_eq!(venv_python(Platform::MacOs), vec![".venv", "bin", "python"]);
    assert_eq!(venv_uv(Platform::Windows), vec![".venv", "Scripts", "uv.exe"]);
    assert_eq!(venv_adb(Platform::OtherUnix), vec![".venv", "bin", "adb"]);
    assert_eq!(venv_git(Platform::Windows), vec![".venv", "Scripts", "git", "cmd", "git.exe"]);
    assert_eq!(venv_git(Platform::OtherUnix), vec![".venv", "bin", "git"]);
    assert_eq!(venv_python_install_dir(), vec![".venv", "python"]);
    assert_eq!(venv_git_exec_path(), vec![".venv", "libexec", "git-core"]);
    assert_eq!(venv_git_template_dir(), vec![".venv", "share", "git-core", "templates"]);
    assert_eq!(
        reset_virtualenv_layout(Platform::MacOs),
        vec!["bin", "lib", "include", "pyvenv.cfg"]
    );
    assert_eq!(
        launcher_path_dirs(Platform::Windows),
        vec![vec![".venv", "Scripts"], vec![".venv", "Scripts", "git", "cmd"]]
    );
    assert_eq!(launcher_path_dirs(Platform::MacOs), vec![vec![".venv", "bin"]]);
}

#[test]
fn managed_python_is_found_by_directory_name() {
    assert!(managed_python_dir_matches("cpython-3.14.6-windows-x86_64-none"));
    assert!(!managed_python_dir_matches("cpython-3.14.5-windows-x86_64-none"));
    assert!(!managed_python_dir_matches("cpython-3.14.6"));
    assert_eq!(managed_python_candidates(Platform::Windows), vec![vec!["python.exe"]]);
    assert_eq!(
        managed_python_candidates(Platform::OtherUnix),
        vec![vec!["bin", "python3.14"], vec!["bin", "python"]]
    );
    assert!(packaged_tool_matches("AdbWinApi.dll", "Adb", "dll"));
    assert!(!packaged_tool_matches("adb.exe", "Adb", "dll"));
}

#[test]
fn python_mirrors_follow_user_choice() {
    assert_eq!(
        uv_python_install_mirrors(Some("https://example.org/py/".to_string())),
        vec!["https://example.org/py/"]
    );
    let defaults = uv_python_install_mirrors(None);
    assert_eq!(defaults.len(), 5);
    assert_eq!(defaults[0], "https://registry.npmmirror.com/-/binary/python-build-standalone/");
    assert_eq!(defaults[3], "https://downloads.astral.sh/python/");
}

#[test]
fn env_helpers_list_their_variables() {
    assert_eq!(
        edits(&ignore_uv_index_env()),
        vec![
            "-UV_INDEX", "-UV_DEFAULT_INDEX", "-UV_INDEX_URL", "-UV_EXTRA_INDEX_URL",
            "-PIP_INDEX_URL", "-PIP_EXTRA_INDEX_URL"
        ]
    );
    let bypass = edits(&bypass_proxy_for_child());
    assert_eq!(bypass[8..], ["NO_PROXY=*", "no_proxy=*"]);
    assert_eq!(bypass[0], "-ALL_PROXY");
}

#[test]
fn requests_install_command_is_isolated() {
    let c = requests_install_command(
        "uv".to_string(),
        "py".to_string(),
        "pydir".to_string(),
        "https://pypi.org/simple/",
    );
    assert_eq!(c.program, "uv");
    assert_eq!(
        texts(&c.args),
        vec![
            "pip", "install", "--python", "<py>", "requests", "--default-index",
            "https://pypi.org/simple/", "--no-config"
        ]
    );
    let e = edits(&c.env);
    assert_eq!(e[0..2], ["UV_NO_PROGRESS=1", "UV_PYTHON_INSTALL_DIR=<pydir>"]);
    assert_eq!(e.len(), 25);
    assert!(e.contains(&"-PYTHONPATH".to_string()));
    assert_eq!(e[24], "no_proxy=*");
}

#[test]
fn python_install_and_venv_commands() {
    let install = python_install_command("uv".to_string(), "pydir".to_string(), "https://m/", true);
    assert_eq!(
        texts(&install.args),
        vec![
            "python", "install", "--install-dir", "<pydir>", "--no-bin", "--managed-python",
            "--mirror", "https://m/", "3.14.6"
        ]
    );
    assert_eq!(install.env.len(), 20);
    let default_mirror = python_install_command("uv".to_string(), "pydir".to_string(), "https://m/", false);
    assert_eq!(
        edits(&default_mirror.env)[20],
        "UV_PYTHON_INSTALL_MIRROR=https://registry.npmmirror.com/-/binary/python-build-standalone/"
    );
    let venv = venv_create_command(
        "uv".to_string(),
        "managed".to_string(),
        ".venv".to_string(),
        "pydir".to_string(),
        true,
    );
    assert_eq!(
        texts(&venv.args),
        vec!["venv", "--allow-existing", "--relocatable", "--python", "<managed>", "<.venv>"]
    );
    assert_eq!(edits(&venv.env)[0..3], ["UV_NO_PROGRESS=1", "-UV_PYTHON", "UV_PYTHON_INSTALL_DIR=<pydir>"]);
}

#[test]
fn script_commands() {
    let check = python_script_command("py".to_string(), IMPORT_REQUESTS_SCRIPT, Vec::new());
    assert_eq!(texts(&check.args), vec!["-c", "import requests"]);
    assert_eq!(check.env.len(), 7);
    let cleanup = python_script_command("py".to_string(), "x", vec!["./config".to_string()]);
    assert_eq!(texts(&cleanup.args), vec!["-c", "x", "./config"]);
    let git = git_update_command("py".to_string(), "uv".to_string());
    assert_eq!(texts(&git.args), vec!["-c".to_string(), GIT_UPDATE_SCRIPT.to_string()]);
    assert_eq!(edits(&git.env)[0], "AZURPILOT_BOOTSTRAP_UV=<uv>");
    let cache = uv_cache_clean_command("uv".to_string());
    assert_eq!(texts(&cache.args), vec!["cache", "clean"]);
    assert_eq!(edits(&cache.env)[0..2], ["UV_NO_PROGRESS=1", "-UV_PYTHON"]);
}

#[test]
fn setup_plan_skips_what_was_asked() {
    let splash = SetupStep::Splash;
    assert_eq!(
        setup_plan(false, true, false),
        vec![
            splash(SplashStage::PreparingWorkspace),
            SetupStep::EnsureRuntimeTools,
            SetupStep::AtomicCleanup,
            SetupStep::MigrateConfig,
            splash(SplashStage::Updating),
            SetupStep::GitUpdate,
            splash(SplashStage::InstallingDeps),
            SetupStep::UvSync,
            splash(SplashStage::Finishing),
        ]
    );
    assert_eq!(
        setup_plan(true, true, true),
        vec![
            splash(SplashStage::PreparingWorkspace),
            SetupStep::EnsureRuntimeTools,
            SetupStep::AtomicCleanup,
            SetupStep::MigrateConfig,
            splash(SplashStage::SkippingUpdate),
            splash(SplashStage::Finishing),
        ]
    );
    assert!(setup_plan(true, false, true).contains(&SetupStep::GitUpdate));
    assert_eq!(rebuild_plan()[2], SetupStep::RemoveVenv);
    assert_eq!(SplashStage::InstallingDeps.progress(), 64);
    assert_eq!(SplashStage::Finishing.progress(), 94);
}

#[test]
fn attempts_move_to_next_source() {
    assert_eq!(after_attempt(0, 3, true), AttemptNext::Succeeded);
    assert_eq!(after_attempt(0, 3, false), AttemptNext::Retry { next: 1 });
    assert_eq!(after_attempt(2, 3, false), AttemptNext::Exhausted);
}

#[test]
fn reusable_environment_is_kept() {
    let (setup, step) = PythonSetup::start(Some((3, 14, 6)), 5);
    assert_eq!(step, PythonStep::FindManagedPython);
    assert_eq!(setup.after_find(true), PythonStep::Done);
}

#[test]
fn old_environment_is_rebuilt_from_mirrors_in_order() {
    let (mut setup, step) = PythonSetup::start(Some((3, 14, 4)), 2);
    assert_eq!(step, PythonStep::RemoveVenv);
    assert_eq!(setup.after_remove(), PythonStep::FindManagedPython);
    assert_eq!(setup.after_find(false), PythonStep::InstallPython { mirror: 0 });
    assert_eq!(setup.after_install(0, false), PythonStep::InstallPython { mirror: 1 });
    assert_eq!(setup.after_install(1, true), PythonStep::FindManagedPython);
    assert_eq!(setup.after_find(true), PythonStep::CreateVenv);
    assert_eq!(setup.after_create(true), PythonStep::Done);
}

#[test]
fn python_setup_failures() {
    let (mut setup, _) = PythonSetup::start(None, 1);
    assert_eq!(setup.after_find(true), PythonStep::CreateVenv);
    assert_eq!(
        setup.after_install(0, false),
        PythonStep::Failed(PythonSetupError::DownloadFailed)
    );
    assert_eq!(setup.after_install(0, true), PythonStep::FindManagedPython);
    assert_eq!(
        setup.after_find(false),
        PythonStep::Failed(PythonSetupError::PythonNotFound)
    );
    assert_eq!(
        setup.after_create(false),
        PythonStep::Failed(PythonSetupError::VenvCreateFailed)
    );
    let (none, _) = PythonSetup::start(Some((3, 15, 0)), 0);
    assert_eq!(none.after_find(false), PythonStep::Failed(PythonSetupError::DownloadFailed));
}

#[test]
fn removal_retries_wait_longer_each_time() {
    assert_eq!(removal_retry_delay_millis(0), 250);
    assert_eq!(removal_retry_delay_millis(1), 350);
    assert_eq!(removal_retry_delay_millis(CLEANUP_RETRIES - 1), 2150);
}

#[test]
fn recovery_checks_cancel_before_removing_environment() {
    let plan = rebuild_plan();
    assert_eq!(plan[0], SetupStep::CheckCancel);
    let removals: Vec<usize> = plan
        .iter()
        .enumerate()
        .filter(|(_, s)| **s == SetupStep::RemoveVenv)
        .map(|(i, _)| i)
        .collect();
    assert_eq!(removals, vec![2]);
    assert!(!plan.contains(&SetupStep::GitUpdate));
    assert!(!plan.contains(&SetupStep::MigrateConfig));
}

#[test]
fn requests_installed_only_when_missing() {
    assert_eq!(after_requests_check(true, 3), RequestsStep::Ready);
    assert_eq!(after_requests_check(false, 3), RequestsStep::Install { index: 0 });
    assert_eq!(after_requests_check(false, 0), RequestsStep::Failed);
    assert_eq!(after_requests_install(0, 3, false), RequestsStep::Install { index: 1 });
    assert_eq!(after_requests_install(2, 3, false), RequestsStep::Failed);
    assert_eq!(after_requests_install(1, 3, true), RequestsStep::Ready);
}

#[test]
fn update_runs_repository_then_dependencies() {
    assert_eq!(update_plan(), vec![SetupStep::GitUpdate, SetupStep::UvSync]);
}

#[test]
fn cleanup_only_in_the_launchers_directory() {
    let v = |parts: &[&str]| parts.iter().map(|p| p.to_string()).collect::<Vec<String>>();
    let exe = v(&["/", "Applications", "AzurNext.app", "Contents", "MacOS"]);
    let repo = v(&["/", "Applications", "AzurNext.app", "Contents", "AzurLaneAutoScript"]);
    assert!(cleanup_target_belongs_to_launcher(&repo, &exe, Platform::MacOs));
    assert!(!cleanup_target_belongs_to_launcher(&repo, &exe, Platform::OtherUnix));
    assert!(cleanup_target_belongs_to_launcher(&exe, &exe, Platform::Windows));
    assert!(!cleanup_target_belongs_to_launcher(&v(&["/", "home"]), &exe, Platform::MacOs));
    assert!(path_starts_with(&v(&["/", "repo", ".venv", "python"]), &v(&["/", "repo"])));
    assert!(path_starts_with(&v(&["/", "repo"]), &v(&["/", "repo"])));
    assert!(!path_starts_with(&v(&["/", "repository"]), &v(&["/", "repo"])));
    assert!(!path_starts_with(&v(&["/"]), &v(&["/", "repo"])));
}

#[test]
fn plans_stop_at_the_first_failure() {
    assert_eq!(plan_start(2), PlanNext::Run { index: 0 });
    assert_eq!(plan_start(0), PlanNext::Done);
    assert_eq!(after_step(0, 2, true), PlanNext::Run { index: 1 });
    assert_eq!(after_step(1, 2, true), PlanNext::Done);
    assert_eq!(after_step(0, 2, false), PlanNext::Stop);
}
