use alas_launcher::commands::{
    isolate_python_child_environment, uv_python_env_with_install_dir, uv_sync_command_with_paths,
    CommandArg, EnvEdit,
};
use alas_launcher::percent::find_percentage;
use alas_launcher::progress::{
    git_line_progress, git_section_progress, splash_update_for_dependency_output, UvProgressState,
};
use alas_launcher::runtime::{
    is_reusable_venv_python_version, parse_python_version, venv_python_version_requires_rebuild,
};

const SECOND: u64 = 1_000_000_000;

fn arg_texts(args: &[CommandArg<String>]) -> Vec<String> {
    args.iter()
        .map(|a| match a {
            CommandArg::Text(t) => t.clone(),
            CommandArg::Path(p) => p.clone(),
        })
        .collect()
}

/// The value a variable ends up with after the edits, as a child process
/// would see it: `Some(None)` for a removed one, `None` when untouched.
fn final_env(env: &[EnvEdit<String>], key: &str) -> Option<Option<String>> {
    let mut result = None;
    for edit in env {
        match edit {
            EnvEdit::Assign(k, v) if k.eq_ignore_ascii_case(key) => {
                result = Some(Some(match v {
                    CommandArg::Text(t) => t.clone(),
                    CommandArg::Path(p) => p.clone(),
                }));
            }
            EnvEdit::Unset(k) if k.eq_ignore_ascii_case(key) => result = Some(None),
            _ => {}
        }
    }
    result
}

fn assert_proxy_bypass_env(env: &[EnvEdit<String>]) {
    assert_eq!(final_env(env, "NO_PROXY"), Some(Some("*".to_string())));
    for key in ["ALL_PROXY", "HTTP_PROXY", "HTTPS_PROXY", "PIP_PROXY"] {
        assert!(
            env.iter().any(|e| matches!(e, EnvEdit::Unset(k) if k.eq_ignore_ascii_case(key))),
            "{key} must be removed"
        );
    }
}

fn assert_python_environment_isolated(env: &[EnvEdit<String>]) {
    for key in ["PYTHONHOME", "PYTHONPATH", "VIRTUAL_ENV", "__PYVENV_LAUNCHER__"] {
        assert_eq!(final_env(env, key), Some(None), "{key} must be removed");
    }
}

#[test]
fn test_find_percentage() {
    assert_eq!(Some(8), find_percentage("8%"));
    assert_eq!(Some(25), find_percentage("loading 25%..."));
    assert_eq!(Some(100), find_percentage("100%..."));
    assert_eq!(None, find_percentage("%1"));
}

#[test]
fn test_git_line_progress_ranges() {
    assert_eq!(
        Some(25),
        git_line_progress("remote: Counting objects:   1% (1/66)")
    );
    assert_eq!(
        Some(40),
        git_line_progress("Receiving objects:  50% (43546/87092), 179.10 MiB | 5.03 MiB/s")
    );
    assert_eq!(
        Some(58),
        git_line_progress("Resolving deltas: 100% (66157/66157), done.")
    );
    assert_eq!(
        Some(62),
        git_line_progress("Updating files: 100% (9881/9881), done.")
    );
}

#[test]
fn test_git_section_progress_ranges() {
    assert_eq!(Some(25), git_section_progress("FETCH REPOSITORY BRANCH"));
    assert_eq!(Some(58), git_section_progress("PULL REPOSITORY BRANCH"));
    assert_eq!(Some(63), git_section_progress("SHOW VERSION"));
}

#[test]
fn test_uv_sync_uses_managed_python() {
    let python = ".venv/Scripts/python.exe".to_string();
    let command = uv_sync_command_with_paths(
        "uv".to_string(),
        python.clone(),
        ".venv/python".to_string(),
        "https://pypi.org/simple",
        false,
    );
    let args = arg_texts(&command.args);

    assert_eq!(
        args[0..4],
        ["sync", "--no-dev", "--no-install-project", "--python"]
    );
    assert_eq!(args[4], python);
    assert!(args
        .windows(2)
        .any(|pair| pair == ["--default-index", "https://pypi.org/simple"]));
    assert_proxy_bypass_env(&command.env);
    assert_python_environment_isolated(&command.env);
}

#[test]
fn test_uv_commands_ignore_global_python_selection() {
    let env = uv_python_env_with_install_dir(".venv/python".to_string(), false);

    assert!(env
        .iter()
        .any(|e| matches!(e, EnvEdit::Unset(k) if k == "UV_PYTHON")));
    assert_proxy_bypass_env(&env);
    assert_python_environment_isolated(&env);
}

#[test]
fn test_uv_progress_tracks_completed_downloads_once() {
    let now = 10 * SECOND;
    let mut progress = UvProgressState::new(now);
    let downloading = splash_update_for_dependency_output(
        "Downloading demo-package (1.5MiB)",
        &mut progress,
        now,
        Some(1_572_864),
    )
    .expect("downloading output updates splash");
    assert_eq!(downloading.uv_progress, 28);

    progress.download_started_at = Some(now - SECOND);
    let downloaded =
        splash_update_for_dependency_output("Downloaded demo-package", &mut progress, now, None)
            .expect("downloaded output updates splash");
    assert_eq!(progress.downloaded_bytes, 1_572_864);
    assert!(downloaded.uv_progress < 100);

    progress.observe("Downloaded demo-package", now, None);
    assert_eq!(progress.downloaded_bytes, 1_572_864);
}

#[test]
fn test_isolate_python_child_environment() {
    let env = isolate_python_child_environment::<String>();

    assert_python_environment_isolated(&env);
}

#[test]
fn test_parse_python_version() {
    assert_eq!(parse_python_version("3.14.5"), Some((3, 14, 5)));
    assert_eq!(parse_python_version(" 3.14.6\n"), Some((3, 14, 6)));
    assert_eq!(parse_python_version("3.14"), None);
    assert_eq!(parse_python_version("3.14.5.1"), None);
    assert_eq!(parse_python_version("not a version"), None);
}

#[test]
fn test_venv_python_version_compatibility() {
    assert!(venv_python_version_requires_rebuild((3, 14, 4)));
    assert!(!venv_python_version_requires_rebuild((3, 14, 5)));
    assert!(!venv_python_version_requires_rebuild((3, 14, 6)));
    assert!(is_reusable_venv_python_version((3, 14, 5)));
    assert!(is_reusable_venv_python_version((3, 14, 6)));
    assert!(!is_reusable_venv_python_version((3, 15, 0)));
}
