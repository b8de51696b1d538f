use alas_launcher::config_text::{migrate_dependency_config, update_method_config_text};
use alas_launcher::deploy::{
    deploy_pypi_mirror, get_deploy_config, get_update_method, pypi_mirror_of_text, update_method_of_text,
    DeployValue, UpdateMethod,
};
use alas_launcher::notify::{app_user_model_id_key, icon_uri_path, notification_text, WINDOWS_APP_ID};
use alas_launcher::platform::{
    platform_adb_config_path, platform_git_config_path, platform_python_config_path, Platform,
};
use alas_launcher::pypi::{
    normalize_pypi_index, push_unique_pypi_index, pypi_index_candidates, pypi_indexes_match,
    rank_pypi_indexes, DEFAULT_PYPI_INDEX,
};

fn text(s: &str) -> DeployValue {
    DeployValue::Text(s.to_string())
}

fn object(entries: Vec<(&str, DeployValue)>) -> DeployValue {
    DeployValue::Object {
        entries: entries.into_iter().map(|(k, v)| (k.to_string(), v)).collect(),
        text: String::new(),
    }
}

fn deploy_section(section: &str, key: &str, value: DeployValue) -> DeployValue {
    object(vec![("Deploy", object(vec![(section, object(vec![(key, value)]))]))])
}

fn strings(v: &[&str]) -> Vec<String> {
    v.iter().map(|s| s.to_string()).collect()
}

#[test]
fn migration_points_tools_at_the_environment() {
    let content = "Deploy:\n  Git:\n    GitExecutable: C:/git.exe\n  Python:\n    PythonExecutable: python\n    RequirementsFile: requirements.txt\n  Adb:\n    AdbExecutable: adb\n  Update:\n    AutoRestartTime: 03:50\n  Webui:\n    WebuiPort: 22267\n    InstallDependencies: false\n";
    let (out, changed) = migrate_dependency_config(content, "", Platform::Windows);
    assert!(changed);
    assert_eq!(
        out,
        "Deploy:\n  Git:\n    GitExecutable: ./.venv/Scripts/git/cmd/git.exe\n  Python:\n    PythonExecutable: ./.venv/Scripts/python.exe\n  Adb:\n    AdbExecutable: ./.venv/Scripts/adb.exe\n  Update:\n    AutoRestartTime: 03:50\n    UpdateMethod: manual\n  Webui:\n    WebuiPort: 22267\n    InstallDependencies: true\n"
    );
}

#[test]
fn migration_adds_missing_settings() {
    let content = "Deploy:\n  Python:\n    PythonExecutable: ./.venv/bin/python\n";
    let (out, changed) = migrate_dependency_config(content, "", Platform::OtherUnix);
    assert!(changed);
    assert_eq!(
        out,
        "Deploy:\n  Python:\n    PythonExecutable: ./.venv/bin/python\n\nGitExecutable: ./.venv/bin/git\nAdbExecutable: ./.venv/bin/adb\nInstallDependencies: true\n    UpdateMethod: manual\n"
    );
}

#[test]
fn migration_starts_from_default_when_blank() {
    let (out, changed) = migrate_dependency_config(
        "  \n",
        "Deploy:\n  Update:\n    UpdateMethod: startup\n",
        Platform::MacOs,
    );
    assert!(changed);
    assert_eq!(
        out,
        "Deploy:\n  Update:\n    UpdateMethod: startup\n\nGitExecutable: ./.venv/bin/git\nPythonExecutable: ./.venv/bin/python\nAdbExecutable: ./.venv/bin/adb\nInstallDependencies: true\n"
    );
}

#[test]
fn platform_config_paths() {
    assert_eq!(platform_python_config_path(Platform::Windows), "./.venv/Scripts/python.exe");
    assert_eq!(platform_adb_config_path(Platform::MacOs), "./.venv/bin/adb");
    assert_eq!(platform_git_config_path(Platform::Windows), "./.venv/Scripts/git/cmd/git.exe");
}

#[test]
fn update_method_rewrites_existing_line() {
    let content = "Deploy:\n  Update:\n    UpdateMethod: manual\r\n    Branch: master";
    assert_eq!(
        update_method_config_text(content, UpdateMethod::Background).as_deref(),
        Some("Deploy:\n  Update:\n    UpdateMethod: background\n    Branch: master\n")
    );
}

#[test]
fn update_method_is_appended_when_missing() {
    assert_eq!(
        update_method_config_text("Deploy:\n  Update:\n", UpdateMethod::Startup).as_deref(),
        Some("Deploy:\n  Update:\n    UpdateMethod: startup\n")
    );
    assert_eq!(update_method_config_text("", UpdateMethod::Startup), None);
}

#[test]
fn update_method_read_from_configuration() {
    let config = deploy_section("Update", "UpdateMethod", text("  Background "));
    assert_eq!(get_update_method(Some(&config)), UpdateMethod::Background);
    let startup = deploy_section("Update", "UpdateMethod", text("STARTUP"));
    assert_eq!(get_update_method(Some(&startup)), UpdateMethod::Startup);
    let other = deploy_section("Update", "UpdateMethod", text("weekly"));
    assert_eq!(get_update_method(Some(&other)), UpdateMethod::Manual);
    assert_eq!(get_update_method(None), UpdateMethod::Manual);
    assert_eq!(UpdateMethod::Background.name(), "background");
}

#[test]
fn pypi_mirror_read_from_configuration() {
    let config = deploy_section("Python", "PypiMirror", text("https://mirror.example/simple"));
    assert_eq!(
        deploy_pypi_mirror(Some(&config)).as_deref(),
        Some("https://mirror.example/simple")
    );
    let null = deploy_section("Python", "PypiMirror", text("null"));
    assert_eq!(deploy_pypi_mirror(Some(&null)), None);
    let empty = deploy_section("Python", "PypiMirror", text(""));
    assert_eq!(deploy_pypi_mirror(Some(&empty)), None);
    assert_eq!(deploy_pypi_mirror(Some(&DeployValue::Null)), None);
}

#[test]
fn pypi_index_normalization() {
    assert_eq!(
        normalize_pypi_index("  https://x.example/simple  ").as_deref(),
        Some("https://x.example/simple/")
    );
    assert_eq!(normalize_pypi_index("https://x.example/simple/").as_deref(), Some("https://x.example/simple/"));
    assert_eq!(normalize_pypi_index(" NULL "), None);
    assert_eq!(normalize_pypi_index("   "), None);
    assert!(pypi_indexes_match("https://A.example/simple//", "https://a.example/simple"));
    assert!(!pypi_indexes_match("https://a.example/simple", "https://b.example/simple"));
}

#[test]
fn pypi_candidates_have_no_repeats() {
    let candidates = pypi_index_candidates(Some("HTTPS://mirrors.aliyun.com/pypi/simple"));
    assert_eq!(
        candidates,
        strings(&[
            "https://mirrors.aliyun.com/pypi/simple/",
            "https://mirrors.cloud.tencent.com/pypi/simple/",
            "https://repo.huaweicloud.com/repository/pypi/simple/",
            "https://mirrors.cernet.edu.cn/pypi/web/simple/",
            DEFAULT_PYPI_INDEX,
        ])
    );
    let with_mirror = pypi_index_candidates(Some("https://mirror.example/pypi"));
    assert_eq!(with_mirror.len(), 6);
    assert_eq!(with_mirror[4], "https://mirror.example/pypi/");
    let mut list = strings(&["https://a/"]);
    push_unique_pypi_index(&mut list, "https://A");
    push_unique_pypi_index(&mut list, "null");
    push_unique_pypi_index(&mut list, "https://b");
    assert_eq!(list, strings(&["https://a/", "https://b/"]));
}

#[test]
fn fastest_answering_index_comes_first() {
    let indexes = strings(&["https://a/", "https://b/", "https://c/", "https://d/"]);
    let ranked = rank_pypi_indexes(&indexes, &vec![Some(300), None, Some(100), Some(100)]);
    assert_eq!(ranked, strings(&["https://c/", "https://d/", "https://a/", "https://b/"]));
}

#[test]
fn configured_order_kept_when_nothing_answers() {
    let indexes = strings(&["https://a/", "https://b/"]);
    assert_eq!(rank_pypi_indexes(&indexes, &vec![None, None]), indexes);
}

#[test]
fn notification_text_is_trimmed() {
    let shown = notification_text("  Update ", " done \n", "AzurNext");
    assert_eq!(shown.title, "Update");
    assert_eq!(shown.body, "done");
    let untitled = notification_text(" \t ", "body", "AzurNext");
    assert_eq!(untitled.title, "AzurNext");
    assert_eq!(icon_uri_path(r"C:\Users\me\icon.png"), "C:/Users/me/icon.png");
    assert_eq!(
        app_user_model_id_key(WINDOWS_APP_ID),
        r"SOFTWARE\Classes\AppUserModelId\moe.taiho.azurnext-launcher.notification"
    );
}

#[test]
fn migration_twice_changes_nothing_more() {
    let content = "Deploy:\n  Git:\n    GitExecutable: git\n  Python:\n    PythonExecutable: python\n    RequirementsFile: requirements.txt\n  Webui:\n    InstallDependencies: false\n";
    let (once, changed) = migrate_dependency_config(content, "", Platform::OtherUnix);
    assert!(changed);
    let (twice, rewrites) = migrate_dependency_config(&once, "anything", Platform::OtherUnix);
    assert!(rewrites);
    assert_eq!(twice, once);
}

#[test]
fn last_update_method_written_wins() {
    let content = "Deploy:\n  Update:\n    Branch: master\n";
    let first = update_method_config_text(content, UpdateMethod::Background).unwrap();
    let second = update_method_config_text(&first, UpdateMethod::Startup).unwrap();
    assert_eq!(second, update_method_config_text(content, UpdateMethod::Startup).unwrap());
    assert!(second.contains("    UpdateMethod: startup\n"));
    assert!(!second.contains("background"));
}

#[test]
fn configuration_read_from_yaml_text() {
    let yaml = "Deploy:\n  Update:\n    UpdateMethod: Background\n  Python:\n    PypiMirror: https://mirror.example/simple\n";
    assert_eq!(update_method_of_text(Some(yaml)), UpdateMethod::Background);
    assert_eq!(
        pypi_mirror_of_text(Some(yaml)).as_deref(),
        Some("https://mirror.example/simple")
    );
    assert_eq!(update_method_of_text(None), UpdateMethod::Manual);
    assert_eq!(update_method_of_text(Some("Deploy: [unclosed")), UpdateMethod::Manual);
    assert!(get_deploy_config(Some("Deploy: [unclosed")).is_none());
    assert_eq!(pypi_mirror_of_text(Some("Deploy:\n  Python:\n    PypiMirror: null\n")), None);
    match get_deploy_config(Some("a: 1\nb: [x, 2]\n")) {
        Some(DeployValue::Object { entries, .. }) => {
            assert_eq!(entries.len(), 2);
            assert_eq!(entries[0].0, "a");
            match &entries[1].1 {
                DeployValue::Array { items, text } => {
                    assert_eq!(items.len(), 2);
                    assert_eq!(text, "[\"x\",2]");
                }
                _ => panic!("b is a list"),
            }
        }
        _ => panic!("a map"),
    }
}

#[test]
fn set_method_reads_back_through_yaml() {
    let content = "Deploy:\n  Update:\n    UpdateMethod: manual\n    Branch: master\n";
    let written = update_method_config_text(content, UpdateMethod::Startup).unwrap();
    assert_eq!(update_method_of_text(Some(&written)), UpdateMethod::Startup);
}
