use safe_archive::backup::{backup_destination, backup_file_name, data_destination, route_backup_entry};
use safe_archive::component::{build_components_snapshot, component_status, ComponentId};
use safe_archive::error::{AppError, ArchiveError, ErrorKind};
use safe_archive::github::{build_api_url, build_download_url, get_source_archive_url, wrap_with_proxy, GitHubAsset};
use safe_archive::layout::{
    config_path, get_component_dir, get_instance_core_dir, get_instance_deploy_marker, get_instance_dir,
    get_instance_venv_dir, get_python_exe_path, get_venv_python, get_version_zip_path, Platform,
};
use safe_archive::process::InstanceProcess;
use safe_archive::runtime::{
    ensure_version_installed, find_python_asset_for_version, legacy_python_moves, migration_action,
    resolve_python_runtime_target, InstalledVersion, MigrationAction,
};
use safe_archive::text::decimal_text;
use safe_archive::validation::{
    backup_file_candidate, is_backup_filename, is_tar_gz, validate_instance_id, validate_version_tag,
    version_zip_candidate,
};
use safe_archive::version::{required_component_for_version, requires_python310};

fn segs(parts: &[&str]) -> Vec<String> {
    parts.iter().map(|p| p.to_string()).collect()
}

fn pairs(p: &[(&str, &str)]) -> Vec<(String, String)> {
    p.iter().map(|(k, v)| (k.to_string(), v.to_string())).collect()
}

#[test]
fn error_codes() {
    assert_eq!(ErrorKind::InstanceNotFound.code(), 1001);
    assert_eq!(ErrorKind::VersionInUse.code(), 1005);
    assert_eq!(ErrorKind::Io.code(), 2002);
    assert_eq!(ErrorKind::StartupTimeout.code(), 3005);
    assert_eq!(ErrorKind::GitHub.code(), 4002);
    assert_eq!(ErrorKind::Other.code(), 9999);
}

#[test]
fn error_payloads() {
    let e = AppError::instance_not_found("abc");
    assert_eq!(e.kind(), ErrorKind::InstanceNotFound);
    assert_eq!(e.payload(), &pairs(&[("id", "abc")]));
    assert_eq!(AppError::io("").payload(), &pairs(&[]));
    assert_eq!(AppError::io("disk full").payload(), &pairs(&[("detail", "disk full")]));
    assert_eq!(
        AppError::version_in_use("v1", "bot").payload(),
        &pairs(&[("version", "v1"), ("instance", "bot")])
    );
    assert_eq!(
        AppError::network_with_url("http://x", "timeout").payload(),
        &pairs(&[("url", "http://x"), ("detail", "timeout")])
    );
    assert_eq!(AppError::port_occupied(8080).payload(), &pairs(&[("port", "8080")]));
    assert_eq!(AppError::port_occupied(0).payload(), &pairs(&[("port", "0")]));
    assert_eq!(AppError::port_occupied(65535).payload(), &pairs(&[("port", "65535")]));
    assert_eq!(AppError::backup_arch_mismatch("a", "b").kind(), ErrorKind::Backup);
    assert_eq!(AppError::startup_timeout().kind(), ErrorKind::StartupTimeout);
    assert_eq!(AppError::python_not_installed().payload().len(), 0);
    assert_eq!(AppError::new(ErrorKind::Config, pairs(&[("k", "v")])).payload(), &pairs(&[("k", "v")]));
    assert_eq!(AppError::github("x").kind(), ErrorKind::GitHub);
    assert_eq!(AppError::other("x").kind(), ErrorKind::Other);
    assert_eq!(AppError::process("x").kind(), ErrorKind::Process);
    assert_eq!(AppError::python("x").kind(), ErrorKind::Python);
    assert_eq!(AppError::network("x").kind(), ErrorKind::Network);
    assert_eq!(AppError::config("x").kind(), ErrorKind::Config);
    assert_eq!(AppError::instance_running().kind(), ErrorKind::InstanceRunning);
    assert_eq!(AppError::instance_not_running().kind(), ErrorKind::InstanceNotRunning);
    assert_eq!(AppError::version_not_found("v").payload(), &pairs(&[("version", "v")]));
}

#[test]
fn archive_errors_report_as_io() {
    let e = ArchiveError::SizeMismatch { expected: 100, written: 80 }.into_app_error();
    assert_eq!(e.kind(), ErrorKind::Io);
    assert_eq!(e.payload(), &pairs(&[("detail", "archive entry size mismatch")]));
    assert_eq!(
        ArchiveError::EscapesDestination.into_app_error().to_display_string(),
        "Io: detail=archive contains path escaping destination"
    );
}

#[test]
fn decimal_text_values() {
    assert_eq!(decimal_text(0), "0");
    assert_eq!(decimal_text(7), "7");
    assert_eq!(decimal_text(1234567890), "1234567890");
    assert_eq!(decimal_text(u64::MAX), "18446744073709551615");
}

#[test]
fn component_ids() {
    assert_eq!(ComponentId::Python312.dir_name(), "python312");
    assert_eq!(ComponentId::Python310.display_name(), "Python 3.10");
    assert_eq!(ComponentId::Python312.major_version(), "3.12");
    assert_eq!(ComponentId::from_str_id("python310"), Some(ComponentId::Python310));
    assert_eq!(ComponentId::from_str_id("python3"), None);
    assert_eq!(ComponentId::all(), vec![ComponentId::Python312, ComponentId::Python310]);
    let st = component_status(ComponentId::Python312, true);
    assert_eq!(st.description, "Python 3.12 运行时");
    let snap = build_components_snapshot(&vec![false, true]);
    assert_eq!(snap.components[0].id, "python312");
    assert!(!snap.components[0].installed);
    assert!(snap.components[1].installed);
}

#[test]
fn proxy_urls() {
    assert_eq!(wrap_with_proxy("", "https://x"), "https://x");
    assert_eq!(wrap_with_proxy("https://p.org//", "https://x"), "https://p.org/https://x");
    assert_eq!(
        build_api_url(""),
        "https://api.github.com/repos/AstrBotDevs/AstrBot/releases?per_page=30"
    );
    assert_eq!(
        build_download_url("https://p/", "v4.1.0"),
        "https://p/https://github.com/AstrBotDevs/AstrBot/archive/v4.1.0.zip"
    );
    assert_eq!(
        get_source_archive_url(None, "v1"),
        "https://github.com/AstrBotDevs/AstrBot/archive/v1.zip"
    );
    assert_eq!(
        get_source_archive_url(Some(""), "v1"),
        "https://github.com/AstrBotDevs/AstrBot/archive/v1.zip"
    );
}

#[test]
fn data_layout() {
    let data = segs(&["home", ".astrbot_launcher"]);
    assert_eq!(config_path(&data), segs(&["home", ".astrbot_launcher", "config.toml"]));
    assert_eq!(get_instance_dir(&data, "id"), segs(&["home", ".astrbot_launcher", "instances", "id"]));
    assert_eq!(
        get_instance_deploy_marker(&data, "id"),
        segs(&["home", ".astrbot_launcher", "instances", "id", ".deployed"])
    );
    assert_eq!(get_instance_core_dir(&data, "id")[4], "core");
    assert_eq!(get_instance_venv_dir(&data, "id")[4], "venv");
    assert_eq!(get_version_zip_path(&data, "v1")[3], "v1.zip");
    assert_eq!(get_component_dir(&data, "python312")[2..], segs(&["components", "python312"])[..]);
    let py = segs(&["p"]);
    assert_eq!(get_python_exe_path(&py, Platform::Unix), segs(&["p", "bin", "python3"]));
    assert_eq!(get_python_exe_path(&py, Platform::Windows), segs(&["p", "python.exe"]));
    assert_eq!(get_venv_python(&py, Platform::Windows), segs(&["p", "Scripts", "python.exe"]));
    assert_eq!(get_venv_python(&py, Platform::Unix), segs(&["p", "bin", "python"]));
}

#[test]
fn instance_ids_must_be_uuids() {
    assert!(validate_instance_id("550e8400-e29b-41d4-a716-446655440000").is_ok());
    assert!(validate_instance_id("550E8400E29B41D4A716446655440000").is_ok());
    assert!(validate_instance_id("{550e8400-e29b-41d4-a716-446655440000}").is_ok());
    assert!(validate_instance_id("URN:uuid:550e8400-e29b-41d4-a716-446655440000").is_ok());
    assert!(validate_instance_id("550e8400-e29b-41d4-a716-44665544000g").is_err());
    assert!(validate_instance_id("550e8400e29b-41d4-a716-4466554400001").is_err());
    let err = validate_instance_id("../../etc").unwrap_err();
    assert_eq!(err.kind(), ErrorKind::Other);
}

#[test]
fn version_tags() {
    assert!(validate_version_tag("v4.14.8").is_ok());
    assert!(validate_version_tag("1.0+build_2-rc").is_ok());
    assert_eq!(validate_version_tag("").unwrap_err().kind(), ErrorKind::VersionNotFound);
    assert!(validate_version_tag("../v1").is_err());
    assert!(validate_version_tag("v 1").is_err());
    let dir = segs(&["versions"]);
    assert_eq!(version_zip_candidate(&dir, "v1.2").unwrap(), segs(&["versions", "v1.2.zip"]));
    assert!(version_zip_candidate(&dir, "a/b").is_err());
}

#[test]
fn backup_names() {
    assert!(is_backup_filename("x.tar.gz"));
    assert!(is_backup_filename("X.TAR.GZ"));
    assert!(!is_backup_filename("x.zip"));
    assert!(is_tar_gz("a.tar.gz"));
    assert!(!is_tar_gz("a.TAR.GZ"));
    let dir = segs(&["b"]);
    assert_eq!(backup_file_candidate(&dir, "/etc/../x.tar.gz").unwrap(), segs(&["b", "x.tar.gz"]));
    assert_eq!(backup_file_candidate(&dir, "a/b.tar.gz/").unwrap(), segs(&["b", "b.tar.gz"]));
    assert_eq!(backup_file_candidate(&dir, "x.zip").unwrap_err().payload(), &pairs(&[("detail", "Invalid backup filename")]));
    assert_eq!(backup_file_candidate(&dir, "a/..").unwrap_err().payload(), &pairs(&[("detail", "Invalid backup path")]));
    assert_eq!(backup_file_candidate(&dir, "").unwrap_err().kind(), ErrorKind::Backup);
    assert_eq!(backup_file_name("id", "20240101_120000", true), "id-20240101_120000-auto.zip");
    assert_eq!(backup_file_name("id", "20240101_120000", false), "id-20240101_120000.zip");
}

#[test]
fn backup_routing() {
    let inst = segs(&["i"]);
    let core = segs(&["i", "core"]);
    assert_eq!(route_backup_entry(&segs(&["backup.toml"]), &inst, &core), None);
    assert_eq!(route_backup_entry(&segs(&["venv", "bin"]), &inst, &core), None);
    assert_eq!(route_backup_entry(&segs(&["data", "x"]), &inst, &core), Some(segs(&["i", "core", "data", "x"])));
    assert_eq!(route_backup_entry(&segs(&["env", "x"]), &inst, &core), Some(segs(&["i", "env", "x"])));
    assert_eq!(backup_destination("./backup.toml", &inst, &core), None);
    assert_eq!(backup_destination("../x", &inst, &core), None);
    assert_eq!(backup_destination("data/a.db", &inst, &core), Some(segs(&["i", "core", "data", "a.db"])));
    assert_eq!(data_destination("data/a.db", &core), Some(segs(&["i", "core", "data", "a.db"])));
    assert_eq!(data_destination("env/a", &core), None);
}

#[test]
fn python_version_selection() {
    assert!(requires_python310("v4.14.6"));
    assert!(!requires_python310("v4.14.7"));
    assert!(requires_python310("4.13.99"));
    assert!(requires_python310("v4.14"));
    assert!(!requires_python310("v4.15"));
    assert!(requires_python310("3"));
    assert!(!requires_python310("5"));
    assert!(!requires_python310("beta"));
    assert!(requires_python310("v4.x.14.6"));
    // A piece too large for 32 bits is dropped, leaving 1.1.
    assert!(requires_python310("v99999999999.1.1"));
    assert_eq!(required_component_for_version("v4.14.6"), ComponentId::Python310);
    assert_eq!(required_component_for_version("v4.20.0"), ComponentId::Python312);
}

#[test]
fn python_asset_lookup() {
    let assets = vec![
        GitHubAsset {
            name: "cpython-3.12.8+20250101-x86_64-unknown-linux-gnu-install_only.tar.gz".to_string(),
            browser_download_url: "u0".to_string(),
            size: 1,
        },
        GitHubAsset {
            name: "cpython-3.12.8+20250101-x86_64-unknown-linux-gnu-install_only_stripped.tar.gz".to_string(),
            browser_download_url: "u1".to_string(),
            size: 1,
        },
    ];
    assert_eq!(
        find_python_asset_for_version(&assets, "3.12", "x86_64-unknown-linux-gnu"),
        Ok(("u1".to_string(), "3.12.8".to_string()))
    );
    assert_eq!(
        find_python_asset_for_version(&assets, "3.10", "x86_64-unknown-linux-gnu"),
        Err("No Python 3.10 asset found for platform x86_64-unknown-linux-gnu".to_string())
    );
}

#[test]
fn runtime_targets_and_migration() {
    let data = segs(&["d"]);
    assert_eq!(resolve_python_runtime_target(&data, "3.10").unwrap(), segs(&["d", "components", "python310"]));
    assert_eq!(resolve_python_runtime_target(&data, "3.9").unwrap_err().kind(), ErrorKind::Python);
    assert_eq!(migration_action(false, true), MigrationAction::Nothing);
    assert_eq!(migration_action(true, true), MigrationAction::RemoveLegacy);
    assert_eq!(migration_action(true, false), MigrationAction::Rename);
    let moves = legacy_python_moves(&data);
    assert_eq!(moves[1], (segs(&["d", "compat_python"]), segs(&["d", "components", "python310"])));
}

#[test]
fn installed_versions() {
    let installed = vec![InstalledVersion { version: "v1".to_string(), zip_path: "z".to_string() }];
    assert!(ensure_version_installed(&installed, "v1").is_ok());
    assert_eq!(ensure_version_installed(&installed, "v2").unwrap_err().kind(), ErrorKind::VersionNotFound);
}

#[test]
fn health_check_backoff() {
    let mut p = InstanceProcess::new(10, 8000, true);
    assert_eq!(p.calculate_backoff(), 1);
    let expected = [1u64, 2, 4, 8, 16, 30, 30];
    for (n, e) in expected.iter().enumerate() {
        p.failure_count = n as u32;
        assert_eq!(p.calculate_backoff(), *e);
    }
    p.failure_count = u32::MAX;
    assert_eq!(p.calculate_backoff(), 30);
    p.health_failure_since = Some(5);
    p.clear_health_failure_state();
    assert_eq!(p.failure_count, 0);
    assert_eq!(p.health_failure_since, None);
    assert_eq!(p.snapshot().port, 8000);
}

#[test]
fn error_display_text() {
    assert_eq!(AppError::instance_running().to_display_string(), "InstanceRunning");
    assert_eq!(
        AppError::version_in_use("v1", "bot").to_display_string(),
        "VersionInUse: version=v1, instance=bot"
    );
    assert_eq!(AppError::io("x").to_display_string(), "Io: detail=x");
}
