use ssmt::external_manager::{manifest_path, ExternalManagerError, ExternalManagerIntegration, InspectionProbe};
use ssmt::forwarder::{LaunchTemplateContext, ProcessForwarderError};
use ssmt::hoyoshade::{
    must_preserve_existing_ini, reshade_ini_paths_of, str_eq_ignore_ascii_case, HoYoShadeBridge,
    HoYoShadeBridgeError, HOYOSHADE_DEPENDENCY_ID, HOYOSHADE_PLUGIN_ID,
};
use ssmt::manifest::{
    ExternalDependency, ExternalDependencyType, ExternalManagerContribution, FailurePolicy,
    LauncherAdapterContribution, LauncherAdapterType, PluginCompatibility, PluginContributions,
    PluginManifest, PluginPermission, ReadyCondition, ReadyConditionType,
};
use ssmt::registry::{ExternalDependencyState, ExternalDependencyStatus, InstalledPlugin};
use std::time::Duration;

fn bridge_fixture(root: &str) -> InstalledPlugin {
    InstalledPlugin {
        manifest: PluginManifest {
            schema_version: 1,
            id: HOYOSHADE_PLUGIN_ID.to_string(),
            name: "HoYoShade Bridge".to_string(),
            version: "0.1.0".to_string(),
            author: "SSMT".to_string(),
            compatibility: PluginCompatibility {
                ssmt: ">=4.0.0".to_string(),
                platforms: vec!["windows-x64".to_string()],
            },
            contributions: PluginContributions {
                runtime_plugins: Vec::new(),
                launcher_adapters: vec![LauncherAdapterContribution {
                    kind: LauncherAdapterType::ProcessForwarder,
                    executable: "${external.hoyoshade}/inject.exe".to_string(),
                    arguments: vec!["${game.processName}".to_string()],
                    working_directory: Some("${external.hoyoshade}".to_string()),
                    ready: Some(ReadyCondition {
                        kind: ReadyConditionType::ProcessExited,
                        value: None,
                        timeout_ms: 15_000,
                    }),
                    failure_policy: FailurePolicy::Abort,
                }],
                external_managers: Vec::new(),
                ui_pages: Vec::new(),
            },
            external_dependencies: vec![ExternalDependency {
                id: HOYOSHADE_DEPENDENCY_ID.to_string(),
                kind: ExternalDependencyType::Directory,
                required_files: vec![
                    "inject.exe".to_string(),
                    "ReShade64.dll".to_string(),
                    "ReShade.ini".to_string(),
                ],
            }],
            permissions: vec![PluginPermission::ProcessSpawn, PluginPermission::ProcessObserve],
        },
        package_root: format!("{root}/package"),
        enabled: true,
        external_dependencies: Vec::new(),
    }
}

fn context(root: &str, with_dependency: bool) -> LaunchTemplateContext {
    LaunchTemplateContext {
        game_executable: format!("{root}/YuanShen.exe"),
        game_directory: root.to_string(),
        game_process_name: "YuanShen.exe".to_string(),
        external_dependencies: if with_dependency {
            vec![("hoyoshade".to_string(), format!("{root}/external"))]
        } else {
            Vec::new()
        },
    }
}

#[test]
fn validates_real_hoyoshade_dependency_files() {
    let root = "/tmp/ssmt-hoyoshade-test";
    let bridge = HoYoShadeBridge::from_installed(&bridge_fixture(root)).unwrap();
    assert!(matches!(
        bridge.validate_external_directory(root, true, &vec![true, false, false]),
        Err(HoYoShadeBridgeError::MissingRequiredFile(path)) if path == format!("{root}/ReShade64.dll")
    ));
    assert!(bridge.validate_external_directory(root, true, &vec![true, true, true]).is_ok());
    assert!(matches!(
        bridge.validate_external_directory(root, false, &vec![true, true, true]),
        Err(HoYoShadeBridgeError::DependencyNotReady(_))
    ));
    assert_eq!(bridge.dependency().unwrap().required_files.len(), 3);
}

#[test]
fn only_targets_known_hoyoverse_game_processes() {
    let bridge = HoYoShadeBridge::from_installed(&bridge_fixture("/tmp/ssmt-hoyoshade-process")).unwrap();
    assert!(bridge.supports_process("YuanShen.exe"));
    assert!(bridge.supports_process("StarRail.exe"));
    assert!(bridge.supports_process("starrail.EXE"));
    assert!(!bridge.supports_process("notepad.exe"));
    assert!(!bridge.supports_process(""));
}

#[test]
fn rejects_unready_bridge_dependency() {
    let root = "/tmp/ssmt-hoyoshade-unready";
    let mut plugin = bridge_fixture(root);
    plugin.external_dependencies.push((
        HOYOSHADE_DEPENDENCY_ID.to_string(),
        ExternalDependencyState {
            status: ExternalDependencyStatus::Missing,
            path: None,
            reason: Some("not configured".to_string()),
        },
    ));
    let bridge = HoYoShadeBridge::from_installed(&plugin).unwrap();
    assert!(matches!(
        bridge.build_forwarder(&plugin, &context(root, false), Duration::from_secs(1)),
        Err(HoYoShadeBridgeError::DependencyNotReady(reason)) if reason == "not configured"
    ));
}

#[test]
fn builds_the_injector_command_line() {
    let root = "/tmp/ssmt-hoyoshade-build";
    let mut plugin = bridge_fixture(root);
    plugin.external_dependencies.push((
        HOYOSHADE_DEPENDENCY_ID.to_string(),
        ExternalDependencyState {
            status: ExternalDependencyStatus::Ready,
            path: Some(format!("{root}/external")),
            reason: None,
        },
    ));
    let bridge = HoYoShadeBridge::from_installed(&plugin).unwrap();
    let spec = bridge.build_forwarder(&plugin, &context(root, true), Duration::from_secs(5)).unwrap();
    assert_eq!(spec.executable, format!("{root}/external/inject.exe"));
    assert_eq!(spec.arguments, vec!["YuanShen.exe".to_string()]);
    assert_eq!(spec.working_directory, format!("{root}/external"));
    assert_eq!(spec.timeout, Some(Duration::from_secs(5)));
    assert!(matches!(
        bridge.build_forwarder(&plugin, &context(root, false), Duration::from_secs(5)),
        Err(HoYoShadeBridgeError::Forwarder(ProcessForwarderError::MissingExternalDependency(id))) if id == "hoyoshade"
    ));
}

#[test]
fn only_the_bridge_package_is_a_bridge() {
    let mut plugin = bridge_fixture("/tmp/ssmt-hoyoshade-wrong");
    plugin.manifest.id = "ssmt.other".to_string();
    assert!(matches!(
        HoYoShadeBridge::from_installed(&plugin),
        Err(HoYoShadeBridgeError::WrongPluginId(id)) if id == "ssmt.other"
    ));
    let mut plugin = bridge_fixture("/tmp/ssmt-hoyoshade-wrong");
    plugin.manifest.contributions.launcher_adapters.clear();
    assert!(matches!(HoYoShadeBridge::from_installed(&plugin), Err(HoYoShadeBridgeError::MissingAdapter)));
    let mut plugin = bridge_fixture("/tmp/ssmt-hoyoshade-wrong");
    plugin.manifest.external_dependencies.clear();
    assert!(matches!(HoYoShadeBridge::from_installed(&plugin), Err(HoYoShadeBridgeError::MissingDependency)));
}

#[test]
fn deploys_ini_and_preserves_existing_game_configuration_once() {
    let (source, target, backup) = reshade_ini_paths_of("/d/external", "/d/game");
    assert_eq!(source, "/d/external/ReShade.ini");
    assert_eq!(target, "/d/game/ReShade.ini");
    assert_eq!(backup, "/d/game/ReShade.ini.ssmt-backup");
    assert!(must_preserve_existing_ini(true, false, false));
    assert!(!must_preserve_existing_ini(true, false, true));
    assert!(!must_preserve_existing_ini(true, true, false));
    assert!(!must_preserve_existing_ini(false, false, false));
}

#[test]
fn ascii_case_is_ignored_only_for_ascii() {
    assert!(str_eq_ignore_ascii_case("ZZZ.exe", "zzz.EXE"));
    assert!(!str_eq_ignore_ascii_case("É.exe", "é.exe"));
    assert!(!str_eq_ignore_ascii_case("a", "ab"));
}

fn manager_fixture(root: &str) -> InstalledPlugin {
    InstalledPlugin {
        manifest: PluginManifest {
            schema_version: 1,
            id: "ssmt.dlss5.integration".to_string(),
            name: "DLSS 5 Swapper Integration".to_string(),
            version: "0.1.0".to_string(),
            author: "SSMT".to_string(),
            compatibility: PluginCompatibility {
                ssmt: ">=4.0.0".to_string(),
                platforms: vec!["windows-x64".to_string()],
            },
            contributions: PluginContributions {
                runtime_plugins: Vec::new(),
                launcher_adapters: Vec::new(),
                external_managers: vec![ExternalManagerContribution {
                    id: "dlss5-swapper".to_string(),
                    executable: "${plugin.root}/DLSS5-Swapper.exe".to_string(),
                    working_directory: Some("${plugin.root}".to_string()),
                }],
                ui_pages: Vec::new(),
            },
            external_dependencies: Vec::new(),
            permissions: Vec::new(),
        },
        package_root: format!("{root}/package"),
        enabled: true,
        external_dependencies: Vec::new(),
    }
}

fn probe(executable: bool, directory: bool, manifest: bool, text: Result<String, String>) -> InspectionProbe {
    InspectionProbe {
        executable_is_file: executable,
        game_directory_is_dir: directory,
        manifest_is_file: manifest,
        manifest_text: text,
    }
}

#[test]
fn reads_route_from_game_manifest_without_automating_manager_ui() {
    let root = "/tmp/ssmt-manager-test";
    let plugin = manager_fixture(root);
    let integration = ExternalManagerIntegration::from_installed(&plugin, "dlss5-swapper").unwrap();
    let executable = format!("{root}/DLSS5-Swapper.exe");
    let game = format!("{root}/game");
    let missing = integration
        .inspect_game_directory(&executable, &game, "dlss5/game-state.json", probe(true, true, false, Ok(String::new())))
        .unwrap();
    assert_eq!(missing.route, None);
    assert_eq!(missing.reason.as_deref(), Some("manager manifest is not installed"));
    let ready = integration
        .inspect_game_directory(
            &executable,
            &game,
            "dlss5/game-state.json",
            probe(true, true, true, Ok(r#"{"route":"feeder"}"#.to_string())),
        )
        .unwrap();
    assert_eq!(ready.route.as_deref(), Some("feeder"));
    assert!(ready.game_manifest.is_some());
    assert_eq!(manifest_path(&game, "dlss5/game-state.json"), format!("{game}/dlss5/game-state.json"));
}

#[test]
fn rejects_missing_external_manager_executable() {
    let root = "/tmp/ssmt-manager-missing";
    let plugin = manager_fixture(root);
    let integration = ExternalManagerIntegration::from_installed(&plugin, "dlss5-swapper").unwrap();
    assert!(matches!(
        integration.inspect_game_directory(&format!("{root}/missing.exe"), root, "game-state.json", probe(false, true, false, Ok(String::new()))),
        Err(ExternalManagerError::InvalidExecutable(_))
    ));
}

#[test]
fn manager_inspection_errors() {
    let root = "/tmp/ssmt-manager-errors";
    let integration = ExternalManagerIntegration::from_installed(&manager_fixture(root), "dlss5-swapper").unwrap();
    assert!(matches!(
        integration.inspect_game_directory("x.exe", root, "m.json", probe(true, false, false, Ok(String::new()))),
        Err(ExternalManagerError::InvalidGameDirectory(_))
    ));
    assert!(matches!(
        integration.inspect_game_directory("x.exe", root, "../m.json", probe(true, true, true, Ok(String::new()))),
        Err(ExternalManagerError::ManifestInvalid(m)) if m == "invalid package path: ../m.json"
    ));
    assert!(matches!(
        integration.inspect_game_directory("x.exe", root, "m.json", probe(true, true, true, Err("denied".to_string()))),
        Err(ExternalManagerError::ManifestRead(m)) if m == "denied"
    ));
    assert!(matches!(
        integration.inspect_game_directory("x.exe", root, "m.json", probe(true, true, true, Ok("{not json".to_string()))),
        Err(ExternalManagerError::ManifestInvalid(_))
    ));
    let no_route = integration
        .inspect_game_directory("x.exe", root, "m.json", probe(true, true, true, Ok(r#"{"route": 3}"#.to_string())))
        .unwrap();
    assert_eq!(no_route.route, None);
    assert!(matches!(
        ExternalManagerIntegration::from_installed(&manager_fixture(root), "missing"),
        Err(ExternalManagerError::MissingContribution(id)) if id == "missing"
    ));
}

#[test]
fn manager_command_line_has_no_arguments() {
    let root = "/tmp/ssmt-manager-spec";
    let plugin = manager_fixture(root);
    let integration = ExternalManagerIntegration::from_installed(&plugin, "dlss5-swapper").unwrap();
    let spec = integration.build_process_spec(&plugin, &context(root, false), None).unwrap();
    assert_eq!(spec.executable, format!("{root}/package/DLSS5-Swapper.exe"));
    assert!(spec.arguments.is_empty());
    assert_eq!(spec.working_directory, format!("{root}/package"));
    assert_eq!(spec.ready, None);
    assert_eq!(spec.failure_policy, FailurePolicy::Abort);
}

#[test]
fn joined_paths_follow_path_join() {
    let join = |base: &str, rel: &str| std::path::Path::new(base).join(rel).to_string_lossy().into_owned();
    for (base, rel) in [
        ("C:\\Games\\Genshin", "dlss5/game-state.json"),
        ("C:/Games/Mods", "plugin.dll"),
        ("C:", "plugin.dll"),
        ("/games/genshin", "state.json"),
        ("/games/genshin/", "state.json"),
        ("", "state.json"),
    ] {
        assert_eq!(manifest_path(base, rel), join(base, rel));
    }
    assert_eq!(manifest_path("/games/genshin", "state.json"), format!("/games/genshin{}state.json", std::path::MAIN_SEPARATOR));
}
