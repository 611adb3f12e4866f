use ssmt::manifest::{
    ExternalDependency, ExternalDependencyType, PluginCompatibility, PluginContributions,
    PluginManifest, RuntimePluginContribution,
};
use ssmt::registry::{
    check_install_destination, check_manifest_present, order_packages, package_key, DirectoryProbe, ExternalDependencyStatus, PluginRegistry, PluginRegistryError,
    RegistryState,
};

fn fixture_manifest(id: &str, version: &str, dependencies: Vec<ExternalDependency>) -> PluginManifest {
    PluginManifest {
        schema_version: 1,
        id: id.to_string(),
        name: "Fixture".to_string(),
        version: version.to_string(),
        author: "Test".to_string(),
        compatibility: PluginCompatibility {
            ssmt: ">=4.0.0".to_string(),
            platforms: vec!["windows-x64".to_string()],
        },
        contributions: PluginContributions {
            runtime_plugins: vec![RuntimePluginContribution {
                path: "native/example.dll".to_string(),
            }],
            launcher_adapters: Vec::new(),
            external_managers: Vec::new(),
            ui_pages: Vec::new(),
        },
        external_dependencies: dependencies,
        permissions: Vec::new(),
    }
}

fn tool_dependency() -> ExternalDependency {
    ExternalDependency {
        id: "tool".to_string(),
        kind: ExternalDependencyType::Directory,
        required_files: vec!["tool.exe".to_string()],
    }
}

fn install(registry: &mut PluginRegistry, manifest: PluginManifest, probes: Vec<DirectoryProbe>) {
    let root = format!("/data/Plugins/{}/{}", manifest.id, manifest.version);
    registry
        .admit_package(Some(manifest.id.clone()), Some(manifest.version.clone()), root, manifest, probes)
        .unwrap();
}

#[test]
fn install_discover_enable_disable_and_restore_state() {
    let mut registry = PluginRegistry::new("/data/Plugins".to_string(), RegistryState::empty());
    install(&mut registry, fixture_manifest("ssmt.fixture", "1.0.0", Vec::new()), Vec::new());
    assert!(!registry.find("ssmt.fixture").unwrap().enabled);
    registry.set_enabled("ssmt.fixture", true).unwrap();
    assert!(registry.find("ssmt.fixture").unwrap().enabled);
    assert!(registry.enabled_in_settings("ssmt.fixture", "1.0.0"));

    // a restarted registry reads the saved state and finds the package enabled
    let saved = registry.state().clone();
    let mut restarted = PluginRegistry::new("/data/Plugins".to_string(), saved);
    install(&mut restarted, fixture_manifest("ssmt.fixture", "1.0.0", Vec::new()), Vec::new());
    assert!(restarted.find("ssmt.fixture").unwrap().enabled);
    restarted.set_enabled("ssmt.fixture", false).unwrap();
    assert!(!restarted.find("ssmt.fixture").unwrap().enabled);
}

#[test]
fn validates_external_path_and_generates_runtime_plugin_list() {
    let mut registry = PluginRegistry::new("/data/Plugins".to_string(), RegistryState::empty());
    let manifest = fixture_manifest("ssmt.external", "1.0.0", vec![tool_dependency()]);
    let unconfigured = DirectoryProbe { exists: false, is_dir: false, required_files_present: vec![false] };
    install(&mut registry, manifest.clone(), vec![unconfigured]);
    registry.set_enabled("ssmt.external", true).unwrap();
    let state = &registry.find("ssmt.external").unwrap().external_dependencies;
    assert_eq!(state[0].0, "tool");
    assert_eq!(state[0].1.status, ExternalDependencyStatus::Missing);

    registry
        .set_external_dependency_path("ssmt.external", "tool", "/data/external".to_string())
        .unwrap();
    assert_eq!(
        registry.configured_path("ssmt.external", "1.0.0", "tool"),
        Some("/data/external".to_string())
    );

    // the directory exists but lacks its file
    registry.begin_refresh();
    let empty = DirectoryProbe { exists: true, is_dir: true, required_files_present: vec![false] };
    install(&mut registry, manifest.clone(), vec![empty]);
    let state = &registry.find("ssmt.external").unwrap().external_dependencies;
    assert_eq!(state[0].1.status, ExternalDependencyStatus::Invalid);
    assert_eq!(state[0].1.reason.as_deref(), Some("missing required file: tool.exe"));

    // the file is there now
    registry.begin_refresh();
    let ready = DirectoryProbe { exists: true, is_dir: true, required_files_present: vec![true] };
    install(&mut registry, manifest, vec![ready]);
    let state = &registry.find("ssmt.external").unwrap().external_dependencies;
    assert_eq!(state[0].1.status, ExternalDependencyStatus::Ready);
    assert_eq!(state[0].1.path.as_deref(), Some("/data/external"));

    let config = registry.generate_plugin_host_config();
    assert_eq!(config.plugin_directory, "/data/Plugins");
    assert_eq!(config.plugins, vec!["ssmt.external/1.0.0/native/example.dll".to_string()]);
}

#[test]
fn unknown_plugin_and_dependency_are_reported() {
    let mut registry = PluginRegistry::new("/data/Plugins".to_string(), RegistryState::empty());
    assert!(matches!(
        registry.set_enabled("ssmt.none", true),
        Err(PluginRegistryError::PluginNotFound(id)) if id == "ssmt.none"
    ));
    install(&mut registry, fixture_manifest("ssmt.fixture", "1.0.0", Vec::new()), Vec::new());
    assert!(matches!(
        registry.set_external_dependency_path("ssmt.fixture", "tool", "/x".to_string()),
        Err(PluginRegistryError::DependencyNotFound { .. })
    ));
    assert_eq!(
        PluginRegistryError::PluginNotFound("a".to_string()).message(),
        "plugin not found: a"
    );
    assert_eq!(
        PluginRegistryError::DependencyNotFound { plugin_id: "a".to_string(), dependency_id: "b".to_string() }
            .message(),
        "external dependency not found: a/b"
    );
}

#[test]
fn latest_version_is_the_one_found() {
    let mut registry = PluginRegistry::new("/data/Plugins".to_string(), RegistryState::empty());
    install(&mut registry, fixture_manifest("ssmt.fixture", "1.2.0", Vec::new()), Vec::new());
    install(&mut registry, fixture_manifest("ssmt.fixture", "1.10.0", Vec::new()), Vec::new());
    install(&mut registry, fixture_manifest("ssmt.fixture", "1.9.9", Vec::new()), Vec::new());
    assert_eq!(registry.find("ssmt.fixture").unwrap().manifest.version, "1.10.0");
    assert!(registry.find_installed("ssmt.fixture", "1.2.0").is_some());
    assert!(registry.find_installed("ssmt.fixture", "2.0.0").is_none());
}

#[test]
fn mismatched_directory_is_refused() {
    let mut registry = PluginRegistry::new("/data/Plugins".to_string(), RegistryState::empty());
    let manifest = fixture_manifest("ssmt.fixture", "1.0.0", Vec::new());
    let result = registry.admit_package(
        Some("ssmt.other".to_string()),
        Some("1.0.0".to_string()),
        "/data/Plugins/ssmt.other/1.0.0".to_string(),
        manifest,
        Vec::new(),
    );
    assert!(matches!(result, Err(PluginRegistryError::InvalidPackage(_))));
    assert!(registry.installed().is_empty());
}

#[test]
fn disabled_packages_stay_out_of_the_host_config() {
    let mut registry = PluginRegistry::new("/data/Plugins".to_string(), RegistryState::empty());
    install(&mut registry, fixture_manifest("ssmt.b", "1.0.0", Vec::new()), Vec::new());
    install(&mut registry, fixture_manifest("ssmt.a", "1.0.0", Vec::new()), Vec::new());
    install(&mut registry, fixture_manifest("ssmt.c", "1.0.0", Vec::new()), Vec::new());
    registry.set_enabled("ssmt.b", true).unwrap();
    registry.set_enabled("ssmt.a", true).unwrap();
    let config = registry.generate_plugin_host_config();
    assert_eq!(
        config.plugins,
        vec![
            "ssmt.a/1.0.0/native/example.dll".to_string(),
            "ssmt.b/1.0.0/native/example.dll".to_string()
        ]
    );
}

#[test]
fn package_keys_join_id_and_version() {
    assert_eq!(package_key("ssmt.fixture", "1.0.0"), "ssmt.fixture@1.0.0");
}

#[test]
fn packages_are_admitted_in_path_order() {
    let found = vec![
        ("b".to_string(), "1.0.0".to_string()),
        ("a-b".to_string(), "2.0.0".to_string()),
        ("a".to_string(), "2.0.0".to_string()),
        ("a".to_string(), "1.0.0".to_string()),
    ];
    let ordered = order_packages(found);
    let names: Vec<(&str, &str)> = ordered.iter().map(|(i, v)| (i.as_str(), v.as_str())).collect();
    // Component order: `a` before `a-b`, although `-` sorts before `/` in the full text.
    assert_eq!(names, vec![("a", "1.0.0"), ("a", "2.0.0"), ("a-b", "2.0.0"), ("b", "1.0.0")]);
}

#[test]
fn a_package_without_manifest_is_refused() {
    assert!(check_manifest_present("/p/a/1.0.0/ssmt-plugin.json", true).is_ok());
    match check_manifest_present("/p/a/1.0.0/ssmt-plugin.json", false) {
        Err(PluginRegistryError::InvalidPackage(m)) => assert_eq!(m, "missing manifest: /p/a/1.0.0/ssmt-plugin.json"),
        other => panic!("unexpected {other:?}"),
    }
}

#[test]
fn an_installed_version_is_not_installed_again() {
    assert!(check_install_destination("ssmt.a", "1.0.0", false).is_ok());
    match check_install_destination("ssmt.a", "1.0.0", true) {
        Err(PluginRegistryError::PackageAlreadyInstalled { id, version }) => {
            assert_eq!(id, "ssmt.a");
            assert_eq!(version, "1.0.0");
        }
        other => panic!("unexpected {other:?}"),
    }
}
