use ssmt::manifest::{
    normalize_version_requirement, validate_package_relative_path, validate_plugin_id,
    validate_unique_plugin_ids, ExternalDependency, ExternalDependencyType, FailurePolicy,
    LauncherAdapterContribution, LauncherAdapterType, PluginCompatibility, PluginContributions,
    PluginManifest, PluginManifestError, PluginPermission, RuntimePluginContribution,
    UiPageContribution,
};

fn valid_manifest() -> PluginManifest {
    PluginManifest {
        schema_version: 1,
        id: "ssmt.hoyoshade.bridge".to_string(),
        name: "HoYoShade Bridge".to_string(),
        version: "0.1.0".to_string(),
        author: "SSMT".to_string(),
        compatibility: PluginCompatibility {
            ssmt: ">=4.x".to_string(),
            platforms: vec!["windows-x64".to_string()],
        },
        contributions: PluginContributions {
            runtime_plugins: vec![RuntimePluginContribution {
                path: "native/example.dll".to_string(),
            }],
            launcher_adapters: vec![LauncherAdapterContribution {
                kind: LauncherAdapterType::ProcessForwarder,
                executable: "${external.hoyoshade}/inject.exe".to_string(),
                arguments: vec!["${game.processName}".to_string()],
                working_directory: Some("${external.hoyoshade}".to_string()),
                ready: None,
                failure_policy: FailurePolicy::Abort,
            }],
            external_managers: Vec::new(),
            ui_pages: vec![UiPageContribution {
                id: "hoyoshade".to_string(),
                route: "/plugins/hoyoshade".to_string(),
                path: "ui/index.html".to_string(),
            }],
        },
        external_dependencies: vec![ExternalDependency {
            id: "hoyoshade".to_string(),
            kind: ExternalDependencyType::Directory,
            required_files: vec!["inject.exe".to_string(), "ReShade64.dll".to_string()],
        }],
        permissions: vec![PluginPermission::ProcessSpawn, PluginPermission::ProcessObserve],
    }
}

#[test]
fn parses_valid_manifest_and_contributions() {
    let manifest = valid_manifest();
    manifest.validate().expect("valid manifest");
    assert_eq!(manifest.contributions.runtime_plugins[0].path, "native/example.dll");
    assert_eq!(
        manifest.contributions.launcher_adapters[0].kind,
        LauncherAdapterType::ProcessForwarder
    );
    assert_eq!(manifest.external_dependencies[0].kind, ExternalDependencyType::Directory);
}

#[test]
fn rejects_invalid_schema_version() {
    let manifest = PluginManifest {
        schema_version: 2,
        id: "ssmt.test".to_string(),
        name: "Test".to_string(),
        version: "1.0.0".to_string(),
        author: "SSMT".to_string(),
        compatibility: PluginCompatibility {
            ssmt: ">=4.0.0".to_string(),
            platforms: vec!["windows-x64".to_string()],
        },
        contributions: PluginContributions::empty(),
        external_dependencies: Vec::new(),
        permissions: Vec::new(),
    };
    let error = manifest.validate().unwrap_err();
    assert_eq!(error, PluginManifestError::UnsupportedSchemaVersion(2));
}

#[test]
fn rejects_duplicate_plugin_ids() {
    let first = valid_manifest();
    let second = first.clone();
    assert_eq!(
        validate_unique_plugin_ids(&[&first, &second]),
        Err(PluginManifestError::DuplicatePluginId("ssmt.hoyoshade.bridge".to_string()))
    );
}

#[test]
fn rejects_path_traversal() {
    let mut manifest = valid_manifest();
    manifest.contributions.runtime_plugins[0].path = "native/../outside.dll".to_string();
    assert!(matches!(manifest.validate(), Err(PluginManifestError::InvalidPath { .. })));
    assert!(validate_package_relative_path("..\\outside.dll").is_err());
    assert!(validate_package_relative_path("C:\\outside.dll").is_err());
}

#[test]
fn rejects_unsupported_platform_and_invalid_version() {
    let mut manifest = valid_manifest();
    manifest.compatibility.platforms = vec!["linux-x64".to_string()];
    assert_eq!(
        manifest.validate(),
        Err(PluginManifestError::UnsupportedPlatform("linux-x64".to_string()))
    );

    let mut manifest = valid_manifest();
    manifest.version = "not-a-version".to_string();
    assert_eq!(
        manifest.validate(),
        Err(PluginManifestError::InvalidVersion("not-a-version".to_string()))
    );
}

#[test]
fn rejects_invalid_contribution_and_unknown_dependency() {
    let mut manifest = valid_manifest();
    manifest.contributions.launcher_adapters[0].executable =
        "${external.missing}/inject.exe".to_string();
    assert!(matches!(manifest.validate(), Err(PluginManifestError::InvalidContribution(_))));

    let mut manifest = valid_manifest();
    manifest.external_dependencies[0].required_files = vec!["../inject.exe".to_string()];
    assert!(matches!(
        manifest.validate(),
        Err(PluginManifestError::InvalidExternalDependency(_))
    ));
}

#[test]
fn accepts_distinct_plugin_ids() {
    let first = valid_manifest();
    let mut second = valid_manifest();
    second.id = "ssmt.other".to_string();
    assert_eq!(validate_unique_plugin_ids(&[&first, &second]), Ok(()));
    assert_eq!(validate_unique_plugin_ids(&[]), Ok(()));
}

#[test]
fn plugin_ids_allow_only_safe_characters() {
    assert!(validate_plugin_id("ssmt.fixture-1_a").is_ok());
    assert!(matches!(validate_plugin_id(""), Err(PluginManifestError::InvalidPluginId(_))));
    assert!(validate_plugin_id("../escape").is_err());
    assert!(validate_plugin_id("with space").is_err());
}

#[test]
fn empty_name_and_author_are_refused() {
    let mut manifest = valid_manifest();
    manifest.name = "   ".to_string();
    assert_eq!(manifest.validate(), Err(PluginManifestError::EmptyField("name")));
    let mut manifest = valid_manifest();
    manifest.author = String::new();
    assert_eq!(manifest.validate(), Err(PluginManifestError::EmptyField("author")));
}

#[test]
fn compatibility_needs_a_platform_and_a_requirement() {
    let mut manifest = valid_manifest();
    manifest.compatibility.platforms = Vec::new();
    assert_eq!(
        manifest.validate(),
        Err(PluginManifestError::InvalidCompatibility(
            "at least one platform is required".to_string()
        ))
    );
    let mut manifest = valid_manifest();
    manifest.compatibility.ssmt = "not a range".to_string();
    assert_eq!(
        manifest.validate(),
        Err(PluginManifestError::InvalidCompatibility("not a range".to_string()))
    );
    let mut manifest = valid_manifest();
    manifest.compatibility.platforms =
        vec!["windows-x64".to_string(), "windows-x64".to_string()];
    assert_eq!(
        manifest.validate(),
        Err(PluginManifestError::DuplicateValue {
            field: "platform",
            value: "windows-x64".to_string()
        })
    );
}

#[test]
fn wildcards_in_requirements_read_as_zero() {
    assert_eq!(normalize_version_requirement(">=4.x"), ">=4.0");
    assert_eq!(normalize_version_requirement("4.X.*"), "4.0.0");
    assert_eq!(normalize_version_requirement("^1.2.3"), "^1.2.3");
}

#[test]
fn package_paths_must_stay_inside() {
    assert!(validate_package_relative_path("native/example.dll").is_ok());
    assert!(validate_package_relative_path("native\\example.dll").is_ok());
    assert!(validate_package_relative_path("").is_err());
    assert!(validate_package_relative_path("/absolute.dll").is_err());
    assert!(validate_package_relative_path("a//b").is_err());
    assert!(validate_package_relative_path("./a").is_err());
    assert!(validate_package_relative_path("a/b:stream").is_err());
    assert_eq!(
        validate_package_relative_path("../x"),
        Err(PluginManifestError::InvalidPath { field: "package", path: "../x".to_string() })
    );
}

#[test]
fn unknown_template_variable_is_named() {
    let mut manifest = valid_manifest();
    manifest.contributions.launcher_adapters[0].arguments = vec!["${game.version}".to_string()];
    assert_eq!(
        manifest.validate(),
        Err(PluginManifestError::InvalidContribution(
            "unsupported variable: ${game.version}".to_string()
        ))
    );
}

#[test]
fn duplicate_permission_is_refused() {
    let mut manifest = valid_manifest();
    manifest.permissions = vec![PluginPermission::Network, PluginPermission::Network];
    assert_eq!(
        manifest.validate(),
        Err(PluginManifestError::InvalidPermission(
            "duplicate permission: Network".to_string()
        ))
    );
}

#[test]
fn manifest_error_messages() {
    assert_eq!(
        PluginManifestError::UnsupportedSchemaVersion(2).message(),
        "unsupported plugin manifest schema version: 2"
    );
    assert_eq!(
        PluginManifestError::EmptyField("name").message(),
        "name must not be empty"
    );
    assert_eq!(
        PluginManifestError::InvalidPath { field: "runtime plugin", path: "../x".to_string() }
            .message(),
        "invalid runtime plugin path: ../x"
    );
    assert_eq!(
        PluginManifestError::DuplicateValue { field: "platform", value: "w".to_string() }
            .message(),
        "duplicate platform: w"
    );
}

#[test]
fn permission_names() {
    assert_eq!(PluginPermission::NativeInject.schema_name(), "native.inject");
    assert_eq!(PluginPermission::NativeInject.debug_name(), "NativeInject");
    assert_eq!(PluginPermission::FilesystemWrite.schema_name(), "filesystem.write");
}
