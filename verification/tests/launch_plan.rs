use ssmt::launch::{
    is_valid_transition, validate_plugin_preflight, validate_request, LaunchCoordinator, LaunchCoordinatorError,
    LaunchPhase, LaunchRequest, RequestProbe,
};
use ssmt::manifest::{
    PluginCompatibility, PluginContributions, PluginManifest, PluginPermission,
    RuntimePluginContribution,
};
use ssmt::registry::{ExternalDependencyState, ExternalDependencyStatus, PluginRegistry, RegistryState};

fn request() -> LaunchRequest {
    LaunchRequest {
        run_executable: "/games/Run.exe".to_string(),
        game_executable: Some("/games/Game.exe".to_string()),
        game_working_directory: Some("/games".to_string()),
        game_arguments: vec!["--test".to_string()],
    }
}

fn all_present() -> RequestProbe {
    RequestProbe {
        run_executable_is_file: true,
        game_executable_is_file: true,
        game_working_directory_is_dir: true,
    }
}

fn registry_with(id: &str, permissions: Vec<PluginPermission>) -> PluginRegistry {
    let manifest = PluginManifest {
        schema_version: 1,
        id: id.to_string(),
        name: "Test".to_string(),
        version: "1.0.0".to_string(),
        author: "Test".to_string(),
        compatibility: PluginCompatibility {
            ssmt: ">=4.0.0".to_string(),
            platforms: vec!["windows-x64".to_string()],
        },
        contributions: PluginContributions {
            runtime_plugins: vec![RuntimePluginContribution { path: "native/plugin.dll".to_string() }],
            launcher_adapters: Vec::new(),
            external_managers: Vec::new(),
            ui_pages: Vec::new(),
        },
        external_dependencies: Vec::new(),
        permissions,
    };
    let mut registry = PluginRegistry::new("/games/Plugins".to_string(), RegistryState::empty());
    registry
        .admit_package(
            Some(id.to_string()),
            Some("1.0.0".to_string()),
            format!("/games/Plugins/{id}/1.0.0"),
            manifest,
            Vec::new(),
        )
        .unwrap();
    registry
}

#[test]
fn prepares_enabled_plugins_and_runs_phase_machine() {
    let mut registry = registry_with("ssmt.runtime", vec![PluginPermission::NativeInject]);
    registry.set_enabled("ssmt.runtime", true).unwrap();
    let coordinator = LaunchCoordinator::new(&registry);
    let mut session = coordinator.prepare(request(), &all_present()).unwrap();
    assert_eq!(session.phase, LaunchPhase::AdaptersPrepared);
    assert!(session.plan.plugin_host_config.is_some());
    assert_eq!(session.plan.enabled_plugins.len(), 1);
    assert_eq!(
        session.plan.enabled_plugins[0].runtime_plugins,
        vec!["/games/Plugins/ssmt.runtime/1.0.0/native/plugin.dll".to_string()]
    );
    for phase in [
        LaunchPhase::RunStarted,
        LaunchPhase::Observing,
        LaunchPhase::CoordinatingAdapters,
        LaunchPhase::Running,
        LaunchPhase::TargetExited,
        LaunchPhase::CleaningUp,
        LaunchPhase::Completed,
    ] {
        session.transition(phase).unwrap();
    }
    assert_eq!(session.phase, LaunchPhase::Completed);
}

#[test]
fn rejects_enabled_runtime_plugin_without_native_permission() {
    let mut registry = registry_with("ssmt.runtime", Vec::new());
    registry.set_enabled("ssmt.runtime", true).unwrap();
    let error = LaunchCoordinator::new(&registry).prepare(request(), &all_present()).unwrap_err();
    assert!(matches!(error, LaunchCoordinatorError::MissingPermission { .. }));
}

#[test]
fn rejects_invalid_phase_transition() {
    let registry = PluginRegistry::new("/games/Plugins".to_string(), RegistryState::empty());
    let mut session = LaunchCoordinator::new(&registry).prepare(request(), &all_present()).unwrap();
    assert!(matches!(
        session.transition(LaunchPhase::Running),
        Err(LaunchCoordinatorError::InvalidTransition { .. })
    ));
    assert_eq!(session.phase, LaunchPhase::AdaptersPrepared);
    assert!(session.plan.plugin_host_config.is_none());
}

#[test]
fn disabled_plugins_are_not_planned() {
    let registry = registry_with("ssmt.runtime", Vec::new());
    let session = LaunchCoordinator::new(&registry).prepare(request(), &all_present()).unwrap();
    assert!(session.plan.enabled_plugins.is_empty());
    assert_eq!(session.plan.launcher_adapter_count, 0);
}

#[test]
fn missing_executables_are_reported() {
    let probe = RequestProbe {
        run_executable_is_file: false,
        game_executable_is_file: true,
        game_working_directory_is_dir: true,
    };
    assert!(matches!(
        validate_request(&request(), &probe),
        Err(LaunchCoordinatorError::MissingExecutable { kind: "Run.exe", .. })
    ));
    let probe = RequestProbe {
        run_executable_is_file: true,
        game_executable_is_file: false,
        game_working_directory_is_dir: true,
    };
    assert!(matches!(
        validate_request(&request(), &probe),
        Err(LaunchCoordinatorError::MissingExecutable { kind: "game executable", .. })
    ));
    let probe = RequestProbe {
        run_executable_is_file: true,
        game_executable_is_file: true,
        game_working_directory_is_dir: false,
    };
    assert!(matches!(
        validate_request(&request(), &probe),
        Err(LaunchCoordinatorError::InvalidRequest(_))
    ));
    assert!(validate_request(&request(), &all_present()).is_ok());
}

#[test]
fn failing_a_session_is_final() {
    let registry = PluginRegistry::new("/games/Plugins".to_string(), RegistryState::empty());
    let mut session = LaunchCoordinator::new(&registry).prepare(request(), &all_present()).unwrap();
    session.fail("run exited".to_string());
    assert_eq!(session.phase, LaunchPhase::Failed);
    assert_eq!(session.failure.as_deref(), Some("run exited"));
    assert!(session.transition(LaunchPhase::RunStarted).is_err());
}

#[test]
fn transitions_follow_the_chain() {
    assert!(is_valid_transition(LaunchPhase::Created, LaunchPhase::ResolvingPlugins));
    assert!(is_valid_transition(LaunchPhase::CleaningUp, LaunchPhase::Completed));
    assert!(!is_valid_transition(LaunchPhase::Completed, LaunchPhase::Created));
    assert!(!is_valid_transition(LaunchPhase::Running, LaunchPhase::Failed));
    assert!(!is_valid_transition(LaunchPhase::Created, LaunchPhase::Preflight));
}

#[test]
fn preflight_reports_the_unready_dependency_with_the_least_id() {
    let registry = registry_with("ssmt.deps", vec![PluginPermission::NativeInject]);
    let mut plugin = registry.installed()[0].clone();
    plugin.external_dependencies = vec![
        ("zeta".to_string(), ExternalDependencyState::missing("not configured".to_string(), None)),
        ("beta".to_string(), ExternalDependencyState::ready("/deps/beta".to_string())),
        ("alpha".to_string(), ExternalDependencyState::invalid("bad files".to_string(), Some("/deps/alpha".to_string()))),
    ];
    match validate_plugin_preflight(&plugin) {
        Err(LaunchCoordinatorError::MissingExternalDependency { plugin_id, dependency_id, status, reason }) => {
            assert_eq!(plugin_id, "ssmt.deps");
            assert_eq!(dependency_id, "alpha");
            assert_eq!(status, ExternalDependencyStatus::Invalid);
            assert_eq!(reason, Some("bad files".to_string()));
        }
        other => panic!("unexpected {other:?}"),
    }
    plugin.external_dependencies.retain(|(id, _)| id == "beta");
    assert!(validate_plugin_preflight(&plugin).is_ok());
}
