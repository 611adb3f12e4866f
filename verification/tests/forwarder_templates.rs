use ssmt::forwarder::{
    after_ready, append_output, check_launch_paths, ready_line_matches, ready_on_exit,
    ready_on_timeout, resolve_argument, CapturedOutput, ForwarderOutput, LaunchTemplateContext,
    OutputStream, ProcessForwarderError, ProcessForwarderSpec, MAX_CAPTURED_BYTES,
};
use ssmt::manifest::{
    ExternalDependency, ExternalDependencyType, FailurePolicy, LauncherAdapterContribution,
    LauncherAdapterType, PluginCompatibility, PluginContributions, PluginManifest,
    PluginPermission, ReadyCondition, ReadyConditionType,
};
use ssmt::registry::{ExternalDependencyState, ExternalDependencyStatus, InstalledPlugin};
use std::io::Write;

fn plugin(root: &str) -> InstalledPlugin {
    InstalledPlugin {
        manifest: PluginManifest {
            schema_version: 1,
            id: "ssmt.test.forwarder".to_string(),
            name: "Test Forwarder".to_string(),
            version: "1.0.0".to_string(),
            author: "SSMT".to_string(),
            compatibility: PluginCompatibility {
                ssmt: ">=4.0.0".to_string(),
                platforms: vec!["windows-x64".to_string()],
            },
            contributions: PluginContributions::empty(),
            external_dependencies: vec![ExternalDependency {
                id: "tool".to_string(),
                kind: ExternalDependencyType::Directory,
                required_files: Vec::new(),
            }],
            permissions: vec![PluginPermission::ProcessSpawn],
        },
        package_root: format!("{root}/package"),
        enabled: true,
        external_dependencies: vec![(
            "tool".to_string(),
            ExternalDependencyState {
                status: ExternalDependencyStatus::Ready,
                path: Some(format!("{root}/external")),
                reason: None,
            },
        )],
    }
}

fn context(root: &str) -> LaunchTemplateContext {
    LaunchTemplateContext {
        game_executable: format!("{root}/Game.exe"),
        game_directory: root.to_string(),
        game_process_name: "Game.exe".to_string(),
        external_dependencies: vec![("tool".to_string(), format!("{root}/external"))],
    }
}

fn adapter(executable: &str) -> LauncherAdapterContribution {
    LauncherAdapterContribution {
        kind: LauncherAdapterType::ProcessForwarder,
        executable: executable.to_string(),
        arguments: Vec::new(),
        working_directory: None,
        ready: None,
        failure_policy: FailurePolicy::Abort,
    }
}

#[test]
fn interpolates_supported_variables_and_keeps_arguments_separate() {
    let root = "/tmp/ssmt-forwarder";
    let plugin = plugin(root);
    let context = context(root);
    let adapter = LauncherAdapterContribution {
        kind: LauncherAdapterType::ProcessForwarder,
        executable: "${external.tool}/inject.exe".to_string(),
        arguments: vec!["${game.processName}".to_string(), "--path=${game.directory}".to_string()],
        working_directory: Some("${plugin.root}".to_string()),
        ready: None,
        failure_policy: FailurePolicy::Abort,
    };
    let spec = ProcessForwarderSpec::resolve(&plugin, &adapter, &context, None).unwrap();
    assert_eq!(spec.executable, format!("{root}/external/inject.exe"));
    assert_eq!(spec.arguments, vec!["Game.exe".to_string(), format!("--path={root}")]);
    assert_eq!(spec.working_directory, format!("{root}/package"));
    assert_eq!(spec.plugin_id, "ssmt.test.forwarder");
}

#[test]
fn rejects_unknown_or_unclosed_template_variables() {
    let root = "/tmp/ssmt-bad-template";
    let plugin = plugin(root);
    let context = context(root);
    for executable in ["${unknown}/tool.exe", "${external.tool/tool.exe"] {
        let adapter = adapter(executable);
        assert!(ProcessForwarderSpec::resolve(&plugin, &adapter, &context, None).is_err());
    }
}

#[test]
fn forwarder_child_process() {
    std::io::stdout().write_all(b"forwarder-child-stdout\n").unwrap();
    std::io::stderr().write_all(b"forwarder-child-stderr\n").unwrap();
}

#[test]
fn working_directory_defaults_to_the_executable_directory() {
    let root = "/tmp/ssmt-default-dir";
    let spec = ProcessForwarderSpec::resolve(&plugin(root), &adapter("${external.tool}/inject.exe"), &context(root), None)
        .unwrap();
    assert_eq!(spec.working_directory, format!("{root}/external"));
}

#[test]
fn template_errors_are_specific() {
    let root = "/tmp/ssmt-template-errors";
    let plugin = plugin(root);
    let mut context = context(root);
    assert_eq!(
        resolve_argument("${game.exe}}", &plugin, &context),
        Err(ProcessForwarderError::InvalidTemplate("${game.exe}}".to_string()))
    );
    assert_eq!(
        resolve_argument("${external.other}", &plugin, &context),
        Err(ProcessForwarderError::MissingExternalDependency("other".to_string()))
    );
    context.external_dependencies.clear();
    assert_eq!(
        resolve_argument("${external.tool}/x", &plugin, &context),
        Err(ProcessForwarderError::MissingExternalDependency("tool".to_string()))
    );
    assert_eq!(resolve_argument("plain", &plugin, &context), Ok("plain".to_string()));
    assert_eq!(
        resolve_argument("${game.exe} ${game.exe}", &plugin, &context),
        Ok(format!("{root}/Game.exe {root}/Game.exe"))
    );
}

#[test]
fn launch_paths_are_checked_before_starting() {
    let root = "/tmp/ssmt-paths";
    let spec = ProcessForwarderSpec::resolve(&plugin(root), &adapter("${external.tool}/inject.exe"), &context(root), None)
        .unwrap();
    assert_eq!(
        check_launch_paths(&spec, false, true),
        Err(ProcessForwarderError::InvalidExecutable(format!("{root}/external/inject.exe")))
    );
    assert_eq!(
        check_launch_paths(&spec, true, false),
        Err(ProcessForwarderError::InvalidWorkingDirectory(format!("{root}/external")))
    );
    assert_eq!(check_launch_paths(&spec, true, true), Ok(()));
}

#[test]
fn ready_conditions_watch_their_stream() {
    let ready = ReadyCondition {
        kind: ReadyConditionType::StderrContains,
        value: Some("forwarder-child-stderr".to_string()),
        timeout_ms: 5_000,
    };
    let on_stderr = ForwarderOutput { stream: OutputStream::Stderr, line: "x forwarder-child-stderr y".to_string() };
    let on_stdout = ForwarderOutput { stream: OutputStream::Stdout, line: "forwarder-child-stderr".to_string() };
    assert!(ready_line_matches(&ready, &on_stderr));
    assert!(!ready_line_matches(&ready, &on_stdout));
    let exited = ReadyCondition { kind: ReadyConditionType::ProcessExited, value: None, timeout_ms: 1 };
    assert!(!ready_line_matches(&exited, &on_stderr));
    assert_eq!(ready_on_exit(ReadyConditionType::ProcessExited, Some(0)), Ok(()));
    assert_eq!(
        ready_on_exit(ReadyConditionType::StdoutContains, Some(3)),
        Err(ProcessForwarderError::ExitedBeforeReady(Some(3)))
    );
}

#[test]
fn ready_timeout_obeys_failure_policy() {
    assert_eq!(ready_on_timeout(FailurePolicy::Abort), Err(ProcessForwarderError::ReadyTimeout));
    assert_eq!(ready_on_timeout(FailurePolicy::Warn), Ok(()));
    assert_eq!(ready_on_timeout(FailurePolicy::Ignore), Ok(()));
    let exited = Err(ProcessForwarderError::ExitedBeforeReady(None));
    assert_eq!(after_ready(FailurePolicy::Abort, exited.clone()), exited);
    assert_eq!(after_ready(FailurePolicy::Warn, exited), Ok(()));
}

#[test]
fn captured_output_keeps_lines_and_stops_at_the_limit() {
    let mut output = CapturedOutput::new();
    append_output(&mut output, &ForwarderOutput { stream: OutputStream::Stdout, line: "héllo".to_string() });
    append_output(&mut output, &ForwarderOutput { stream: OutputStream::Stderr, line: "oops".to_string() });
    assert_eq!(output.stdout, "héllo\n");
    assert_eq!(output.stderr, "oops\n");
    assert!(!output.truncated);

    let long = "a".repeat(MAX_CAPTURED_BYTES + 10);
    append_output(&mut output, &ForwarderOutput { stream: OutputStream::Stdout, line: long });
    assert!(output.truncated);
    assert_eq!(output.stdout.len(), MAX_CAPTURED_BYTES + 1);
    append_output(&mut output, &ForwarderOutput { stream: OutputStream::Stdout, line: "more".to_string() });
    assert_eq!(output.stdout.len(), MAX_CAPTURED_BYTES + 1);
    assert_eq!(output.stderr, "oops\n");
}

#[test]
fn a_cut_character_is_replaced() {
    let mut output = CapturedOutput::new();
    let filler = "b".repeat(MAX_CAPTURED_BYTES - 1);
    append_output(&mut output, &ForwarderOutput { stream: OutputStream::Stdout, line: filler });
    // one byte of room is left after the newline: none
    assert_eq!(output.stdout.len(), MAX_CAPTURED_BYTES);
    let mut output = CapturedOutput::new();
    let filler = "b".repeat(MAX_CAPTURED_BYTES - 2);
    append_output(&mut output, &ForwarderOutput { stream: OutputStream::Stdout, line: filler });
    append_output(&mut output, &ForwarderOutput { stream: OutputStream::Stdout, line: "é".to_string() });
    assert!(output.truncated);
    assert!(output.stdout.ends_with("\u{FFFD}\n"));
}
