//! Planning a game launch with the enabled plugins, and the phase machine a
//! launch session moves through.
use vstd::prelude::*;
use crate::manifest::{PluginPermission, RuntimePluginContribution};
use crate::registry::{
    dependency_entries_view, host_plugins_fit, host_sources, installed_key, join_shape, ExternalDependencyState,
    ExternalDependencyStateView, ExternalDependencyStatus, InstalledPlugin, PluginHostConfig,
    PluginRegistry,
};
use crate::text::{chars_of, concat2, string_from};

verus! {

#[derive(Debug, Clone, PartialEq, Eq)]
pub struct LaunchRequest {
    pub run_executable: String,
    pub game_executable: Option<String>,
    pub game_working_directory: Option<String>,
    pub game_arguments: Vec<String>,
}

/// What the file system says about the paths of a launch request: whether
/// `Run.exe` and the game executable are files and whether the working
/// directory is a directory (the last two matter only when the request names them).
#[derive(Debug, Clone, Copy, PartialEq, Eq)]
pub struct RequestProbe {
    pub run_executable_is_file: bool,
    pub game_executable_is_file: bool,
    pub game_working_directory_is_dir: bool,
}

#[derive(Debug, Clone, PartialEq, Eq)]
pub struct ResolvedPlugin {
    pub id: String,
    pub version: String,
    pub package_root: String,
    pub runtime_plugins: Vec<String>,
    pub launcher_adapter_count: usize,
}

#[derive(Debug, Clone, PartialEq, Eq)]
pub struct LaunchPlan {
    pub request: LaunchRequest,
    pub enabled_plugins: Vec<ResolvedPlugin>,
    pub plugin_host_config: Option<PluginHostConfig>,
    pub launcher_adapter_count: usize,
}

#[derive(Debug, Clone, Copy, PartialEq, Eq, Structural)]
pub enum LaunchPhase {
    Created,
    ResolvingPlugins,
    Preflight,
    AdaptersPrepared,
    RunStarted,
    Observing,
    CoordinatingAdapters,
    Running,
    TargetExited,
    CleaningUp,
    Completed,
    Failed,
}

#[derive(Debug, Clone, PartialEq, Eq)]
pub struct LaunchSession {
    pub plan: LaunchPlan,
    pub phase: LaunchPhase,
    pub failure: Option<String>,
}

#[derive(Debug, Clone, PartialEq, Eq)]
pub struct PluginRegistryErrorMessage(pub String);

#[derive(Debug, Clone, PartialEq, Eq)]
pub enum LaunchCoordinatorError {
    Registry(PluginRegistryErrorMessage),
    InvalidRequest(String),
    MissingExecutable { kind: &'static str, path: String },
    MissingExternalDependency {
        plugin_id: String,
        dependency_id: String,
        status: ExternalDependencyStatus,
        reason: Option<String>,
    },
    MissingPermission { plugin_id: String, permission: PluginPermission },
    InvalidTransition { from: LaunchPhase, to: LaunchPhase },
}

pub enum LaunchErrorView {
    Registry(Seq<char>),
    InvalidRequest(Seq<char>),
    MissingExecutable { kind: Seq<char>, path: Seq<char> },
    MissingExternalDependency {
        plugin_id: Seq<char>,
        dependency_id: Seq<char>,
        status: ExternalDependencyStatus,
        reason: Option<Seq<char>>,
    },
    MissingPermission { plugin_id: Seq<char>, permission: PluginPermission },
    InvalidTransition { from: LaunchPhase, to: LaunchPhase },
}

impl View for LaunchCoordinatorError {
    type V = LaunchErrorView;

    open spec fn view(&self) -> LaunchErrorView {
        match self {
            LaunchCoordinatorError::Registry(m) => LaunchErrorView::Registry(m.0@),
            LaunchCoordinatorError::InvalidRequest(s) => LaunchErrorView::InvalidRequest(s@),
            LaunchCoordinatorError::MissingExecutable { kind, path } => LaunchErrorView::MissingExecutable { kind: kind@, path: path@ },
            LaunchCoordinatorError::MissingExternalDependency { plugin_id, dependency_id, status, reason } =>
                LaunchErrorView::MissingExternalDependency {
                    plugin_id: plugin_id@,
                    dependency_id: dependency_id@,
                    status: *status,
                    reason: crate::registry::opt_view(*reason),
                },
            LaunchCoordinatorError::MissingPermission { plugin_id, permission } =>
                LaunchErrorView::MissingPermission { plugin_id: plugin_id@, permission: *permission },
            LaunchCoordinatorError::InvalidTransition { from, to } => LaunchErrorView::InvalidTransition { from: *from, to: *to },
        }
    }
}

// ---------------------------------------------------------------------------
// The phase machine

/// The moves a launch session may make: each phase to the next, from `Created`
/// through `Completed`. `Failed` is reached only through `fail`.
pub open spec fn valid_transition(from: LaunchPhase, to: LaunchPhase) -> bool {
    ||| (from == LaunchPhase::Created && to == LaunchPhase::ResolvingPlugins)
    ||| (from == LaunchPhase::ResolvingPlugins && to == LaunchPhase::Preflight)
    ||| (from == LaunchPhase::Preflight && to == LaunchPhase::AdaptersPrepared)
    ||| (from == LaunchPhase::AdaptersPrepared && to == LaunchPhase::RunStarted)
    ||| (from == LaunchPhase::RunStarted && to == LaunchPhase::Observing)
    ||| (from == LaunchPhase::Observing && to == LaunchPhase::CoordinatingAdapters)
    ||| (from == LaunchPhase::CoordinatingAdapters && to == LaunchPhase::Running)
    ||| (from == LaunchPhase::Running && to == LaunchPhase::TargetExited)
    ||| (from == LaunchPhase::TargetExited && to == LaunchPhase::CleaningUp)
    ||| (from == LaunchPhase::CleaningUp && to == LaunchPhase::Completed)
}

pub fn is_valid_transition(from: LaunchPhase, to: LaunchPhase) -> (b: bool)
    ensures
        b == valid_transition(from, to),
{
    match (from, to) {
        (LaunchPhase::Created, LaunchPhase::ResolvingPlugins) => true,
        (LaunchPhase::ResolvingPlugins, LaunchPhase::Preflight) => true,
        (LaunchPhase::Preflight, LaunchPhase::AdaptersPrepared) => true,
        (LaunchPhase::AdaptersPrepared, LaunchPhase::RunStarted) => true,
        (LaunchPhase::RunStarted, LaunchPhase::Observing) => true,
        (LaunchPhase::Observing, LaunchPhase::CoordinatingAdapters) => true,
        (LaunchPhase::CoordinatingAdapters, LaunchPhase::Running) => true,
        (LaunchPhase::Running, LaunchPhase::TargetExited) => true,
        (LaunchPhase::TargetExited, LaunchPhase::CleaningUp) => true,
        (LaunchPhase::CleaningUp, LaunchPhase::Completed) => true,
        _ => false,
    }
}

impl LaunchSession {
    pub fn transition(&mut self, next: LaunchPhase) -> (r: Result<(), LaunchCoordinatorError>)
        ensures
            final(self).plan == old(self).plan,
            final(self).failure == old(self).failure,
            valid_transition(old(self).phase, next) ==> r is Ok && final(self).phase == next,
            !valid_transition(old(self).phase, next) ==> final(self).phase == old(self).phase
                && (r matches Err(e) && e@ == (LaunchErrorView::InvalidTransition { from: old(self).phase, to: next })),
    {
        if !is_valid_transition(self.phase, next) {
            return Err(LaunchCoordinatorError::InvalidTransition { from: self.phase, to: next });
        }
        self.phase = next;
        Ok(())
    }

    pub fn fail(&mut self, error: String)
        ensures
            final(self).plan == old(self).plan,
            final(self).phase == LaunchPhase::Failed,
            final(self).failure == Some(error),
    {
        self.failure = Some(error);
        self.phase = LaunchPhase::Failed;
    }
}

/// The position of a phase along a launch (`Failed` stands apart).
pub open spec fn phase_rank(p: LaunchPhase) -> int {
    match p {
        LaunchPhase::Created => 0,
        LaunchPhase::ResolvingPlugins => 1,
        LaunchPhase::Preflight => 2,
        LaunchPhase::AdaptersPrepared => 3,
        LaunchPhase::RunStarted => 4,
        LaunchPhase::Observing => 5,
        LaunchPhase::CoordinatingAdapters => 6,
        LaunchPhase::Running => 7,
        LaunchPhase::TargetExited => 8,
        LaunchPhase::CleaningUp => 9,
        LaunchPhase::Completed => 10,
        LaunchPhase::Failed => 11,
    }
}

/// A launch moves forward one phase at a time: every accepted transition goes
/// to the next phase, so no phase is ever entered twice; from a phase there is
/// at most one way on; `Completed` and `Failed` are final; and no transition
/// leads back to `Created` or into `Failed` (only `fail` does that).
pub proof fn law_phase_machine(from: LaunchPhase, to: LaunchPhase, other: LaunchPhase)
    ensures
        valid_transition(from, to) ==> phase_rank(to) == phase_rank(from) + 1,
        valid_transition(from, to) && valid_transition(from, other) ==> to == other,
        !valid_transition(LaunchPhase::Completed, to),
        !valid_transition(LaunchPhase::Failed, to),
        !valid_transition(from, LaunchPhase::Created),
        !valid_transition(from, LaunchPhase::Failed),
{
}

/// Every phase from `Created` reaches `Completed` by accepted transitions: the
/// phase after each non-final phase is accepted.
pub proof fn law_phase_chain_complete(from: LaunchPhase)
    requires
        from != LaunchPhase::Completed,
        from != LaunchPhase::Failed,
    ensures
        exists|to: LaunchPhase| valid_transition(from, to),
{
    match from {
        LaunchPhase::Created => assert(valid_transition(from, LaunchPhase::ResolvingPlugins)),
        LaunchPhase::ResolvingPlugins => assert(valid_transition(from, LaunchPhase::Preflight)),
        LaunchPhase::Preflight => assert(valid_transition(from, LaunchPhase::AdaptersPrepared)),
        LaunchPhase::AdaptersPrepared => assert(valid_transition(from, LaunchPhase::RunStarted)),
        LaunchPhase::RunStarted => assert(valid_transition(from, LaunchPhase::Observing)),
        LaunchPhase::Observing => assert(valid_transition(from, LaunchPhase::CoordinatingAdapters)),
        LaunchPhase::CoordinatingAdapters => assert(valid_transition(from, LaunchPhase::Running)),
        LaunchPhase::Running => assert(valid_transition(from, LaunchPhase::TargetExited)),
        LaunchPhase::TargetExited => assert(valid_transition(from, LaunchPhase::CleaningUp)),
        LaunchPhase::CleaningUp => assert(valid_transition(from, LaunchPhase::Completed)),
        _ => {},
    }
}

// ---------------------------------------------------------------------------
// Checks before a launch

pub open spec fn request_issue(request: LaunchRequest, probe: RequestProbe) -> Option<LaunchErrorView> {
    if !probe.run_executable_is_file {
        Some(LaunchErrorView::MissingExecutable { kind: "Run.exe"@, path: request.run_executable@ })
    } else if request.game_executable is Some && !probe.game_executable_is_file {
        Some(LaunchErrorView::MissingExecutable { kind: "game executable"@, path: request.game_executable->0@ })
    } else if request.game_working_directory is Some && !probe.game_working_directory_is_dir {
        Some(LaunchErrorView::InvalidRequest(
            "game working directory does not exist or is not a directory: "@ + request.game_working_directory->0@))
    } else {
        None
    }
}

pub fn validate_request(request: &LaunchRequest, probe: &RequestProbe) -> (r: Result<(), LaunchCoordinatorError>)
    ensures
        match request_issue(*request, *probe) {
            Some(e) => r matches Err(err) && err@ == e,
            None => r is Ok,
        },
{
    if !probe.run_executable_is_file {
        return Err(LaunchCoordinatorError::MissingExecutable { kind: "Run.exe", path: request.run_executable.clone() });
    }
    if let Some(game_executable) = &request.game_executable {
        if !probe.game_executable_is_file {
            return Err(LaunchCoordinatorError::MissingExecutable { kind: "game executable", path: game_executable.clone() });
        }
    }
    if let Some(working_directory) = &request.game_working_directory {
        if !probe.game_working_directory_is_dir {
            return Err(LaunchCoordinatorError::InvalidRequest(concat2(
                "game working directory does not exist or is not a directory: ",
                working_directory.as_str(),
            )));
        }
    }
    Ok(())
}

pub open spec fn has_permission_spec(plugin: InstalledPlugin, required: PluginPermission) -> bool {
    plugin.manifest.permissions@.contains(required)
}

pub fn has_permission(plugin: &InstalledPlugin, required: PluginPermission) -> (b: bool)
    ensures
        b == has_permission_spec(*plugin, required),
{
    let permissions = &plugin.manifest.permissions;
    let mut i: usize = 0;
    while i < permissions.len()
        invariant
            permissions@ == plugin.manifest.permissions@,
            i <= permissions@.len(),
            forall|k: int| 0 <= k < i ==> #[trigger] permissions@[k] != required,
        decreases permissions.len() - i,
    {
        if permissions[i] == required {
            assert(permissions@[i as int] == required);
            assert(plugin.manifest.permissions@.contains(required));
            return true;
        }
        i += 1;
    }
    false
}

/// Among the first `n` dependencies, the one with the least id that is not
/// ready (the first of equal ids); the registry's map yields dependencies in
/// ascending id order, so this is the first one it meets.
pub open spec fn least_unready_upto(deps: Seq<(Seq<char>, ExternalDependencyStateView)>, n: int) -> Option<int>
    decreases n,
{
    if n <= 0 {
        None
    } else {
        let best = least_unready_upto(deps, n - 1);
        if deps[n - 1].1.status != ExternalDependencyStatus::Ready
            && (best is None || crate::text::lex_lt(deps[n - 1].0, deps[best->0].0)) {
            Some(n - 1)
        } else {
            best
        }
    }
}

pub proof fn lemma_least_unready(deps: Seq<(Seq<char>, ExternalDependencyStateView)>, n: int)
    requires
        0 <= n <= deps.len(),
    ensures
        match least_unready_upto(deps, n) {
            Some(k) => {
                &&& 0 <= k < n
                &&& deps[k].1.status != ExternalDependencyStatus::Ready
                &&& forall|j: int| 0 <= j < n && #[trigger] deps[j].1.status != ExternalDependencyStatus::Ready
                    ==> !crate::text::lex_lt(deps[j].0, deps[k].0)
                &&& forall|j: int| 0 <= j < k && #[trigger] deps[j].1.status != ExternalDependencyStatus::Ready
                    ==> deps[j].0 != deps[k].0
            },
            None => forall|j: int| 0 <= j < n ==> #[trigger] deps[j].1.status == ExternalDependencyStatus::Ready,
        },
    decreases n,
{
    if n > 0 {
        lemma_least_unready(deps, n - 1);
        let best = least_unready_upto(deps, n - 1);
        let x = deps[n - 1].0;
        match best {
            Some(b) => {
                if deps[n - 1].1.status != ExternalDependencyStatus::Ready && crate::text::lex_lt(x, deps[b].0) {
                    assert forall|j: int| 0 <= j < n && #[trigger] deps[j].1.status != ExternalDependencyStatus::Ready
                        implies !crate::text::lex_lt(deps[j].0, x) by {
                        if j < n - 1 {
                            if crate::text::lex_lt(deps[j].0, x) {
                                crate::text::lemma_lex_transitive(deps[j].0, x, deps[b].0);
                            }
                        } else {
                            crate::text::lemma_lex_irreflexive(x);
                        }
                    }
                    assert forall|j: int| 0 <= j < n - 1 && #[trigger] deps[j].1.status != ExternalDependencyStatus::Ready
                        implies deps[j].0 != x by {
                        if deps[j].0 == x {
                            assert(!crate::text::lex_lt(deps[j].0, deps[b].0));
                        }
                    }
                } else {
                    if deps[n - 1].1.status != ExternalDependencyStatus::Ready {
                        crate::text::lemma_lex_total(x, deps[b].0);
                        crate::text::lemma_lex_asymmetric(x, deps[b].0);
                        crate::text::lemma_lex_irreflexive(x);
                    }
                }
            },
            None => {
                if deps[n - 1].1.status != ExternalDependencyStatus::Ready {
                    crate::text::lemma_lex_irreflexive(x);
                }
            },
        }
    }
}

/// Why an enabled package cannot take part in a launch: a dependency that is
/// not ready; runtime plugins without `native.inject`; launcher adapters
/// without `process.spawn` and `process.observe`.
pub open spec fn preflight_issue(plugin: InstalledPlugin) -> Option<LaunchErrorView> {
    let deps = dependency_entries_view(plugin.external_dependencies@);
    let id = plugin.manifest.id@;
    match least_unready_upto(deps, deps.len() as int) {
        Some(k) => Some(LaunchErrorView::MissingExternalDependency {
            plugin_id: id,
            dependency_id: deps[k].0,
            status: deps[k].1.status,
            reason: deps[k].1.reason,
        }),
        None => if plugin.manifest.contributions.runtime_plugins@.len() > 0
            && !has_permission_spec(plugin, PluginPermission::NativeInject) {
            Some(LaunchErrorView::MissingPermission { plugin_id: id, permission: PluginPermission::NativeInject })
        } else if plugin.manifest.contributions.launcher_adapters@.len() > 0
            && !has_permission_spec(plugin, PluginPermission::ProcessSpawn) {
            Some(LaunchErrorView::MissingPermission { plugin_id: id, permission: PluginPermission::ProcessSpawn })
        } else if plugin.manifest.contributions.launcher_adapters@.len() > 0
            && !has_permission_spec(plugin, PluginPermission::ProcessObserve) {
            Some(LaunchErrorView::MissingPermission { plugin_id: id, permission: PluginPermission::ProcessObserve })
        } else {
            None
        },
    }
}

pub fn validate_plugin_preflight(plugin: &InstalledPlugin) -> (r: Result<(), LaunchCoordinatorError>)
    ensures
        match preflight_issue(*plugin) {
            Some(e) => r matches Err(err) && err@ == e,
            None => r is Ok,
        },
{
    let deps = &plugin.external_dependencies;
    let ghost dv = dependency_entries_view(deps@);
    let mut best: Option<usize> = None;
    let mut i: usize = 0;
    while i < deps.len()
        invariant
            deps@ == plugin.external_dependencies@,
            dv == dependency_entries_view(deps@),
            i <= deps@.len(),
            match best {
                Some(b) => least_unready_upto(dv, i as int) == Some(b as int) && b < i,
                None => least_unready_upto(dv, i as int) is None,
            },
        decreases deps.len() - i,
    {
        let ready = match deps[i].1.status {
            ExternalDependencyStatus::Ready => true,
            _ => false,
        };
        if !ready {
            let smaller = match best {
                None => true,
                Some(b) => crate::text::str_lt(deps[i].0.as_str(), deps[b].0.as_str()),
            };
            if smaller {
                best = Some(i);
            }
        }
        i += 1;
    }
    match best {
        Some(b) => {
            return Err(LaunchCoordinatorError::MissingExternalDependency {
                plugin_id: plugin.manifest.id.clone(),
                dependency_id: deps[b].0.clone(),
                status: deps[b].1.status,
                reason: match &deps[b].1.reason {
                    Some(reason) => Some(reason.clone()),
                    None => None,
                },
            });
        },
        None => {},
    }
    if plugin.manifest.contributions.runtime_plugins.len() > 0 && !has_permission(plugin, PluginPermission::NativeInject) {
        return Err(LaunchCoordinatorError::MissingPermission {
            plugin_id: plugin.manifest.id.clone(),
            permission: PluginPermission::NativeInject,
        });
    }
    if plugin.manifest.contributions.launcher_adapters.len() > 0 {
        if !has_permission(plugin, PluginPermission::ProcessSpawn) {
            return Err(LaunchCoordinatorError::MissingPermission {
                plugin_id: plugin.manifest.id.clone(),
                permission: PluginPermission::ProcessSpawn,
            });
        }
        if !has_permission(plugin, PluginPermission::ProcessObserve) {
            return Err(LaunchCoordinatorError::MissingPermission {
                plugin_id: plugin.manifest.id.clone(),
                permission: PluginPermission::ProcessObserve,
            });
        }
    }
    Ok(())
}

/// A package with a dependency that is not ready is refused before any
/// permission is looked at, and the refusal names, of the dependencies that are
/// not ready, the one with the least id (the first of equal ids), with its status
/// and reason; a package whose dependencies are all ready is refused only for a
/// missing permission.
pub proof fn law_preflight_reports_least_unready(plugin: InstalledPlugin)
    ensures
        ({
            let deps = dependency_entries_view(plugin.external_dependencies@);
            match preflight_issue(plugin) {
                Some(LaunchErrorView::MissingExternalDependency { plugin_id, dependency_id, status, reason }) => exists|k: int| {
                    &&& 0 <= k < deps.len()
                    &&& plugin_id == plugin.manifest.id@
                    &&& dependency_id == deps[k].0 && status == deps[k].1.status && reason == deps[k].1.reason
                    &&& status != ExternalDependencyStatus::Ready
                    &&& forall|j: int| 0 <= j < deps.len() && #[trigger] deps[j].1.status != ExternalDependencyStatus::Ready
                        ==> !crate::text::lex_lt(deps[j].0, dependency_id)
                    &&& forall|j: int| 0 <= j < k && #[trigger] deps[j].1.status != ExternalDependencyStatus::Ready
                        ==> deps[j].0 != dependency_id
                },
                Some(LaunchErrorView::MissingPermission { .. }) =>
                    forall|j: int| 0 <= j < deps.len() ==> #[trigger] deps[j].1.status == ExternalDependencyStatus::Ready,
                None => forall|j: int| 0 <= j < deps.len() ==> #[trigger] deps[j].1.status == ExternalDependencyStatus::Ready,
                _ => false,
            }
        }),
{
    let deps = dependency_entries_view(plugin.external_dependencies@);
    lemma_least_unready(deps, deps.len() as int);
}

/// A plugin passes preflight exactly when every dependency is ready, it
/// declares `native.inject` where it has runtime plugins, and it declares both
/// `process.spawn` and `process.observe` where it has launcher adapters.
pub proof fn law_preflight_requires_ready_dependencies_and_permissions(plugin: InstalledPlugin)
    ensures
        preflight_issue(plugin) is None <==> {
            let perms = plugin.manifest.permissions@;
            let c = plugin.manifest.contributions;
            &&& forall|k: int| 0 <= k < plugin.external_dependencies@.len()
                ==> #[trigger] plugin.external_dependencies@[k].1.status == ExternalDependencyStatus::Ready
            &&& c.runtime_plugins@.len() > 0 ==> perms.contains(PluginPermission::NativeInject)
            &&& c.launcher_adapters@.len() > 0 ==> perms.contains(PluginPermission::ProcessSpawn)
            &&& c.launcher_adapters@.len() > 0 ==> perms.contains(PluginPermission::ProcessObserve)
        },
{
    let deps = dependency_entries_view(plugin.external_dependencies@);
    lemma_least_unready(deps, deps.len() as int);
    assert forall|k: int| 0 <= k < plugin.external_dependencies@.len() implies
        #[trigger] plugin.external_dependencies@[k].1.status == deps[k].1.status by {}
    if least_unready_upto(deps, deps.len() as int) is Some {
        let k = least_unready_upto(deps, deps.len() as int)->0;
        assert(plugin.external_dependencies@[k].1.status == deps[k].1.status);
    }
}

/// The package as the launcher sees it: its runtime plugin files joined onto
/// the package root, and how many launcher adapters it has.
pub open spec fn resolved_matches(r: ResolvedPlugin, p: InstalledPlugin) -> bool {
    &&& r.id@ == p.manifest.id@
    &&& r.version@ == p.manifest.version@
    &&& r.package_root@ == p.package_root@
    &&& r.runtime_plugins@.len() == p.manifest.contributions.runtime_plugins@.len()
    &&& forall|i: int| 0 <= i < r.runtime_plugins@.len() ==> join_shape(p.package_root@,
        p.manifest.contributions.runtime_plugins@[i].path@, #[trigger] r.runtime_plugins@[i]@)
    &&& r.launcher_adapter_count == p.manifest.contributions.launcher_adapters@.len()
}

/// `Path::new(base).join(rel)`, as text. Claimed: what `join_shape` says, which
/// holds on every platform (the base, at most one separator, the relative part;
/// which separator is the platform's own).
#[verifier::external_body]
pub(crate) fn join_path(base: &str, rel: &str) -> (out: String)
    ensures
        join_shape(base@, rel@, out@),
{
    std::path::Path::new(base).join(rel).to_string_lossy().into_owned()
}

impl ResolvedPlugin {
    pub fn from_installed(plugin: &InstalledPlugin) -> (r: Self)
        ensures
            resolved_matches(r, *plugin),
    {
        let runtime = &plugin.manifest.contributions.runtime_plugins;
        let mut paths: Vec<String> = Vec::new();
        let mut i: usize = 0;
        while i < runtime.len()
            invariant
                i <= runtime@.len(),
                runtime@ == plugin.manifest.contributions.runtime_plugins@,
                paths@.len() == i,
                forall|j: int| 0 <= j < i ==> join_shape(plugin.package_root@, runtime@[j].path@, #[trigger] paths@[j]@),
            decreases runtime.len() - i,
        {
            let joined = join_path(plugin.package_root.as_str(), runtime[i].path.as_str());
            let ghost before = paths@;
            paths.push(joined);
            assert forall|j: int| 0 <= j < i + 1 implies join_shape(plugin.package_root@, runtime@[j].path@, #[trigger] paths@[j]@) by {
                if j < i {
                    assert(paths@[j] == before[j]);
                }
            }
            i += 1;
        }
        ResolvedPlugin {
            id: plugin.manifest.id.clone(),
            version: plugin.manifest.version.clone(),
            package_root: plugin.package_root.clone(),
            runtime_plugins: paths,
            launcher_adapter_count: plugin.manifest.contributions.launcher_adapters.len(),
        }
    }
}

} // verus!

verus! {

/// The enabled packages among `ps[..n]`, in order.
pub open spec fn enabled_prefix(ps: Seq<InstalledPlugin>, n: int) -> Seq<InstalledPlugin>
    decreases n,
{
    if n <= 0 {
        Seq::empty()
    } else if ps[n - 1].enabled {
        enabled_prefix(ps, n - 1).push(ps[n - 1])
    } else {
        enabled_prefix(ps, n - 1)
    }
}

pub open spec fn enabled_plugins(ps: Seq<InstalledPlugin>) -> Seq<InstalledPlugin> {
    enabled_prefix(ps, ps.len() as int)
}

/// The first preflight problem among the enabled packages of `ps[..n]`.
pub open spec fn first_preflight_issue(ps: Seq<InstalledPlugin>, n: int) -> Option<LaunchErrorView>
    decreases n,
{
    if n <= 0 {
        None
    } else {
        match first_preflight_issue(ps, n - 1) {
            Some(e) => Some(e),
            None => if ps[n - 1].enabled { preflight_issue(ps[n - 1]) } else { None },
        }
    }
}

pub proof fn lemma_first_preflight_issue_stable(ps: Seq<InstalledPlugin>, n: int, m: int)
    requires
        0 <= n <= m,
        first_preflight_issue(ps, n) is Some,
    ensures
        first_preflight_issue(ps, m) == first_preflight_issue(ps, n),
    decreases m - n,
{
    if m > n {
        lemma_first_preflight_issue_stable(ps, n, m - 1);
    }
}

/// The total number of launcher adapters of the packages in `ps`.
pub open spec fn adapter_total(ps: Seq<InstalledPlugin>) -> int
    decreases ps.len(),
{
    if ps.len() == 0 {
        0
    } else {
        adapter_total(ps.drop_last()) + ps.last().manifest.contributions.launcher_adapters@.len()
    }
}

pub proof fn lemma_adapter_total_monotone(ps: Seq<InstalledPlugin>, n: int, m: int)
    requires
        0 <= n <= m <= ps.len(),
    ensures
        adapter_total(enabled_prefix(ps, n)) <= adapter_total(enabled_prefix(ps, m)),
    decreases m - n,
{
    if m > n {
        lemma_adapter_total_monotone(ps, n, m - 1);
        if ps[m - 1].enabled {
            assert(enabled_prefix(ps, m).drop_last() == enabled_prefix(ps, m - 1));
        }
    }
}

/// The plugin host config a launch uses: none when no enabled package has a
/// runtime plugin.
pub fn enabled_plugins_host_config(registry: &PluginRegistry) -> (r: Option<PluginHostConfig>)
    ensures
        match r {
            None => host_sources(registry.installed_view(), registry.installed_view().len() as int).len() == 0,
            Some(config) => {
                &&& host_sources(registry.installed_view(), registry.installed_view().len() as int).len() > 0
                &&& config.plugin_directory@ == registry.root_view()
                &&& host_plugins_fit(registry.root_view(), registry.installed_view(), config.plugins@.map_values(|s: String| s@))
            },
        },
{
    let config = registry.generate_plugin_host_config();
    if config.plugins.len() == 0 {
        None
    } else {
        Some(config)
    }
}

pub struct LaunchCoordinator<'a> {
    registry: &'a PluginRegistry,
}

impl<'a> LaunchCoordinator<'a> {
    pub closed spec fn registry_view(&self) -> PluginRegistry {
        *self.registry
    }

    pub fn new(registry: &'a PluginRegistry) -> (c: Self)
        ensures
            c.registry_view() == *registry,
    {
        LaunchCoordinator { registry }
    }

    /// Checks the request and every enabled package, and plans the launch: the
    /// session ends in `AdaptersPrepared` with the enabled packages resolved in
    /// registry order, their adapter count, and the plugin host config.
    pub fn prepare(&self, request: LaunchRequest, probe: &RequestProbe) -> (r: Result<LaunchSession, LaunchCoordinatorError>)
        requires
            adapter_total(enabled_plugins(self.registry_view().installed_view())) <= usize::MAX,
        ensures
            ({
                let ps = self.registry_view().installed_view();
                let root = self.registry_view().root_view();
                match request_issue(request, *probe) {
                    Some(e) => r matches Err(err) && err@ == e,
                    None => match first_preflight_issue(ps, ps.len() as int) {
                        Some(e) => r matches Err(err) && err@ == e,
                        None => r matches Ok(session) && {
                            let enabled = enabled_plugins(ps);
                            &&& session.phase == LaunchPhase::AdaptersPrepared
                            &&& session.failure is None
                            &&& session.plan.request == request
                            &&& session.plan.enabled_plugins@.len() == enabled.len()
                            &&& forall|k: int| 0 <= k < enabled.len()
                                ==> resolved_matches(#[trigger] session.plan.enabled_plugins@[k], enabled[k])
                            &&& session.plan.launcher_adapter_count == adapter_total(enabled)
                            &&& match session.plan.plugin_host_config {
                                None => host_sources(ps, ps.len() as int).len() == 0,
                                Some(config) => host_sources(ps, ps.len() as int).len() > 0
                                    && config.plugin_directory@ == root
                                    && host_plugins_fit(root, ps, config.plugins@.map_values(|s: String| s@)),
                            }
                        },
                    },
                }
            }),
    {
        validate_request(&request, probe)?;
        let mut session = LaunchSession {
            plan: LaunchPlan {
                request,
                enabled_plugins: Vec::new(),
                plugin_host_config: None,
                launcher_adapter_count: 0,
            },
            phase: LaunchPhase::Created,
            failure: None,
        };
        session.transition(LaunchPhase::ResolvingPlugins)?;

        let installed = self.registry.installed();
        let ghost ps = installed@;
        let mut resolved: Vec<ResolvedPlugin> = Vec::new();
        let mut count: usize = 0;
        let mut i: usize = 0;
        while i < installed.len()
            invariant
                ps == installed@,
                ps == self.registry_view().installed_view(),
                request_issue(request, *probe) is None,
                adapter_total(enabled_plugins(ps)) <= usize::MAX,
                i <= ps.len(),
                first_preflight_issue(ps, i as int) is None,
                resolved@.len() == enabled_prefix(ps, i as int).len(),
                forall|k: int| 0 <= k < resolved@.len() ==> resolved_matches(#[trigger] resolved@[k], enabled_prefix(ps, i as int)[k]),
                count == adapter_total(enabled_prefix(ps, i as int)),
            decreases installed.len() - i,
        {
            let plugin = &installed[i];
            if plugin.enabled {
                if let Err(e) = validate_plugin_preflight(plugin) {
                    proof { lemma_first_preflight_issue_stable(ps, i + 1, ps.len() as int); }
                    return Err(e);
                }
                let rp = ResolvedPlugin::from_installed(plugin);
                proof {
                    lemma_adapter_total_monotone(ps, i + 1, ps.len() as int);
                    assert(enabled_prefix(ps, i + 1).drop_last() == enabled_prefix(ps, i as int));
                }
                count = count + rp.launcher_adapter_count;
                resolved.push(rp);
            }
            i += 1;
        }
        session.plan.launcher_adapter_count = count;
        session.plan.enabled_plugins = resolved;

        session.transition(LaunchPhase::Preflight)?;
        session.plan.plugin_host_config = enabled_plugins_host_config(self.registry);
        session.transition(LaunchPhase::AdaptersPrepared)?;
        Ok(session)
    }
}

} // verus!

verus! {

// ---------------------------------------------------------------------------
// Messages

/// The name that `{:?}` prints for a phase.
pub open spec fn phase_name(p: LaunchPhase) -> Seq<char> {
    match p {
        LaunchPhase::Created => "Created"@,
        LaunchPhase::ResolvingPlugins => "ResolvingPlugins"@,
        LaunchPhase::Preflight => "Preflight"@,
        LaunchPhase::AdaptersPrepared => "AdaptersPrepared"@,
        LaunchPhase::RunStarted => "RunStarted"@,
        LaunchPhase::Observing => "Observing"@,
        LaunchPhase::CoordinatingAdapters => "CoordinatingAdapters"@,
        LaunchPhase::Running => "Running"@,
        LaunchPhase::TargetExited => "TargetExited"@,
        LaunchPhase::CleaningUp => "CleaningUp"@,
        LaunchPhase::Completed => "Completed"@,
        LaunchPhase::Failed => "Failed"@,
    }
}

pub fn phase_name_of(p: LaunchPhase) -> (s: &'static str)
    ensures
        s@ == phase_name(p),
{
    match p {
        LaunchPhase::Created => "Created",
        LaunchPhase::ResolvingPlugins => "ResolvingPlugins",
        LaunchPhase::Preflight => "Preflight",
        LaunchPhase::AdaptersPrepared => "AdaptersPrepared",
        LaunchPhase::RunStarted => "RunStarted",
        LaunchPhase::Observing => "Observing",
        LaunchPhase::CoordinatingAdapters => "CoordinatingAdapters",
        LaunchPhase::Running => "Running",
        LaunchPhase::TargetExited => "TargetExited",
        LaunchPhase::CleaningUp => "CleaningUp",
        LaunchPhase::Completed => "Completed",
        LaunchPhase::Failed => "Failed",
    }
}

/// The name that `{:?}` prints for a dependency status.
pub open spec fn status_name(s: ExternalDependencyStatus) -> Seq<char> {
    match s {
        ExternalDependencyStatus::Missing => "Missing"@,
        ExternalDependencyStatus::Invalid => "Invalid"@,
        ExternalDependencyStatus::Ready => "Ready"@,
    }
}

pub fn status_name_of(s: ExternalDependencyStatus) -> (n: &'static str)
    ensures
        n@ == status_name(s),
{
    match s {
        ExternalDependencyStatus::Missing => "Missing",
        ExternalDependencyStatus::Invalid => "Invalid",
        ExternalDependencyStatus::Ready => "Ready",
    }
}

/// The message shown for a launch error.
pub open spec fn launch_error_text(e: LaunchErrorView) -> Seq<char> {
    match e {
        LaunchErrorView::Registry(m) => "plugin registry error: "@ + m,
        LaunchErrorView::InvalidRequest(m) => "invalid launch request: "@ + m,
        LaunchErrorView::MissingExecutable { kind, path } => kind + " does not exist or is not a file: "@ + path,
        LaunchErrorView::MissingExternalDependency { plugin_id, dependency_id, status, reason } =>
            "plugin "@ + plugin_id + " dependency "@ + dependency_id + " is "@ + status_name(status) + ": "@
                + match reason { Some(r) => r, None => "no reason provided"@ },
        LaunchErrorView::MissingPermission { plugin_id, permission } =>
            "plugin "@ + plugin_id + " is missing permission "@ + crate::manifest::permission_debug_name(permission),
        LaunchErrorView::InvalidTransition { from, to } =>
            "invalid launch phase transition: "@ + phase_name(from) + " -> "@ + phase_name(to),
    }
}

impl LaunchCoordinatorError {
    /// The message shown for this error.
    pub fn message(&self) -> (s: String)
        ensures
            s@ == launch_error_text(self@),
    {
        match self {
            LaunchCoordinatorError::Registry(m) => concat2("plugin registry error: ", m.0.as_str()),
            LaunchCoordinatorError::InvalidRequest(m) => concat2("invalid launch request: ", m.as_str()),
            LaunchCoordinatorError::MissingExecutable { kind, path } => {
                crate::text::concat3(kind, " does not exist or is not a file: ", path.as_str())
            },
            LaunchCoordinatorError::MissingExternalDependency { plugin_id, dependency_id, status, reason } => {
                let a = crate::text::concat3("plugin ", plugin_id.as_str(), " dependency ");
                let b = crate::text::concat3(a.as_str(), dependency_id.as_str(), " is ");
                let c = crate::text::concat3(b.as_str(), status_name_of(*status), ": ");
                match reason {
                    Some(r) => concat2(c.as_str(), r.as_str()),
                    None => concat2(c.as_str(), "no reason provided"),
                }
            },
            LaunchCoordinatorError::MissingPermission { plugin_id, permission } => {
                let a = crate::text::concat3("plugin ", plugin_id.as_str(), " is missing permission ");
                concat2(a.as_str(), permission.debug_name())
            },
            LaunchCoordinatorError::InvalidTransition { from, to } => {
                let a = concat2("invalid launch phase transition: ", phase_name_of(*from));
                crate::text::concat3(a.as_str(), " -> ", phase_name_of(*to))
            },
        }
    }

    /// A registry error, kept as its message.
    pub fn from_registry(error: &crate::registry::PluginRegistryError) -> (e: Self)
        ensures
            e matches LaunchCoordinatorError::Registry(m) && (!(error@ is Io) ==> m.0@ == crate::registry::registry_error_text(error@)),
    {
        LaunchCoordinatorError::Registry(PluginRegistryErrorMessage(error.message()))
    }
}

} // verus!
