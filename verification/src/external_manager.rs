//! External managers: programs a plugin package ships to manage a game's mods
//! on their own. SSMT only starts them and reads the manifest they leave in the
//! game directory.
use vstd::prelude::*;
use crate::forwarder::{
    default_dir_fits, forwarder_outcome, resolve_spec, spec_result_view, ForwarderErrorView,
    ForwarderSpecView, LaunchTemplateContext, ProcessForwarderError, ProcessForwarderSpec,
};
use crate::manifest::{
    copy_manifest, copy_opt_string, manifest_error_text, manifest_same, package_path_issue,
    ExternalManagerContribution, FailurePolicy, LauncherAdapterContribution, LauncherAdapterType,
    PluginManifest,
};
use crate::registry::{join_shape, InstalledPlugin};
use crate::text::{str_eq, string_from};

verus! {

/// A parsed JSON document (carried as it is).
#[verifier::external_type_specification]
#[verifier::external_body]
pub struct ExJsonValue(serde_json::Value);

#[derive(Debug, Clone, PartialEq, Eq)]
pub struct ExternalManagerIntegration {
    pub package_root: String,
    pub manifest: PluginManifest,
    pub contribution: ExternalManagerContribution,
}

#[derive(Debug, Clone, PartialEq, Eq)]
pub struct ExternalManagerState {
    pub executable: String,
    pub executable_ready: bool,
    pub game_manifest: Option<serde_json::Value>,
    pub route: Option<String>,
    pub reason: Option<String>,
}

#[derive(Debug, Clone, PartialEq, Eq)]
pub enum ExternalManagerError {
    MissingContribution(String),
    InvalidExecutable(String),
    InvalidGameDirectory(String),
    ManifestRead(String),
    ManifestInvalid(String),
    Forwarder(ProcessForwarderError),
}

pub enum ManagerErrorView {
    MissingContribution(Seq<char>),
    InvalidExecutable(Seq<char>),
    InvalidGameDirectory(Seq<char>),
    ManifestRead(Seq<char>),
    ManifestInvalid(Seq<char>),
    Forwarder(ForwarderErrorView),
}

impl View for ExternalManagerError {
    type V = ManagerErrorView;

    open spec fn view(&self) -> ManagerErrorView {
        match self {
            ExternalManagerError::MissingContribution(s) => ManagerErrorView::MissingContribution(s@),
            ExternalManagerError::InvalidExecutable(s) => ManagerErrorView::InvalidExecutable(s@),
            ExternalManagerError::InvalidGameDirectory(s) => ManagerErrorView::InvalidGameDirectory(s@),
            ExternalManagerError::ManifestRead(s) => ManagerErrorView::ManifestRead(s@),
            ExternalManagerError::ManifestInvalid(s) => ManagerErrorView::ManifestInvalid(s@),
            ExternalManagerError::Forwarder(e) => ManagerErrorView::Forwarder(e@),
        }
    }
}

impl ExternalManagerError {
    /// The manager error that wraps a launcher error.
    pub fn from_forwarder(error: ProcessForwarderError) -> (e: Self)
        ensures
            e@ == ManagerErrorView::Forwarder(error@),
    {
        ExternalManagerError::Forwarder(error)
    }
}

/// The first external manager of `m` with the id `id`.
pub open spec fn manager_index(m: PluginManifest, id: Seq<char>) -> Option<int> {
    crate::registry::first_index_from(
        m.contributions.external_managers@.map_values(|c: ExternalManagerContribution| c.id@), id, 0)
}

fn find_manager(managers: &Vec<ExternalManagerContribution>, id: &str) -> (r: Option<usize>)
    ensures
        match r {
            Some(i) => i < managers@.len() && crate::registry::first_index_from(
                managers@.map_values(|c: ExternalManagerContribution| c.id@), id@, 0) == Some(i as int),
            None => crate::registry::first_index_from(
                managers@.map_values(|c: ExternalManagerContribution| c.id@), id@, 0) is None,
        },
{
    let ghost ids = managers@.map_values(|c: ExternalManagerContribution| c.id@);
    let mut i: usize = 0;
    while i < managers.len()
        invariant
            ids == managers@.map_values(|c: ExternalManagerContribution| c.id@),
            i <= managers@.len(),
            crate::registry::first_index_from(ids, id@, 0) == crate::registry::first_index_from(ids, id@, i as int),
        decreases managers.len() - i,
    {
        if str_eq(managers[i].id.as_str(), id) {
            return Some(i);
        }
        i += 1;
    }
    None
}

/// The adapter a manager is started with: its executable and working
/// directory, no arguments, no ready condition, aborting on failure.
pub open spec fn manager_adapter(c: ExternalManagerContribution, a: LauncherAdapterContribution) -> bool {
    &&& a.kind == LauncherAdapterType::ProcessForwarder
    &&& a.executable == c.executable
    &&& a.arguments@.len() == 0
    &&& a.working_directory == c.working_directory
    &&& a.ready is None
    &&& a.failure_policy == FailurePolicy::Abort
}

pub open spec fn manager_result_view(r: Result<ProcessForwarderSpec, ExternalManagerError>) -> Result<ForwarderSpecView, ManagerErrorView> {
    match r {
        Ok(s) => Ok(s@),
        Err(e) => Err(e@),
    }
}

pub open spec fn manager_forwarder_view(r: Result<ForwarderSpecView, ForwarderErrorView>) -> Result<ForwarderSpecView, ManagerErrorView> {
    match r {
        Ok(s) => Ok(s),
        Err(e) => Err(ManagerErrorView::Forwarder(e)),
    }
}

/// What the file system said, for an inspection of a game directory: whether
/// the manager's executable is a file, whether the game directory is a
/// directory, whether the manager's manifest is a file, and, when it is, its
/// text or the error reading it.
#[derive(Debug)]
pub struct InspectionProbe {
    pub executable_is_file: bool,
    pub game_directory_is_dir: bool,
    pub manifest_is_file: bool,
    pub manifest_text: Result<String, String>,
}

/// Whether a JSON text parses (as any JSON value).
pub uninterp spec fn json_parses(raw: Seq<char>) -> bool;

/// The top-level member `key` of a JSON text, where it is a string.
pub uninterp spec fn json_string_member(raw: Seq<char>, key: Seq<char>) -> Option<Seq<char>>;

/// The message `serde_json` gives for a text that does not parse.
pub uninterp spec fn json_error_message(raw: Seq<char>) -> Seq<char>;

/// `serde_json::from_str::<serde_json::Value>`, and the value's member `key`
/// read with `get` and `as_str`. Claimed: the text parses exactly when
/// `json_parses` says so; then the member is `json_string_member` of the text
/// and key, and otherwise the error's message is `json_error_message` of the text.
#[verifier::external_body]
pub(crate) fn parse_json_with_member(raw: &str, key: &str) -> (r: Result<(serde_json::Value, Option<String>), String>)
    ensures
        r is Ok <==> json_parses(raw@),
        r matches Ok(p) ==> crate::registry::opt_view(p.1) == json_string_member(raw@, key@),
        r matches Err(m) ==> m@ == json_error_message(raw@),
{
    match serde_json::from_str::<serde_json::Value>(raw) {
        Ok(value) => {
            let member = value.get(key).and_then(serde_json::Value::as_str).map(str::to_string);
            Ok((value, member))
        },
        Err(error) => Err(error.to_string()),
    }
}

/// The `route` a manager's manifest names.
pub open spec fn json_route(raw: Seq<char>) -> Option<Seq<char>> {
    json_string_member(raw, "route"@)
}

/// The manager's manifest inside the game directory.
pub fn manifest_path(game_directory: &str, manifest_relative_path: &str) -> (p: String)
    ensures
        join_shape(game_directory@, manifest_relative_path@, p@),
{
    crate::launch::join_path(game_directory, manifest_relative_path)
}

/// The state after an inspection, as far as the file system and the parser
/// decide it: the error, or whether the manifest is installed and the route it names.
pub open spec fn inspection_outcome(executable: Seq<char>, game_directory: Seq<char>, rel: Seq<char>, probe: InspectionProbe) -> Result<(bool, Option<Seq<char>>), ManagerErrorView> {
    if !probe.executable_is_file {
        Err(ManagerErrorView::InvalidExecutable(executable))
    } else if !probe.game_directory_is_dir {
        Err(ManagerErrorView::InvalidGameDirectory(game_directory))
    } else if package_path_issue("package"@, rel) is Some {
        Err(ManagerErrorView::ManifestInvalid(manifest_error_text(package_path_issue("package"@, rel)->0)))
    } else if !probe.manifest_is_file {
        Ok((false, None))
    } else {
        match probe.manifest_text {
            Err(msg) => Err(ManagerErrorView::ManifestRead(msg@)),
            Ok(raw) => if json_parses(raw@) {
                Ok((true, json_route(raw@)))
            } else {
                Err(ManagerErrorView::ManifestInvalid(json_error_message(raw@)))
            },
        }
    }
}

pub open spec fn inspection_matches(r: Result<ExternalManagerState, ExternalManagerError>, executable: Seq<char>, game_directory: Seq<char>, rel: Seq<char>, probe: InspectionProbe) -> bool {
    match (r, inspection_outcome(executable, game_directory, rel, probe)) {
        (Ok(s), Ok((installed, route))) => {
            &&& s.executable@ == executable
            &&& s.executable_ready
            &&& s.game_manifest is Some == installed
            &&& crate::registry::opt_view(s.route) == route
            &&& crate::registry::opt_view(s.reason) == if installed { None } else { Some("manager manifest is not installed"@) }
        },
        (Err(e), Err(v)) => e@ == v,
        _ => false,
    }
}

impl ExternalManagerIntegration {
    /// The integration for the external manager `manager_id` of an installed package.
    pub fn from_installed(plugin: &InstalledPlugin, manager_id: &str) -> (r: Result<Self, ExternalManagerError>)
        ensures
            match manager_index(plugin.manifest, manager_id@) {
                Some(k) => r matches Ok(m) && m.package_root == plugin.package_root
                    && manifest_same(m.manifest, plugin.manifest)
                    && m.contribution == plugin.manifest.contributions.external_managers@[k],
                None => r matches Err(e) && e@ == ManagerErrorView::MissingContribution(manager_id@),
            },
    {
        let managers = &plugin.manifest.contributions.external_managers;
        let k = match find_manager(managers, manager_id) {
            None => return Err(ExternalManagerError::MissingContribution(string_from(manager_id))),
            Some(k) => k,
        };
        let found = &managers[k];
        let contribution = ExternalManagerContribution {
            id: found.id.clone(),
            executable: found.executable.clone(),
            working_directory: copy_opt_string(&found.working_directory),
        };
        Ok(ExternalManagerIntegration {
            package_root: plugin.package_root.clone(),
            manifest: copy_manifest(&plugin.manifest),
            contribution,
        })
    }

    /// The command line that starts the manager, resolved for `plugin`.
    pub fn build_process_spec(&self, plugin: &InstalledPlugin, context: &LaunchTemplateContext, timeout: Option<std::time::Duration>) -> (r: Result<ProcessForwarderSpec, ExternalManagerError>)
        ensures
            exists|a: LauncherAdapterContribution, d: Option<Seq<char>>|
                manager_adapter(self.contribution, a)
                && default_dir_fits(resolve_spec(a.executable@, plugin.package_root@, *context), d)
                && #[trigger] manager_forwarder_view(forwarder_outcome(*plugin, a, *context, timeout, d)) == manager_result_view(r),
    {
        let adapter = LauncherAdapterContribution {
            kind: LauncherAdapterType::ProcessForwarder,
            executable: self.contribution.executable.clone(),
            arguments: Vec::new(),
            working_directory: copy_opt_string(&self.contribution.working_directory),
            ready: None,
            failure_policy: FailurePolicy::Abort,
        };
        let resolved = ProcessForwarderSpec::resolve(plugin, &adapter, context, timeout);
        let r = match resolved {
            Ok(spec) => Ok(spec),
            Err(e) => Err(ExternalManagerError::from_forwarder(e)),
        };
        proof {
            let d = choose|d: Option<Seq<char>>|
                default_dir_fits(resolve_spec(adapter.executable@, plugin.package_root@, *context), d)
                && #[trigger] forwarder_outcome(*plugin, adapter, *context, timeout, d) == spec_result_view(resolved);
            assert(manager_adapter(self.contribution, adapter));
            assert(manager_forwarder_view(forwarder_outcome(*plugin, adapter, *context, timeout, d)) == manager_result_view(r));
        }
        r
    }

    /// Inspects a game directory for the manager's manifest, given what the
    /// file system said (`probe`, with the manifest read from
    /// `manifest_path(game_directory, manifest_relative_path)`). The manager's
    /// own interface is never driven: only its manifest is read.
    pub fn inspect_game_directory(&self, executable: &str, game_directory: &str, manifest_relative_path: &str, probe: InspectionProbe) -> (r: Result<ExternalManagerState, ExternalManagerError>)
        ensures
            inspection_matches(r, executable@, game_directory@, manifest_relative_path@, probe),
    {
        if !probe.executable_is_file {
            return Err(ExternalManagerError::InvalidExecutable(string_from(executable)));
        }
        if !probe.game_directory_is_dir {
            return Err(ExternalManagerError::InvalidGameDirectory(string_from(game_directory)));
        }
        match crate::manifest::validate_package_relative_path(manifest_relative_path) {
            Err(e) => return Err(ExternalManagerError::ManifestInvalid(e.message())),
            Ok(()) => {},
        }
        if !probe.manifest_is_file {
            return Ok(ExternalManagerState {
                executable: string_from(executable),
                executable_ready: true,
                game_manifest: None,
                route: None,
                reason: Some(string_from("manager manifest is not installed")),
            });
        }
        let raw = match probe.manifest_text {
            Err(msg) => return Err(ExternalManagerError::ManifestRead(msg)),
            Ok(raw) => raw,
        };
        proof { reveal_strlit("route"); }
        match parse_json_with_member(raw.as_str(), "route") {
            Err(msg) => Err(ExternalManagerError::ManifestInvalid(msg)),
            Ok((value, route)) => Ok(ExternalManagerState {
                executable: string_from(executable),
                executable_ready: true,
                game_manifest: Some(value),
                route,
                reason: None,
            }),
        }
    }
}

} // verus!

verus! {

/// The message shown for an external manager error.
pub open spec fn manager_error_text(e: ManagerErrorView) -> Seq<char> {
    match e {
        ManagerErrorView::MissingContribution(id) => "external manager not found: "@ + id,
        ManagerErrorView::InvalidExecutable(p) => "external manager executable is invalid: "@ + p,
        ManagerErrorView::InvalidGameDirectory(p) => "game directory is invalid: "@ + p,
        ManagerErrorView::ManifestRead(m) => "failed to read external manager manifest: "@ + m,
        ManagerErrorView::ManifestInvalid(m) => "invalid external manager manifest: "@ + m,
        ManagerErrorView::Forwarder(f) => "external manager launch error: "@ + crate::forwarder::forwarder_error_text(f),
    }
}

impl ExternalManagerError {
    /// The message shown for this error.
    pub fn message(&self) -> (s: String)
        ensures
            s@ == manager_error_text(self@),
    {
        match self {
            ExternalManagerError::MissingContribution(id) => crate::text::concat2("external manager not found: ", id.as_str()),
            ExternalManagerError::InvalidExecutable(p) => crate::text::concat2("external manager executable is invalid: ", p.as_str()),
            ExternalManagerError::InvalidGameDirectory(p) => crate::text::concat2("game directory is invalid: ", p.as_str()),
            ExternalManagerError::ManifestRead(m) => crate::text::concat2("failed to read external manager manifest: ", m.as_str()),
            ExternalManagerError::ManifestInvalid(m) => crate::text::concat2("invalid external manager manifest: ", m.as_str()),
            ExternalManagerError::Forwarder(f) => {
                let detail = f.message();
                crate::text::concat2("external manager launch error: ", detail.as_str())
            },
        }
    }
}

} // verus!
