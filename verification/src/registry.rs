//! The set of installed plugin packages and the user's per-package settings.
//!
//! Reading the `Plugins` directory and the state file is the caller's work; the
//! registry decides what an installed package is, which dependency directories
//! are usable, which package a plugin id refers to, and what the native plugin
//! host loads.
use vstd::prelude::*;
use crate::manifest::{
    manifest_issue, ExternalDependency, ExternalDependencyType, ManifestErrorView, PluginManifest,
    PluginManifestError,
};
use crate::text::{
    chars_of, concat2, concat3, lex_lt, lemma_lex_asymmetric, lemma_lex_irreflexive,
    lemma_lex_total, lemma_lex_transitive, push_char, sort_strings, sorted_strings, str_eq, str_lt,
    string_from,
};
use crate::versions::{compare_versions, semver_order, semver_version_parses};

verus! {

#[derive(Debug, Clone, Copy, PartialEq, Eq, Structural)]
pub enum ExternalDependencyStatus {
    Missing,
    Invalid,
    Ready,
}

#[derive(Debug, Clone, PartialEq, Eq)]
pub struct ExternalDependencyState {
    pub status: ExternalDependencyStatus,
    pub path: Option<String>,
    pub reason: Option<String>,
}

pub struct ExternalDependencyStateView {
    pub status: ExternalDependencyStatus,
    pub path: Option<Seq<char>>,
    pub reason: Option<Seq<char>>,
}

pub open spec fn opt_view(s: Option<String>) -> Option<Seq<char>> {
    match s {
        Some(v) => Some(v@),
        None => None,
    }
}

impl View for ExternalDependencyState {
    type V = ExternalDependencyStateView;

    open spec fn view(&self) -> ExternalDependencyStateView {
        ExternalDependencyStateView { status: self.status, path: opt_view(self.path), reason: opt_view(self.reason) }
    }
}

impl ExternalDependencyState {
    pub fn missing(reason: String, path: Option<String>) -> (s: Self)
        ensures
            s.status == ExternalDependencyStatus::Missing,
            s.path == path,
            s.reason == Some(reason),
    {
        ExternalDependencyState { status: ExternalDependencyStatus::Missing, path, reason: Some(reason) }
    }

    pub fn invalid(reason: String, path: Option<String>) -> (s: Self)
        ensures
            s.status == ExternalDependencyStatus::Invalid,
            s.path == path,
            s.reason == Some(reason),
    {
        ExternalDependencyState { status: ExternalDependencyStatus::Invalid, path, reason: Some(reason) }
    }

    pub fn ready(path: String) -> (s: Self)
        ensures
            s.status == ExternalDependencyStatus::Ready,
            s.path == Some(path),
            s.reason is None,
    {
        ExternalDependencyState { status: ExternalDependencyStatus::Ready, path: Some(path), reason: None }
    }
}

/// What the file system said about a configured dependency directory: whether
/// it exists, whether it is a directory, and for each required file of the
/// dependency (in the manifest's order) whether it exists inside it.
#[derive(Debug, Clone, PartialEq, Eq)]
pub struct DirectoryProbe {
    pub exists: bool,
    pub is_dir: bool,
    pub required_files_present: Vec<bool>,
}

/// The first position holding `false`.
pub open spec fn first_false_from(s: Seq<bool>, from: int) -> Option<int>
    decreases s.len() - from,
{
    if from < 0 || from >= s.len() {
        None
    } else if !s[from] {
        Some(from)
    } else {
        first_false_from(s, from + 1)
    }
}

/// The state of a dependency, given the directory configured for it (if any)
/// and what the file system says about that directory.
pub open spec fn dependency_state_spec(dep: ExternalDependency, configured: Option<Seq<char>>, probe: DirectoryProbe) -> ExternalDependencyStateView {
    match configured {
        None => ExternalDependencyStateView {
            status: ExternalDependencyStatus::Missing,
            path: None,
            reason: Some("external path is not configured"@),
        },
        Some(p) => if !probe.exists {
            ExternalDependencyStateView {
                status: ExternalDependencyStatus::Missing,
                path: Some(p),
                reason: Some("configured directory does not exist"@),
            }
        } else if !probe.is_dir || dep.kind != ExternalDependencyType::Directory {
            ExternalDependencyStateView {
                status: ExternalDependencyStatus::Invalid,
                path: Some(p),
                reason: Some("configured path is not a directory"@),
            }
        } else {
            match first_false_from(probe.required_files_present@, 0) {
                Some(i) => ExternalDependencyStateView {
                    status: ExternalDependencyStatus::Invalid,
                    path: Some(p),
                    reason: Some("missing required file: "@ + dep.required_files@[i]@),
                },
                None => ExternalDependencyStateView {
                    status: ExternalDependencyStatus::Ready,
                    path: Some(p),
                    reason: None,
                },
            }
        },
    }
}

pub fn evaluate_dependency(dependency: &ExternalDependency, configured_path: Option<String>, probe: &DirectoryProbe) -> (s: ExternalDependencyState)
    requires
        configured_path is Some ==> probe.required_files_present@.len() == dependency.required_files@.len(),
    ensures
        s@ == dependency_state_spec(*dependency, opt_view(configured_path), *probe),
{
    let path = match configured_path {
        None => return ExternalDependencyState::missing(string_from("external path is not configured"), None),
        Some(path) => path,
    };
    if !probe.exists {
        return ExternalDependencyState::missing(string_from("configured directory does not exist"), Some(path));
    }
    let is_directory_kind = match dependency.kind {
        ExternalDependencyType::Directory => true,
    };
    if !probe.is_dir || !is_directory_kind {
        return ExternalDependencyState::invalid(string_from("configured path is not a directory"), Some(path));
    }
    let mut i: usize = 0;
    while i < probe.required_files_present.len()
        invariant
            probe.required_files_present@.len() == dependency.required_files@.len(),
            configured_path == Some(path),
            probe.exists,
            probe.is_dir,
            dependency.kind == ExternalDependencyType::Directory,
            i <= probe.required_files_present@.len(),
            first_false_from(probe.required_files_present@, 0) == first_false_from(probe.required_files_present@, i as int),
        decreases probe.required_files_present.len() - i,
    {
        if !probe.required_files_present[i] {
            let reason = concat2("missing required file: ", dependency.required_files[i].as_str());
            return ExternalDependencyState::invalid(reason, Some(path));
        }
        i += 1;
    }
    ExternalDependencyState::ready(path)
}

// ---------------------------------------------------------------------------
// Keyed lists (the registry's maps): the first entry with a key is the one that counts.

pub open spec fn keys_of<V>(entries: Seq<(String, V)>) -> Seq<Seq<char>> {
    entries.map_values(|e: (String, V)| e.0@)
}

pub open spec fn view_keys<V>(entries: Seq<(Seq<char>, V)>) -> Seq<Seq<char>> {
    entries.map_values(|e: (Seq<char>, V)| e.0)
}

/// The first position at or after `from` that holds `key`.
pub open spec fn first_index_from(keys: Seq<Seq<char>>, key: Seq<char>, from: int) -> Option<int>
    decreases keys.len() - from,
{
    if from < 0 || from >= keys.len() {
        None
    } else if keys[from] == key {
        Some(from)
    } else {
        first_index_from(keys, key, from + 1)
    }
}

pub proof fn lemma_first_index_from(keys: Seq<Seq<char>>, key: Seq<char>, from: int)
    requires
        0 <= from,
    ensures
        match first_index_from(keys, key, from) {
            Some(i) => from <= i < keys.len() && keys[i] == key
                && forall|k: int| from <= k < i ==> #[trigger] keys[k] != key,
            None => forall|k: int| from <= k < keys.len() ==> #[trigger] keys[k] != key,
        },
    decreases keys.len() - from,
{
    if from < keys.len() && keys[from] != key {
        lemma_first_index_from(keys, key, from + 1);
    }
}

pub fn find_key<V>(entries: &Vec<(String, V)>, key: &str) -> (r: Option<usize>)
    ensures
        match r {
            Some(i) => first_index_from(keys_of(entries@), key@, 0) == Some(i as int),
            None => first_index_from(keys_of(entries@), key@, 0) is None,
        },
{
    let mut i: usize = 0;
    while i < entries.len()
        invariant
            i <= entries@.len(),
            first_index_from(keys_of(entries@), key@, 0) == first_index_from(keys_of(entries@), key@, i as int),
        decreases entries.len() - i,
    {
        if str_eq(entries[i].0.as_str(), key) {
            return Some(i);
        }
        i += 1;
    }
    None
}

// ---------------------------------------------------------------------------
// Registry state (what `registry-state.json` holds)

#[derive(Debug, Clone, PartialEq, Eq)]
pub struct PluginSettings {
    pub enabled: bool,
    /// Dependency id and configured directory, one entry per dependency.
    pub external_paths: Vec<(String, String)>,
}

#[derive(Debug, Clone, PartialEq, Eq)]
pub struct RegistryState {
    /// Package key (`id@version`) and its settings, one entry per package.
    pub plugins: Vec<(String, PluginSettings)>,
}

impl RegistryState {
    /// No package has settings yet.
    pub fn empty() -> (s: Self)
        ensures
            s.plugins@.len() == 0,
    {
        RegistryState { plugins: Vec::new() }
    }
}

pub open spec fn package_key_spec(id: Seq<char>, version: Seq<char>) -> Seq<char> {
    id + "@"@ + version
}

pub fn package_key(id: &str, version: &str) -> (k: String)
    ensures
        k@ == package_key_spec(id@, version@),
{
    concat3(id, "@", version)
}

/// Whether the package with this key is enabled (packages without settings are not).
pub open spec fn settings_enabled(state: RegistryState, key: Seq<char>) -> bool {
    match first_index_from(keys_of(state.plugins@), key, 0) {
        Some(i) => state.plugins@[i].1.enabled,
        None => false,
    }
}

/// The directory configured for a dependency of the package with this key.
pub open spec fn configured_path_spec(state: RegistryState, key: Seq<char>, dependency_id: Seq<char>) -> Option<Seq<char>> {
    match first_index_from(keys_of(state.plugins@), key, 0) {
        Some(i) => match first_index_from(keys_of(state.plugins@[i].1.external_paths@), dependency_id, 0) {
            Some(j) => Some(state.plugins@[i].1.external_paths@[j].1@),
            None => None,
        },
        None => None,
    }
}

// ---------------------------------------------------------------------------
// Installed packages

#[derive(Debug, Clone, PartialEq, Eq)]
pub struct InstalledPlugin {
    pub manifest: PluginManifest,
    pub package_root: String,
    pub enabled: bool,
    /// Dependency id and its state, in ascending order of the id.
    pub external_dependencies: Vec<(String, ExternalDependencyState)>,
}

pub open spec fn dependency_entries_view(v: Seq<(String, ExternalDependencyState)>) -> Seq<(Seq<char>, ExternalDependencyStateView)> {
    v.map_values(|e: (String, ExternalDependencyState)| (e.0@, e.1@))
}

impl InstalledPlugin {
    pub fn id(&self) -> (s: &str)
        ensures
            s@ == self.manifest.id@,
    {
        self.manifest.id.as_str()
    }

    pub fn version(&self) -> (s: &str)
        ensures
            s@ == self.manifest.version@,
    {
        self.manifest.version.as_str()
    }
}

pub open spec fn installed_key(p: InstalledPlugin) -> Seq<char> {
    package_key_spec(p.manifest.id@, p.manifest.version@)
}

/// Keys in strictly ascending order (so each key once).
pub open spec fn keys_ascending<V>(v: Seq<(Seq<char>, V)>) -> bool {
    forall|i: int, j: int| 0 <= i < j < v.len() ==> lex_lt(#[trigger] v[i].0, #[trigger] v[j].0)
}

/// Adds `(key, value)` to a list kept in strictly ascending key order; `key` is not in it yet.
fn insert_by_key(v: &mut Vec<(String, ExternalDependencyState)>, key: String, value: ExternalDependencyState)
    requires
        keys_ascending(dependency_entries_view(old(v)@)),
        forall|i: int| 0 <= i < old(v)@.len() ==> #[trigger] old(v)@[i].0@ != key@,
    ensures
        keys_ascending(dependency_entries_view(final(v)@)),
        final(v)@.len() == old(v)@.len() + 1,
        dependency_entries_view(final(v)@).to_multiset() == dependency_entries_view(old(v)@).to_multiset().insert((key@, value@)),
{
    let ghost old_view = dependency_entries_view(v@);
    let mut p: usize = 0;
    while p < v.len() && str_lt(v[p].0.as_str(), key.as_str())
        invariant
            old_view == dependency_entries_view(v@),
            p <= v@.len(),
            forall|k: int| 0 <= k < p ==> lex_lt(#[trigger] v@[k].0@, key@),
        decreases v.len() - p,
    {
        p += 1;
    }
    let ghost kv = key@;
    let ghost vv = value@;
    v.insert(p, (key, value));
    proof {
        let m = dependency_entries_view(v@);
        assert(m =~= old_view.insert(p as int, (kv, vv)));
        assert forall|i: int, j: int| 0 <= i < j < m.len() implies lex_lt(#[trigger] m[i].0, #[trigger] m[j].0) by {
            if i < p && j == p {
            } else if i == p && j > p {
                // key is not below old[p] and differs from it, so it is below it,
                // and old[p] is at most old[j - 1].
                lemma_lex_total(old_view[p as int].0, kv);
                assert(old_view[p as int].0 != kv);
                if j - 1 > p {
                    assert(lex_lt(old_view[p as int].0, old_view[j - 1].0));
                    lemma_lex_transitive(kv, old_view[p as int].0, old_view[j - 1].0);
                }
            } else if i < p && j > p {
                assert(lex_lt(old_view[i].0, old_view[j - 1].0));
            } else if i > p {
                assert(lex_lt(old_view[i - 1].0, old_view[j - 1].0));
            } else {
                assert(lex_lt(old_view[i].0, old_view[j].0));
            }
        }
        vstd::seq_lib::to_multiset_insert(old_view, p as int, (kv, vv));
    }
}

/// The dependency states of a package, given the dependencies (ids distinct),
/// the directory configured for each and the probe of each.
pub open spec fn dependency_states_spec(deps: Seq<ExternalDependency>, configured: Seq<Option<Seq<char>>>, probes: Seq<DirectoryProbe>) -> Seq<(Seq<char>, ExternalDependencyStateView)> {
    Seq::new(deps.len(), |i: int| (deps[i].id@, dependency_state_spec(deps[i], configured[i], probes[i])))
}

// ---------------------------------------------------------------------------
// Errors

#[derive(Debug)]
pub enum PluginRegistryError {
    Io(std::io::Error),
    Manifest(PluginManifestError),
    State(String),
    InvalidPackage(String),
    PackageAlreadyInstalled { id: String, version: String },
    PluginNotFound(String),
    DependencyNotFound { plugin_id: String, dependency_id: String },
}

pub enum RegistryErrorView {
    Io,
    Manifest(ManifestErrorView),
    State(Seq<char>),
    InvalidPackage(Seq<char>),
    PackageAlreadyInstalled { id: Seq<char>, version: Seq<char> },
    PluginNotFound(Seq<char>),
    DependencyNotFound { plugin_id: Seq<char>, dependency_id: Seq<char> },
}

impl View for PluginRegistryError {
    type V = RegistryErrorView;

    open spec fn view(&self) -> RegistryErrorView {
        match self {
            PluginRegistryError::Io(_) => RegistryErrorView::Io,
            PluginRegistryError::Manifest(e) => RegistryErrorView::Manifest(e@),
            PluginRegistryError::State(s) => RegistryErrorView::State(s@),
            PluginRegistryError::InvalidPackage(s) => RegistryErrorView::InvalidPackage(s@),
            PluginRegistryError::PackageAlreadyInstalled { id, version } => RegistryErrorView::PackageAlreadyInstalled { id: id@, version: version@ },
            PluginRegistryError::PluginNotFound(s) => RegistryErrorView::PluginNotFound(s@),
            PluginRegistryError::DependencyNotFound { plugin_id, dependency_id } => RegistryErrorView::DependencyNotFound { plugin_id: plugin_id@, dependency_id: dependency_id@ },
        }
    }
}

impl PluginRegistryError {
    pub fn from_manifest(error: PluginManifestError) -> (e: Self)
        ensures
            e@ == RegistryErrorView::Manifest(error@),
    {
        PluginRegistryError::Manifest(error)
    }
}

} // verus!

verus! {

// ---------------------------------------------------------------------------
// The registry

pub struct SettingsView {
    pub enabled: bool,
    pub external_paths: Seq<(Seq<char>, Seq<char>)>,
}

pub open spec fn settings_view(s: PluginSettings) -> SettingsView {
    SettingsView {
        enabled: s.enabled,
        external_paths: s.external_paths@.map_values(|e: (String, String)| (e.0@, e.1@)),
    }
}

/// The state's entries with their text taken as character sequences.
pub open spec fn state_entries(state: RegistryState) -> Seq<(Seq<char>, SettingsView)> {
    state.plugins@.map_values(|e: (String, PluginSettings)| (e.0@, settings_view(e.1)))
}

pub struct PluginRegistry {
    plugins_root: String,
    state: RegistryState,
    installed: Vec<InstalledPlugin>,
}

/// Why a discovered package cannot be admitted, if it cannot.
pub open spec fn admit_issue(
    directory_id: Option<Seq<char>>,
    directory_version: Option<Seq<char>>,
    package_root: Seq<char>,
    manifest: PluginManifest,
) -> Option<RegistryErrorView> {
    if manifest_issue(manifest) is Some {
        Some(RegistryErrorView::Manifest(manifest_issue(manifest)->0))
    } else if directory_id is None {
        Some(RegistryErrorView::InvalidPackage("invalid plugin directory name"@))
    } else if directory_version is None {
        Some(RegistryErrorView::InvalidPackage("invalid plugin version directory name"@))
    } else if directory_id->0 != manifest.id@ || directory_version->0 != manifest.version@ {
        Some(RegistryErrorView::InvalidPackage("directory does not match manifest: "@ + package_root))
    } else {
        None
    }
}

impl PluginRegistry {
    /// Installed manifests passed validation, so their versions parse.
    #[verifier::type_invariant]
    spec fn well_formed(self) -> bool {
        forall|i: int| 0 <= i < self.installed@.len() ==> #[trigger] manifest_issue(self.installed@[i].manifest) is None
    }

    pub closed spec fn installed_view(&self) -> Seq<InstalledPlugin> {
        self.installed@
    }

    pub closed spec fn root_view(&self) -> Seq<char> {
        self.plugins_root@
    }

    pub closed spec fn state_view(&self) -> RegistryState {
        self.state
    }

    /// A registry for the `Plugins` directory at `plugins_root` with the
    /// settings read from its state file; nothing is installed until packages
    /// are admitted.
    pub fn new(plugins_root: String, state: RegistryState) -> (r: Self)
        ensures
            r.installed_view().len() == 0,
            r.root_view() == plugins_root@,
            r.state_view() == state,
    {
        PluginRegistry { plugins_root, state, installed: Vec::new() }
    }

    pub fn plugins_root(&self) -> (r: &str)
        ensures
            r@ == self.root_view(),
    {
        self.plugins_root.as_str()
    }

    pub fn installed(&self) -> (r: &[InstalledPlugin])
        ensures
            r@ == self.installed_view(),
    {
        self.installed.as_slice()
    }

    pub fn state(&self) -> (r: &RegistryState)
        ensures
            *r == self.state_view(),
    {
        &self.state
    }

    /// Starts a new scan of the packages: forgets what was installed.
    pub fn begin_refresh(&mut self)
        ensures
            final(self).installed_view().len() == 0,
            final(self).root_view() == old(self).root_view(),
            final(self).state_view() == old(self).state_view(),
    {
        self.installed = Vec::new();
    }

    /// The directory configured for dependency `dependency_id` of package `id@version`.
    pub fn configured_path(&self, id: &str, version: &str, dependency_id: &str) -> (r: Option<String>)
        ensures
            opt_view(r) == configured_path_spec(self.state_view(), package_key_spec(id@, version@), dependency_id@),
    {
        let key = package_key(id, version);
        proof { lemma_first_index_from(keys_of(self.state.plugins@), key@, 0); }
        match find_key(&self.state.plugins, key.as_str()) {
            None => None,
            Some(i) => {
                proof { lemma_first_index_from(keys_of(self.state.plugins@[i as int].1.external_paths@), dependency_id@, 0); }
                match find_key(&self.state.plugins[i].1.external_paths, dependency_id) {
                    None => None,
                    Some(j) => Some(self.state.plugins[i].1.external_paths[j].1.clone()),
                }
            },
        }
    }

    /// Whether package `id@version` is enabled in the settings.
    pub fn enabled_in_settings(&self, id: &str, version: &str) -> (r: bool)
        ensures
            r == settings_enabled(self.state_view(), package_key_spec(id@, version@)),
    {
        let key = package_key(id, version);
        proof { lemma_first_index_from(keys_of(self.state.plugins@), key@, 0); }
        match find_key(&self.state.plugins, key.as_str()) {
            None => false,
            Some(i) => self.state.plugins[i].1.enabled,
        }
    }

    /// Adds a package found under `<plugins root>/<directory_id>/<directory_version>`
    /// (`None` for a directory name that is not valid Unicode) whose manifest was
    /// read and parsed, with a probe of the configured directory of each of its
    /// dependencies (in the manifest's order). The manifest must validate and
    /// name the directories it lives in; then the package is installed, enabled
    /// as its settings say, with each dependency's state evaluated.
    pub fn admit_package(
        &mut self,
        directory_id: Option<String>,
        directory_version: Option<String>,
        package_root: String,
        manifest: PluginManifest,
        probes: Vec<DirectoryProbe>,
    ) -> (r: Result<(), PluginRegistryError>)
        requires
            probes@.len() == manifest.external_dependencies@.len(),
            forall|i: int| 0 <= i < probes@.len() ==> (#[trigger] probes@[i]).required_files_present@.len()
                == manifest.external_dependencies@[i].required_files@.len(),
        ensures
            final(self).root_view() == old(self).root_view(),
            final(self).state_view() == old(self).state_view(),
            match admit_issue(opt_view(directory_id), opt_view(directory_version), package_root@, manifest) {
                Some(e) => r matches Err(err) && err@ == e && final(self).installed_view() == old(self).installed_view(),
                None => {
                    let key = package_key_spec(manifest.id@, manifest.version@);
                    let deps = manifest.external_dependencies@;
                    let added = final(self).installed_view().last();
                    &&& r is Ok
                    &&& final(self).installed_view().len() == old(self).installed_view().len() + 1
                    &&& final(self).installed_view().drop_last() == old(self).installed_view()
                    &&& added.manifest == manifest
                    &&& added.package_root == package_root
                    &&& added.enabled == settings_enabled(old(self).state_view(), key)
                    &&& keys_ascending(dependency_entries_view(added.external_dependencies@))
                    &&& dependency_entries_view(added.external_dependencies@).to_multiset()
                        == dependency_states_spec(deps,
                            Seq::new(deps.len(), |i: int| configured_path_spec(old(self).state_view(), key, deps[i].id@)),
                            probes@).to_multiset()
                },
            },
    {
        if let Err(e) = manifest.validate() {
            return Err(PluginRegistryError::from_manifest(e));
        }
        let directory_id = match directory_id {
            None => return Err(PluginRegistryError::InvalidPackage(string_from("invalid plugin directory name"))),
            Some(d) => d,
        };
        let directory_version = match directory_version {
            None => return Err(PluginRegistryError::InvalidPackage(string_from("invalid plugin version directory name"))),
            Some(d) => d,
        };
        if !str_eq(directory_id.as_str(), manifest.id.as_str()) || !str_eq(directory_version.as_str(), manifest.version.as_str()) {
            return Err(PluginRegistryError::InvalidPackage(concat2("directory does not match manifest: ", package_root.as_str())));
        }
        let enabled = self.enabled_in_settings(manifest.id.as_str(), manifest.version.as_str());
        let deps = manifest.external_dependencies.as_slice();
        let ghost key = package_key_spec(manifest.id@, manifest.version@);
        let ghost configured = Seq::new(deps@.len(), |i: int| configured_path_spec(self.state_view(), key, deps@[i].id@));
        let ghost expected = dependency_states_spec(deps@, configured, probes@);
        proof {
            // Dependency ids are distinct: the manifest validated.
            assert forall|a: int, b: int| 0 <= a < b < deps@.len() implies #[trigger] deps@[a].id@ != #[trigger] deps@[b].id@ by {
                crate::manifest::lemma_first_issue_none(deps@.len() as int, crate::manifest::external_dependency_items(deps@), b);
            }
        }
        let mut states: Vec<(String, ExternalDependencyState)> = Vec::new();
        proof {
            broadcast use vstd::seq_lib::group_to_multiset_ensures, vstd::multiset::group_multiset_axioms;
            assert(dependency_entries_view(states@) =~= Seq::<(Seq<char>, ExternalDependencyStateView)>::empty());
            assert(expected.take(0) =~= Seq::<(Seq<char>, ExternalDependencyStateView)>::empty());
        }
        let mut i: usize = 0;
        while i < deps.len()
            invariant
                deps@ == manifest.external_dependencies@,
                probes@.len() == deps@.len(),
                forall|k: int| 0 <= k < probes@.len() ==> (#[trigger] probes@[k]).required_files_present@.len()
                    == deps@[k].required_files@.len(),
                forall|a: int, b: int| 0 <= a < b < deps@.len() ==> #[trigger] deps@[a].id@ != #[trigger] deps@[b].id@,
                key == package_key_spec(manifest.id@, manifest.version@),
                configured == Seq::new(deps@.len(), |k: int| configured_path_spec(self.state_view(), key, deps@[k].id@)),
                expected == dependency_states_spec(deps@, configured, probes@),
                i <= deps@.len(),
                keys_ascending(dependency_entries_view(states@)),
                dependency_entries_view(states@).to_multiset() == expected.take(i as int).to_multiset(),
                dependency_entries_view(states@).len() == i,
                forall|k: int| 0 <= k < states@.len() ==> exists|m: int| 0 <= m < i && #[trigger] states@[k].0@ == deps@[m].id@,
            decreases deps.len() - i,
        {
            let dependency = &deps[i];
            let configured_path = self.configured_path(manifest.id.as_str(), manifest.version.as_str(), dependency.id.as_str());
            let state = evaluate_dependency(dependency, configured_path, &probes[i]);
            proof {
                assert forall|k: int| 0 <= k < states@.len() implies #[trigger] states@[k].0@ != deps@[i as int].id@ by {
                    let m = choose|m: int| 0 <= m < i && #[trigger] states@[k].0@ == deps@[m].id@;
                    assert(deps@[m].id@ != deps@[i as int].id@);
                }
                assert(expected[i as int] == (deps@[i as int].id@, state@));
                assert(expected.take(i + 1) =~= expected.take(i as int).push(expected[i as int]));
                vstd::seq_lib::to_multiset_build(expected.take(i as int), expected[i as int]);
            }
            let ghost old_states = states@;
            insert_by_key(&mut states, dependency.id.clone(), state);
            proof {
                broadcast use vstd::seq_lib::group_to_multiset_ensures;
                assert(dependency_entries_view(states@).len() == i + 1);
                assert forall|k: int| 0 <= k < states@.len() implies exists|m: int| 0 <= m < i + 1 && #[trigger] states@[k].0@ == deps@[m].id@ by {
                    let entry = dependency_entries_view(states@)[k];
                    assert(dependency_entries_view(states@).to_multiset().count(entry) > 0);
                    if entry == (deps@[i as int].id@, state@) {
                        assert(states@[k].0@ == deps@[i as int].id@);
                    } else {
                        assert(dependency_entries_view(old_states).to_multiset().count(entry) > 0);
                        let k2 = choose|k2: int| 0 <= k2 < old_states.len() && dependency_entries_view(old_states)[k2] == entry;
                        assert(old_states[k2].0@ == entry.0);
                        let m = choose|m: int| 0 <= m < i && #[trigger] old_states[k2].0@ == deps@[m].id@;
                        assert(states@[k].0@ == deps@[m].id@);
                    }
                }
            }
            i += 1;
        }
        proof {
            assert(expected.take(deps@.len() as int) =~= expected);
            use_type_invariant(&*self);
        }
        let mut list: Vec<InstalledPlugin> = Vec::new();
        std::mem::swap(&mut list, &mut self.installed);
        list.push(InstalledPlugin { manifest, package_root, enabled, external_dependencies: states });
        self.installed = list;
        Ok(())
    }
}

} // verus!

verus! {

/// Among the installed packages `ps[..n]` with plugin id `id`, the one `find`
/// returns: scanning in order, a later package replaces the current pick
/// unless the pick's version is greater (so the last of the highest versions).
pub open spec fn latest_index(ps: Seq<InstalledPlugin>, id: Seq<char>, n: int) -> Option<int>
    decreases n,
{
    if n <= 0 {
        None
    } else {
        let prev = latest_index(ps, id, n - 1);
        if ps[n - 1].manifest.id@ != id {
            prev
        } else {
            match prev {
                None => Some(n - 1),
                Some(m) => if semver_order(ps[m].manifest.version@, ps[n - 1].manifest.version@) == 1 {
                    Some(m)
                } else {
                    Some(n - 1)
                },
            }
        }
    }
}

pub proof fn lemma_latest_index(ps: Seq<InstalledPlugin>, id: Seq<char>, n: int)
    requires
        0 <= n <= ps.len(),
    ensures
        match latest_index(ps, id, n) {
            Some(i) => 0 <= i < n && ps[i].manifest.id@ == id,
            None => forall|k: int| 0 <= k < n ==> #[trigger] ps[k].manifest.id@ != id,
        },
    decreases n,
{
    if n > 0 {
        lemma_latest_index(ps, id, n - 1);
    }
}

/// The first installed package with this id and version.
pub open spec fn package_index(ps: Seq<InstalledPlugin>, id: Seq<char>, version: Seq<char>) -> Option<int> {
    if exists|k: int| 0 <= k < ps.len() && #[trigger] ps[k].manifest.id@ == id && ps[k].manifest.version@ == version {
        Some(choose|k: int| 0 <= k < ps.len() && #[trigger] ps[k].manifest.id@ == id && ps[k].manifest.version@ == version
            && forall|m: int| 0 <= m < k ==> !(#[trigger] ps[m].manifest.id@ == id && ps[m].manifest.version@ == version))
    } else {
        None
    }
}

/// The settings entries after setting `enabled` for the package `key`
/// (an entry with default settings is added when there is none).
pub open spec fn with_enabled(entries: Seq<(Seq<char>, SettingsView)>, key: Seq<char>, enabled: bool) -> Seq<(Seq<char>, SettingsView)> {
    match first_index_from(view_keys(entries), key, 0) {
        Some(i) => entries.update(i, (entries[i].0, SettingsView { enabled, external_paths: entries[i].1.external_paths })),
        None => entries.push((key, SettingsView { enabled, external_paths: Seq::empty() })),
    }
}

pub open spec fn with_path(paths: Seq<(Seq<char>, Seq<char>)>, dependency_id: Seq<char>, path: Seq<char>) -> Seq<(Seq<char>, Seq<char>)> {
    match first_index_from(view_keys(paths), dependency_id, 0) {
        Some(j) => paths.update(j, (paths[j].0, path)),
        None => paths.push((dependency_id, path)),
    }
}

/// The settings entries after configuring `path` for a dependency of package `key`.
pub open spec fn with_external_path(entries: Seq<(Seq<char>, SettingsView)>, key: Seq<char>, dependency_id: Seq<char>, path: Seq<char>) -> Seq<(Seq<char>, SettingsView)> {
    match first_index_from(view_keys(entries), key, 0) {
        Some(i) => entries.update(i, (entries[i].0, SettingsView {
            enabled: entries[i].1.enabled,
            external_paths: with_path(entries[i].1.external_paths, dependency_id, path),
        })),
        None => entries.push((key, SettingsView { enabled: false, external_paths: seq![(dependency_id, path)] })),
    }
}

/// No key occurs twice, as in the map the entries stand for.
pub open spec fn keys_unique<V>(entries: Seq<(Seq<char>, V)>) -> bool {
    forall|i: int, j: int| 0 <= i < j < entries.len() ==> #[trigger] entries[i].0 != #[trigger] entries[j].0
}

/// The registry's settings are a map of maps: no package key twice, and in
/// each package's settings no dependency id twice.
pub open spec fn settings_keys_unique(entries: Seq<(Seq<char>, SettingsView)>) -> bool {
    &&& keys_unique(entries)
    &&& forall|i: int| 0 <= i < entries.len() ==> keys_unique(#[trigger] entries[i].1.external_paths)
}

proof fn lemma_keyed_update<V>(entries: Seq<(Seq<char>, V)>, key: Seq<char>, value: V)
    requires
        keys_unique(entries),
    ensures
        ({
            let r = match first_index_from(view_keys(entries), key, 0) {
                Some(i) => entries.update(i, (entries[i].0, value)),
                None => entries.push((key, value)),
            };
            keys_unique(r)
        }),
{
    lemma_first_index_from(view_keys(entries), key, 0);
    match first_index_from(view_keys(entries), key, 0) {
        Some(i) => {
            let r = entries.update(i, (entries[i].0, value));
            assert forall|a: int, b: int| 0 <= a < b < r.len() implies #[trigger] r[a].0 != #[trigger] r[b].0 by {
                assert(r[a].0 == entries[a].0 && r[b].0 == entries[b].0);
            }
        },
        None => {
            let r = entries.push((key, value));
            assert forall|a: int, b: int| 0 <= a < b < r.len() implies #[trigger] r[a].0 != #[trigger] r[b].0 by {
                if b < entries.len() {
                    assert(r[a] == entries[a] && r[b] == entries[b]);
                } else {
                    assert(r[a] == entries[a]);
                    assert(view_keys(entries)[a] == entries[a].0);
                }
            }
        },
    }
}

/// Enabling or disabling a package, and configuring a dependency's directory,
/// keep the settings a map of maps: where no key occurred twice before, none
/// occurs twice after.
pub proof fn law_settings_updates_keep_keys_unique(
    entries: Seq<(Seq<char>, SettingsView)>,
    key: Seq<char>,
    enabled: bool,
    dependency_id: Seq<char>,
    path: Seq<char>,
)
    requires
        settings_keys_unique(entries),
    ensures
        settings_keys_unique(with_enabled(entries, key, enabled)),
        settings_keys_unique(with_external_path(entries, key, dependency_id, path)),
{
    lemma_first_index_from(view_keys(entries), key, 0);
    match first_index_from(view_keys(entries), key, 0) {
        Some(i) => {
            let v1 = SettingsView { enabled, external_paths: entries[i].1.external_paths };
            lemma_keyed_update(entries, key, v1);
            let r1 = with_enabled(entries, key, enabled);
            assert forall|k: int| 0 <= k < r1.len() implies keys_unique(#[trigger] r1[k].1.external_paths) by {
                assert(r1[k].1.external_paths == entries[k].1.external_paths);
            }
            let paths = entries[i].1.external_paths;
            lemma_keyed_update(paths, dependency_id, path);
            assert(keys_unique(with_path(paths, dependency_id, path)));
            let v2 = SettingsView { enabled: entries[i].1.enabled, external_paths: with_path(paths, dependency_id, path) };
            lemma_keyed_update(entries, key, v2);
            let r2 = with_external_path(entries, key, dependency_id, path);
            assert forall|k: int| 0 <= k < r2.len() implies keys_unique(#[trigger] r2[k].1.external_paths) by {
                if k != i {
                    assert(r2[k] == entries[k]);
                }
            }
        },
        None => {
            let v1 = SettingsView { enabled, external_paths: Seq::empty() };
            lemma_keyed_update(entries, key, v1);
            let r1 = with_enabled(entries, key, enabled);
            assert forall|k: int| 0 <= k < r1.len() implies keys_unique(#[trigger] r1[k].1.external_paths) by {
                if k < entries.len() {
                    assert(r1[k] == entries[k]);
                }
            }
            let v2 = SettingsView { enabled: false, external_paths: seq![(dependency_id, path)] };
            lemma_keyed_update(entries, key, v2);
            let r2 = with_external_path(entries, key, dependency_id, path);
            assert forall|k: int| 0 <= k < r2.len() implies keys_unique(#[trigger] r2[k].1.external_paths) by {
                if k < entries.len() {
                    assert(r2[k] == entries[k]);
                }
            }
        },
    }
}

/// The installed packages after the package `key` was enabled or disabled.
pub open spec fn installed_with_enabled(ps: Seq<InstalledPlugin>, key: Seq<char>, enabled: bool) -> Seq<InstalledPlugin> {
    ps.map_values(|p: InstalledPlugin| if installed_key(p) == key { InstalledPlugin { enabled, ..p } } else { p })
}

// ---------------------------------------------------------------------------
// Joining paths

/// A base path without a network, device or verbatim prefix (those start with
/// two separators on Windows).
pub open spec fn plain_join_base(base: Seq<char>) -> bool {
    !(base.len() >= 2 && crate::manifest::is_separator(base[0]) && crate::manifest::is_separator(base[1]))
}

/// A relative part with neither a drive (`:`) nor a leading separator.
pub open spec fn plain_join_part(rel: Seq<char>) -> bool {
    &&& forall|i: int| 0 <= i < rel.len() ==> #[trigger] rel[i] != ':'
    &&& (rel.len() == 0 || !crate::manifest::is_separator(rel[0]))
}

/// What `Path::join(base, rel)` gives on every platform, for a plain base and
/// relative part: `base`, then at most one separator (`/` or `\`, the
/// platform's own), then `rel`. No separator follows an empty base or one
/// ending in `/`; one always follows a base ending in anything but a separator
/// or `:`. (After `\` or `:` it depends on the platform.)
pub open spec fn join_shape(base: Seq<char>, rel: Seq<char>, out: Seq<char>) -> bool {
    plain_join_base(base) && plain_join_part(rel) ==> {
        &&& base.len() + rel.len() <= out.len() <= base.len() + rel.len() + 1
        &&& out.take(base.len() as int) == base
        &&& out.skip(out.len() - rel.len()) == rel
        &&& out.len() == base.len() + rel.len() + 1 ==> crate::manifest::is_separator(out[base.len() as int])
        &&& (base.len() == 0 || base.last() == '/') ==> out.len() == base.len() + rel.len()
        &&& (base.len() > 0 && !crate::manifest::is_separator(base.last()) && base.last() != ':')
            ==> out.len() == base.len() + rel.len() + 1
    }
}

// Path text as the plugin host sees it: `\` read as `/`.

/// What a path must start with to lie below `root` (both with `/` separators).
pub open spec fn root_prefix(root: Seq<char>) -> Seq<char> {
    if root.len() > 0 && root.last() == '/' { root } else { root + seq!['/'] }
}

/// The path of a runtime plugin file as listed in the plugin host config, from
/// the file's full path: relative to the plugins root when it lies below it,
/// otherwise in full, with `/` separators.
pub open spec fn host_path(root: Seq<char>, full_path: Seq<char>) -> Seq<char> {
    let full = crate::manifest::normalize_separators(full_path);
    let prefix = root_prefix(crate::manifest::normalize_separators(root));
    if crate::text::starts_with(full, prefix) { full.skip(prefix.len() as int) } else { full }
}

/// A host config entry for runtime plugin `rel` of the package at `package_root`:
/// `host_path` of the two joined.
pub open spec fn host_entry_fits(root: Seq<char>, package_root: Seq<char>, rel: Seq<char>, entry: Seq<char>) -> bool {
    exists|joined: Seq<char>| #[trigger] join_shape(package_root, rel, joined) && entry == host_path(root, joined)
}

/// The runtime plugin files of the enabled packages among `ps[..n]`, in order,
/// as (package root, file) pairs.
pub open spec fn host_sources(ps: Seq<InstalledPlugin>, n: int) -> Seq<(Seq<char>, Seq<char>)>
    decreases n,
{
    if n <= 0 {
        Seq::empty()
    } else {
        host_sources(ps, n - 1) + if ps[n - 1].enabled {
            ps[n - 1].manifest.contributions.runtime_plugins@.map_values(
                |r: crate::manifest::RuntimePluginContribution| (ps[n - 1].package_root@, r.path@))
        } else {
            Seq::empty()
        }
    }
}

/// `entries` are the host config entries of `sources`, one for one.
pub open spec fn host_entries_fit(root: Seq<char>, sources: Seq<(Seq<char>, Seq<char>)>, entries: Seq<Seq<char>>) -> bool {
    &&& entries.len() == sources.len()
    &&& forall|i: int| 0 <= i < entries.len() ==> host_entry_fits(root, sources[i].0, sources[i].1, #[trigger] entries[i])
}

/// The plugin host config lists the runtime plugin files of the enabled
/// packages, each relative to the plugins root where it lies below it, sorted.
pub open spec fn host_plugins_fit(root: Seq<char>, ps: Seq<InstalledPlugin>, plugins: Seq<Seq<char>>) -> bool {
    &&& sorted_strings(plugins)
    &&& exists|entries: Seq<Seq<char>>| #[trigger] host_entries_fit(root, host_sources(ps, ps.len() as int), entries)
        && plugins.to_multiset() == entries.to_multiset()
}

#[derive(Debug, Clone, PartialEq, Eq)]
pub struct PluginHostConfig {
    pub plugin_directory: String,
    pub plugins: Vec<String>,
}

fn normalized_chars(s: &str) -> (out: Vec<char>)
    ensures
        out@ == crate::manifest::normalize_separators(s@),
{
    let chars = chars_of(s);
    let mut out: Vec<char> = Vec::new();
    let mut i: usize = 0;
    while i < chars.len()
        invariant
            chars@ == s@,
            i <= chars@.len(),
            out@ == crate::manifest::normalize_separators(s@).take(i as int),
        decreases chars.len() - i,
    {
        let c = if chars[i] == '\\' { '/' } else { chars[i] };
        out.push(c);
        assert(crate::manifest::normalize_separators(s@).take(i + 1) =~= crate::manifest::normalize_separators(s@).take(i as int).push(c));
        i += 1;
    }
    assert(crate::manifest::normalize_separators(s@).take(i as int) =~= crate::manifest::normalize_separators(s@));
    out
}

pub fn host_path_of(root: &str, package_root: &str, rel: &str) -> (out: String)
    ensures
        host_entry_fits(root@, package_root@, rel@, out@),
{
    let joined = crate::launch::join_path(package_root, rel);
    let full = normalized_chars(joined.as_str());
    let mut prefix = normalized_chars(root);
    let r = prefix.len();
    if !(r > 0 && prefix[r - 1] == '/') {
        prefix.push('/');
    }
    assert(prefix@ == root_prefix(crate::manifest::normalize_separators(root@)));
    let n = full.len();
    let out = if crate::text::range_starts_with(full.as_slice(), 0, prefix.as_slice()) {
        assert(full@.skip(0) =~= full@);
        crate::text::string_of(full.as_slice(), prefix.len(), n)
    } else {
        assert(full@.skip(0) =~= full@);
        crate::text::string_of(full.as_slice(), 0, n)
    };
    assert(join_shape(package_root@, rel@, joined@) && out@ == host_path(root@, joined@));
    out
}

impl PluginRegistry {
    pub fn find(&self, id: &str) -> (r: Option<&InstalledPlugin>)
        ensures
            match latest_index(self.installed_view(), id@, self.installed_view().len() as int) {
                Some(i) => r == Some(&self.installed_view()[i]),
                None => r is None,
            },
    {
        proof { use_type_invariant(self); }
        let mut best: Option<usize> = None;
        let mut i: usize = 0;
        while i < self.installed.len()
            invariant
                i <= self.installed@.len(),
                forall|k: int| 0 <= k < self.installed@.len() ==> #[trigger] manifest_issue(self.installed@[k].manifest) is None,
                match best {
                    Some(b) => latest_index(self.installed@, id@, i as int) == Some(b as int) && b < i,
                    None => latest_index(self.installed@, id@, i as int) is None,
                },
            decreases self.installed.len() - i,
        {
            let p = &self.installed[i];
            if str_eq(p.manifest.id.as_str(), id) {
                match best {
                    None => {
                        best = Some(i);
                    },
                    Some(b) => {
                        assert(manifest_issue(self.installed@[b as int].manifest) is None);
                        assert(manifest_issue(self.installed@[i as int].manifest) is None);
                        if compare_versions(self.installed[b].manifest.version.as_str(), p.manifest.version.as_str()) != 1 {
                            best = Some(i);
                        }
                    },
                }
            }
            i += 1;
        }
        match best {
            None => None,
            Some(b) => Some(&self.installed[b]),
        }
    }

    /// The package installed with exactly this id and version.
    pub fn find_installed(&self, id: &str, version: &str) -> (r: Option<&InstalledPlugin>)
        ensures
            match package_index(self.installed_view(), id@, version@) {
                Some(i) => r == Some(&self.installed_view()[i]),
                None => r is None,
            },
    {
        let mut i: usize = 0;
        while i < self.installed.len()
            invariant
                i <= self.installed@.len(),
                forall|m: int| 0 <= m < i ==> !(#[trigger] self.installed@[m].manifest.id@ == id@
                    && self.installed@[m].manifest.version@ == version@),
            decreases self.installed.len() - i,
        {
            if str_eq(self.installed[i].manifest.id.as_str(), id) && str_eq(self.installed[i].manifest.version.as_str(), version) {
                proof {
                    let ps = self.installed@;
                    let k = choose|k: int| 0 <= k < ps.len() && #[trigger] ps[k].manifest.id@ == id@ && ps[k].manifest.version@ == version@
                        && forall|m: int| 0 <= m < k ==> !(#[trigger] ps[m].manifest.id@ == id@ && ps[m].manifest.version@ == version@);
                    assert(k == i);
                }
                return Some(&self.installed[i]);
            }
            i += 1;
        }
        None
    }

    pub fn generate_plugin_host_config(&self) -> (config: PluginHostConfig)
        ensures
            config.plugin_directory@ == self.root_view(),
            config.plugins@.len() == host_sources(self.installed_view(), self.installed_view().len() as int).len(),
            host_plugins_fit(self.root_view(), self.installed_view(), config.plugins@.map_values(|s: String| s@)),
    {
        let mut plugins: Vec<String> = Vec::new();
        let ghost root = self.plugins_root@;
        let mut i: usize = 0;
        while i < self.installed.len()
            invariant
                root == self.plugins_root@,
                i <= self.installed@.len(),
                host_entries_fit(root, host_sources(self.installed@, i as int), plugins@.map_values(|s: String| s@)),
            decreases self.installed.len() - i,
        {
            let p = &self.installed[i];
            let ghost before = plugins@.map_values(|s: String| s@);
            let ghost src_before = host_sources(self.installed@, i as int);
            let ghost part = if p.enabled {
                p.manifest.contributions.runtime_plugins@.map_values(
                    |r: crate::manifest::RuntimePluginContribution| (p.package_root@, r.path@))
            } else {
                Seq::<(Seq<char>, Seq<char>)>::empty()
            };
            assert(host_sources(self.installed@, i + 1) == src_before + part);
            if p.enabled {
                let runtime = &p.manifest.contributions.runtime_plugins;
                let mut k: usize = 0;
                while k < runtime.len()
                    invariant
                        root == self.plugins_root@,
                        k <= runtime@.len(),
                        runtime@ == p.manifest.contributions.runtime_plugins@,
                        part == runtime@.map_values(|r: crate::manifest::RuntimePluginContribution| (p.package_root@, r.path@)),
                        host_entries_fit(root, src_before, before),
                        host_entries_fit(root, src_before + part.take(k as int), plugins@.map_values(|s: String| s@)),
                    decreases runtime.len() - k,
                {
                    let entry = host_path_of(self.plugins_root.as_str(), p.package_root.as_str(), runtime[k].path.as_str());
                    let ghost old_plugins = plugins@.map_values(|s: String| s@);
                    plugins.push(entry);
                    proof {
                        let np = plugins@.map_values(|s: String| s@);
                        let ns = src_before + part.take(k + 1);
                        let os = src_before + part.take(k as int);
                        assert(np =~= old_plugins.push(entry@));
                        assert(ns =~= os.push(part[k as int]));
                        assert(part[k as int] == (p.package_root@, runtime@[k as int].path@));
                        assert forall|j: int| 0 <= j < np.len() implies host_entry_fits(root, ns[j].0, ns[j].1, #[trigger] np[j]) by {
                            if j < old_plugins.len() {
                                assert(np[j] == old_plugins[j] && ns[j] == os[j]);
                            }
                        }
                    }
                    k += 1;
                }
                assert(part.take(k as int) =~= part);
            } else {
                assert(src_before + part =~= src_before);
            }
            i += 1;
        }
        let ghost unsorted = plugins@.map_values(|s: String| s@);
        let sorted = sort_strings(plugins);
        proof {
            broadcast use vstd::seq_lib::group_to_multiset_ensures;
            assert(sorted@.map_values(|s: String| s@).to_multiset().len() == unsorted.to_multiset().len());
            assert(host_entries_fit(self.plugins_root@, host_sources(self.installed@, self.installed@.len() as int), unsorted));
        }
        PluginHostConfig { plugin_directory: self.plugins_root.clone(), plugins: sorted }
    }
}

} // verus!

verus! {

fn set_enabled_entry(plugins: &mut Vec<(String, PluginSettings)>, key: String, enabled: bool)
    ensures
        state_entries(RegistryState { plugins: *final(plugins) })
            == with_enabled(state_entries(RegistryState { plugins: *old(plugins) }), key@, enabled),
{
    let ghost before = state_entries(RegistryState { plugins: *plugins });
    assert(view_keys(before) =~= keys_of(plugins@));
    proof { lemma_first_index_from(keys_of(plugins@), key@, 0); }
    match find_key(plugins, key.as_str()) {
        Some(i) => {
            let ghost old_plugins = plugins@;
            let (k, mut s) = plugins.remove(i);
            s.enabled = enabled;
            let ghost entry = (k, s);
            plugins.insert(i, (k, s));
            assert(plugins@ =~= old_plugins.update(i as int, entry));
            assert(settings_view(entry.1).external_paths == before[i as int].1.external_paths);
            assert(first_index_from(view_keys(before), key@, 0) == Some(i as int));
            assert(settings_view(entry.1) == SettingsView { enabled, external_paths: before[i as int].1.external_paths });
            assert(entry.0@ == before[i as int].0);
            assert(state_entries(RegistryState { plugins: *plugins }) =~= before.update(i as int, (entry.0@, settings_view(entry.1))));
            assert(with_enabled(before, key@, enabled) == before.update(i as int, (before[i as int].0,
                SettingsView { enabled, external_paths: before[i as int].1.external_paths })));
            assert((entry.0@, settings_view(entry.1)) == (before[i as int].0,
                SettingsView { enabled, external_paths: before[i as int].1.external_paths }));
            assert(state_entries(RegistryState { plugins: *plugins }) == with_enabled(before, key@, enabled));
        },
        None => {
            let empty: Vec<(String, String)> = Vec::new();
            assert(empty@.map_values(|e: (String, String)| (e.0@, e.1@)) =~= Seq::<(Seq<char>, Seq<char>)>::empty());
            plugins.push((key, PluginSettings { enabled, external_paths: empty }));
            assert(state_entries(RegistryState { plugins: *plugins }) =~= with_enabled(before, key@, enabled));
        },
    }
}

fn set_path_entry(paths: &mut Vec<(String, String)>, dependency_id: String, path: String)
    ensures
        final(paths)@.map_values(|e: (String, String)| (e.0@, e.1@))
            == with_path(old(paths)@.map_values(|e: (String, String)| (e.0@, e.1@)), dependency_id@, path@),
{
    let ghost before = paths@.map_values(|e: (String, String)| (e.0@, e.1@));
    assert(view_keys(before) =~= keys_of(paths@));
    proof { lemma_first_index_from(keys_of(paths@), dependency_id@, 0); }
    match find_key(paths, dependency_id.as_str()) {
        Some(j) => {
            let (k, _old) = paths.remove(j);
            paths.insert(j, (k, path));
            assert(paths@.map_values(|e: (String, String)| (e.0@, e.1@)) =~= with_path(before, dependency_id@, path@));
        },
        None => {
            paths.push((dependency_id, path));
            assert(paths@.map_values(|e: (String, String)| (e.0@, e.1@)) =~= with_path(before, dependency_id@, path@));
        },
    }
}

fn set_external_path_entry(plugins: &mut Vec<(String, PluginSettings)>, key: String, dependency_id: String, path: String)
    ensures
        state_entries(RegistryState { plugins: *final(plugins) })
            == with_external_path(state_entries(RegistryState { plugins: *old(plugins) }), key@, dependency_id@, path@),
{
    let ghost before = state_entries(RegistryState { plugins: *plugins });
    assert(view_keys(before) =~= keys_of(plugins@));
    proof { lemma_first_index_from(keys_of(plugins@), key@, 0); }
    match find_key(plugins, key.as_str()) {
        Some(i) => {
            let (k, mut s) = plugins.remove(i);
            set_path_entry(&mut s.external_paths, dependency_id, path);
            plugins.insert(i, (k, s));
            assert(state_entries(RegistryState { plugins: *plugins }) =~= with_external_path(before, key@, dependency_id@, path@));
        },
        None => {
            let ghost d = dependency_id@;
            let ghost pv = path@;
            let mut paths = Vec::new();
            paths.push((dependency_id, path));
            assert(paths@.map_values(|e: (String, String)| (e.0@, e.1@)) =~= seq![(d, pv)]);
            plugins.push((key, PluginSettings { enabled: false, external_paths: paths }));
            assert(state_entries(RegistryState { plugins: *plugins }) =~= with_external_path(before, key@, dependency_id@, path@));
        },
    }
}

impl PluginRegistry {
    /// Enables or disables the latest installed package of plugin `id`.
    pub fn set_enabled(&mut self, id: &str, enabled: bool) -> (r: Result<(), PluginRegistryError>)
        ensures
            final(self).root_view() == old(self).root_view(),
            match latest_index(old(self).installed_view(), id@, old(self).installed_view().len() as int) {
                None => r matches Err(e) && e@ == RegistryErrorView::PluginNotFound(id@)
                    && final(self).installed_view() == old(self).installed_view()
                    && final(self).state_view() == old(self).state_view(),
                Some(i) => {
                    let key = installed_key(old(self).installed_view()[i]);
                    &&& r is Ok
                    &&& state_entries(final(self).state_view()) == with_enabled(state_entries(old(self).state_view()), key, enabled)
                    &&& final(self).installed_view() == installed_with_enabled(old(self).installed_view(), key, enabled)
                },
            },
    {
        proof { use_type_invariant(&*self); }
        let key = match self.find(id) {
            None => return Err(PluginRegistryError::PluginNotFound(string_from(id))),
            Some(plugin) => package_key(plugin.id(), plugin.version()),
        };
        let mut plugins: Vec<(String, PluginSettings)> = Vec::new();
        std::mem::swap(&mut plugins, &mut self.state.plugins);
        set_enabled_entry(&mut plugins, key.clone(), enabled);
        self.state.plugins = plugins;

        let mut list: Vec<InstalledPlugin> = Vec::new();
        std::mem::swap(&mut list, &mut self.installed);
        let ghost old_list = list@;
        let mut j: usize = 0;
        while j < list.len()
            invariant
                list@.len() == old_list.len(),
                j <= list@.len(),
                forall|m: int| 0 <= m < old_list.len() ==> #[trigger] manifest_issue(old_list[m].manifest) is None,
                forall|m: int| 0 <= m < j ==> #[trigger] list@[m] == installed_with_enabled(old_list, key@, enabled)[m],
                forall|m: int| j <= m < list@.len() ==> #[trigger] list@[m] == old_list[m],
            decreases list.len() - j,
        {
            let k = package_key(list[j].id(), list[j].version());
            if str_eq(k.as_str(), key.as_str()) {
                let mut p = list.remove(j);
                p.enabled = enabled;
                list.insert(j, p);
            }
            j += 1;
        }
        assert(list@ =~= installed_with_enabled(old_list, key@, enabled));
        self.installed = list;
        Ok(())
    }

    /// Configures the directory of dependency `dependency_id` of the latest
    /// installed package of plugin `id`. The dependency states are evaluated
    /// again when the packages are next admitted.
    pub fn set_external_dependency_path(&mut self, id: &str, dependency_id: &str, path: String) -> (r: Result<(), PluginRegistryError>)
        ensures
            final(self).root_view() == old(self).root_view(),
            final(self).installed_view() == old(self).installed_view(),
            match latest_index(old(self).installed_view(), id@, old(self).installed_view().len() as int) {
                None => r matches Err(e) && e@ == RegistryErrorView::PluginNotFound(id@)
                    && final(self).state_view() == old(self).state_view(),
                Some(i) => {
                    let plugin = old(self).installed_view()[i];
                    if exists|d: int| 0 <= d < plugin.manifest.external_dependencies@.len()
                        && #[trigger] plugin.manifest.external_dependencies@[d].id@ == dependency_id@ {
                        &&& r is Ok
                        &&& state_entries(final(self).state_view()) == with_external_path(
                            state_entries(old(self).state_view()), installed_key(plugin), dependency_id@, path@)
                    } else {
                        &&& r matches Err(e) && e@ == RegistryErrorView::DependencyNotFound { plugin_id: id@, dependency_id: dependency_id@ }
                        &&& final(self).state_view() == old(self).state_view()
                    }
                },
            },
    {
        proof { use_type_invariant(&*self); }
        let plugin = match self.find(id) {
            None => return Err(PluginRegistryError::PluginNotFound(string_from(id))),
            Some(plugin) => plugin,
        };
        let deps = &plugin.manifest.external_dependencies;
        let mut found = false;
        let mut d: usize = 0;
        while d < deps.len()
            invariant
                d <= deps@.len(),
                found == exists|m: int| 0 <= m < d && #[trigger] deps@[m].id@ == dependency_id@,
            decreases deps.len() - d,
        {
            if str_eq(deps[d].id.as_str(), dependency_id) {
                found = true;
            }
            d += 1;
        }
        if !found {
            return Err(PluginRegistryError::DependencyNotFound {
                plugin_id: string_from(id),
                dependency_id: string_from(dependency_id),
            });
        }
        let key = package_key(plugin.id(), plugin.version());
        let mut plugins: Vec<(String, PluginSettings)> = Vec::new();
        std::mem::swap(&mut plugins, &mut self.state.plugins);
        set_external_path_entry(&mut plugins, key, string_from(dependency_id), path);
        self.state.plugins = plugins;
        Ok(())
    }
}

} // verus!

verus! {

/// `std::io::Error`'s `Display` text. What it says depends on the system and is
/// left unsaid.
#[verifier::external_body]
pub(crate) fn io_error_text(error: &std::io::Error) -> (s: String) {
    error.to_string()
}

/// The message shown for a registry error (for an I/O error, after its prefix,
/// the system's own text).
pub open spec fn registry_error_text(e: RegistryErrorView) -> Seq<char> {
    match e {
        RegistryErrorView::Io => "plugin registry I/O error: "@,
        RegistryErrorView::Manifest(m) => "plugin manifest error: "@ + crate::manifest::manifest_error_text(m),
        RegistryErrorView::State(s) => "plugin registry state error: "@ + s,
        RegistryErrorView::InvalidPackage(s) => "invalid plugin package: "@ + s,
        RegistryErrorView::PackageAlreadyInstalled { id, version } => "plugin package already installed: "@ + id + " "@ + version,
        RegistryErrorView::PluginNotFound(s) => "plugin not found: "@ + s,
        RegistryErrorView::DependencyNotFound { plugin_id, dependency_id } => "external dependency not found: "@ + plugin_id + "/"@ + dependency_id,
    }
}

// ---------------------------------------------------------------------------
// The order in which packages are admitted

/// Package `a` comes strictly before package `b`: by the id directory's name,
/// then by the version directory's name (the order of `Path`s below one root).
pub open spec fn package_lt(a: (Seq<char>, Seq<char>), b: (Seq<char>, Seq<char>)) -> bool {
    lex_lt(a.0, b.0) || (a.0 == b.0 && lex_lt(a.1, b.1))
}

pub open spec fn package_views(v: Seq<(String, String)>) -> Seq<(Seq<char>, Seq<char>)> {
    v.map_values(|p: (String, String)| (p.0@, p.1@))
}

/// The packages are in non-decreasing order.
pub open spec fn packages_sorted(s: Seq<(Seq<char>, Seq<char>)>) -> bool {
    forall|i: int, j: int| 0 <= i < j < s.len() ==> !package_lt(#[trigger] s[j], #[trigger] s[i])
}

proof fn lemma_package_lt_transitive(a: (Seq<char>, Seq<char>), b: (Seq<char>, Seq<char>), c: (Seq<char>, Seq<char>))
    requires
        package_lt(a, b),
        package_lt(b, c),
    ensures
        package_lt(a, c),
{
    if lex_lt(a.0, b.0) && lex_lt(b.0, c.0) {
        lemma_lex_transitive(a.0, b.0, c.0);
    } else if lex_lt(a.0, b.0) {
    } else if lex_lt(b.0, c.0) {
    } else {
        lemma_lex_transitive(a.1, b.1, c.1);
    }
}

proof fn lemma_package_lt_irreflexive(a: (Seq<char>, Seq<char>))
    ensures
        !package_lt(a, a),
{
    lemma_lex_irreflexive(a.0);
    lemma_lex_irreflexive(a.1);
}

fn package_lt_exec(a: &(String, String), b: &(String, String)) -> (r: bool)
    ensures
        r == package_lt((a.0@, a.1@), (b.0@, b.1@)),
{
    if str_lt(a.0.as_str(), b.0.as_str()) {
        true
    } else if str_eq(a.0.as_str(), b.0.as_str()) {
        str_lt(a.1.as_str(), b.1.as_str())
    } else {
        false
    }
}

/// The packages found below the plugins root, as (id directory name, version
/// directory name), in the order they are admitted: sorted, a permutation of
/// what was found.
pub fn order_packages(found: Vec<(String, String)>) -> (out: Vec<(String, String)>)
    ensures
        packages_sorted(package_views(out@)),
        package_views(out@).to_multiset() == package_views(found@).to_multiset(),
{
    let mut out: Vec<(String, String)> = Vec::new();
    let ghost input = package_views(found@);
    let mut rest = found;
    proof {
        broadcast use vstd::multiset::group_multiset_axioms, vstd::seq_lib::group_to_multiset_ensures;
        assert(package_views(out@) =~= Seq::<(Seq<char>, Seq<char>)>::empty());
        assert(package_views(out@).to_multiset() =~= vstd::multiset::Multiset::<(Seq<char>, Seq<char>)>::empty());
        assert(package_views(out@).to_multiset().add(package_views(rest@).to_multiset()) =~= input.to_multiset());
    }
    while rest.len() > 0
        invariant
            packages_sorted(package_views(out@)),
            package_views(out@).to_multiset().add(package_views(rest@).to_multiset()) == input.to_multiset(),
        decreases rest.len(),
    {
        let ghost before_rest = rest@;
        let x = rest.pop().unwrap();
        let ghost xv = (x.0@, x.1@);
        proof {
            assert(before_rest == rest@.push(x));
            assert(package_views(before_rest) =~= package_views(rest@).push(xv));
            vstd::seq_lib::to_multiset_build(package_views(rest@), xv);
        }
        let ghost old_out = package_views(out@);
        let mut p: usize = 0;
        while p < out.len() && !package_lt_exec(&x, &out[p])
            invariant
                p <= out@.len(),
                old_out == package_views(out@),
                xv == (x.0@, x.1@),
                forall|k: int| 0 <= k < p ==> !package_lt(xv, #[trigger] old_out[k]),
            decreases out.len() - p,
        {
            p += 1;
        }
        out.insert(p, x);
        proof {
            let m = package_views(out@);
            assert(m =~= old_out.insert(p as int, xv));
            assert forall|i: int, j: int| 0 <= i < j < m.len() implies !package_lt(#[trigger] m[j], #[trigger] m[i]) by {
                if i < p && j == p {
                    assert(!package_lt(xv, old_out[i]));
                } else if i == p && j > p {
                    if package_lt(old_out[j - 1], xv) {
                        lemma_package_lt_transitive(old_out[j - 1], xv, old_out[p as int]);
                        if j - 1 == p {
                            lemma_package_lt_irreflexive(old_out[p as int]);
                        } else {
                            assert(!package_lt(old_out[j - 1], old_out[p as int]));
                        }
                    }
                } else if i < p && j > p {
                    assert(!package_lt(old_out[j - 1], old_out[i]));
                } else if i > p {
                    assert(!package_lt(old_out[j - 1], old_out[i - 1]));
                } else {
                    assert(!package_lt(old_out[j], old_out[i]));
                }
            }
            vstd::seq_lib::to_multiset_insert(old_out, p as int, xv);
            broadcast use vstd::multiset::group_multiset_axioms, vstd::seq_lib::group_to_multiset_ensures;
            assert(m.to_multiset().add(package_views(rest@).to_multiset()) =~= input.to_multiset());
        }
    }
    proof {
        broadcast use vstd::multiset::group_multiset_axioms, vstd::seq_lib::group_to_multiset_ensures;
        assert(package_views(rest@) =~= Seq::<(Seq<char>, Seq<char>)>::empty());
        assert(package_views(rest@).to_multiset() =~= vstd::multiset::Multiset::<(Seq<char>, Seq<char>)>::empty());
        assert(package_views(out@).to_multiset() =~= input.to_multiset());
    }
    out
}

/// A package directory must hold its manifest file; `manifest_path` is the
/// path shown when it does not.
pub fn check_manifest_present(manifest_path: &str, is_file: bool) -> (r: Result<(), PluginRegistryError>)
    ensures
        is_file <==> r is Ok,
        r matches Err(e) ==> e@ == RegistryErrorView::InvalidPackage("missing manifest: "@ + manifest_path@),
{
    if is_file {
        Ok(())
    } else {
        proof { reveal_strlit("missing manifest: "); }
        Err(PluginRegistryError::InvalidPackage(concat2("missing manifest: ", manifest_path)))
    }
}

impl PluginRegistryError {
    /// The message shown for this error.
    pub fn message(&self) -> (s: String)
        ensures
            self@ is Io ==> s@.len() >= registry_error_text(self@).len()
                && s@.take(registry_error_text(self@).len() as int) == registry_error_text(self@),
            !(self@ is Io) ==> s@ == registry_error_text(self@),
    {
        match self {
            PluginRegistryError::Io(e) => {
                let detail = io_error_text(e);
                let s = concat2("plugin registry I/O error: ", detail.as_str());
                assert(s@.take("plugin registry I/O error: "@.len() as int) =~= "plugin registry I/O error: "@);
                s
            },
            PluginRegistryError::Manifest(e) => {
                let detail = e.message();
                concat2("plugin manifest error: ", detail.as_str())
            },
            PluginRegistryError::State(s) => concat2("plugin registry state error: ", s.as_str()),
            PluginRegistryError::InvalidPackage(s) => concat2("invalid plugin package: ", s.as_str()),
            PluginRegistryError::PackageAlreadyInstalled { id, version } => {
                let head = concat3("plugin package already installed: ", id.as_str(), " ");
                concat2(head.as_str(), version.as_str())
            },
            PluginRegistryError::PluginNotFound(s) => concat2("plugin not found: ", s.as_str()),
            PluginRegistryError::DependencyNotFound { plugin_id, dependency_id } => {
                let head = concat3("external dependency not found: ", plugin_id.as_str(), "/");
                concat2(head.as_str(), dependency_id.as_str())
            },
        }
    }
}

} // verus!

verus! {

// ---------------------------------------------------------------------------
// What a read gives back after a write

/// Whether the settings entries enable the package `key`.
pub open spec fn entries_enabled(entries: Seq<(Seq<char>, SettingsView)>, key: Seq<char>) -> bool {
    match first_index_from(view_keys(entries), key, 0) {
        Some(i) => entries[i].1.enabled,
        None => false,
    }
}

/// The directory the settings entries configure for a dependency of package `key`.
pub open spec fn entries_path(entries: Seq<(Seq<char>, SettingsView)>, key: Seq<char>, dependency_id: Seq<char>) -> Option<Seq<char>> {
    match first_index_from(view_keys(entries), key, 0) {
        Some(i) => match first_index_from(view_keys(entries[i].1.external_paths), dependency_id, 0) {
            Some(j) => Some(entries[i].1.external_paths[j].1),
            None => None,
        },
        None => None,
    }
}

proof fn lemma_entries_read(state: RegistryState, key: Seq<char>, dependency_id: Seq<char>)
    ensures
        settings_enabled(state, key) == entries_enabled(state_entries(state), key),
        configured_path_spec(state, key, dependency_id) == entries_path(state_entries(state), key, dependency_id),
{
    let entries = state_entries(state);
    assert(view_keys(entries) =~= keys_of(state.plugins@));
    match first_index_from(keys_of(state.plugins@), key, 0) {
        Some(i) => {
            lemma_first_index_from(keys_of(state.plugins@), key, 0);
            let paths = state.plugins@[i].1.external_paths@;
            assert(view_keys(entries[i].1.external_paths) =~= keys_of(paths));
            lemma_first_index_from(keys_of(paths), dependency_id, 0);
            match first_index_from(keys_of(paths), dependency_id, 0) {
                Some(j) => assert(entries[i].1.external_paths[j].1 == paths[j].1@),
                None => {},
            }
        },
        None => {},
    }
}

proof fn lemma_first_index_keys_push(keys: Seq<Seq<char>>, x: Seq<char>, key: Seq<char>, from: int)
    requires
        0 <= from <= keys.len(),
    ensures
        first_index_from(keys.push(x), key, from) == match first_index_from(keys, key, from) {
            Some(i) => Some(i),
            None => if x == key { Some(keys.len() as int) } else { None },
        },
    decreases keys.len() - from,
{
    let kp = keys.push(x);
    assert(kp[keys.len() as int] == x);
    assert forall|j: int| 0 <= j < keys.len() implies kp[j] == keys[j] by {}
    if from < keys.len() {
        lemma_first_index_keys_push(keys, x, key, from + 1);
    }
}

/// Looking up a key in a keyed list after the entry that counts for `key`
/// changed its value: `key` finds the new value, every other key the old one.
proof fn lemma_first_index_update<V>(entries: Seq<(Seq<char>, V)>, i: int, v: V, other: Seq<char>)
    requires
        0 <= i < entries.len(),
    ensures
        first_index_from(view_keys(entries.update(i, (entries[i].0, v))), other, 0) == first_index_from(view_keys(entries), other, 0),
{
    assert(view_keys(entries.update(i, (entries[i].0, v))) =~= view_keys(entries));
}

proof fn lemma_path_write(paths: Seq<(Seq<char>, Seq<char>)>, dependency_id: Seq<char>, path: Seq<char>, other: Seq<char>)
    ensures
        ({
            let after = with_path(paths, dependency_id, path);
            let read = |ps: Seq<(Seq<char>, Seq<char>)>, d: Seq<char>| match first_index_from(view_keys(ps), d, 0) {
                Some(j) => Some(ps[j].1),
                None => None::<Seq<char>>,
            };
            &&& read(after, dependency_id) == Some(path)
            &&& other != dependency_id ==> read(after, other) == read(paths, other)
        }),
{
    lemma_first_index_from(view_keys(paths), dependency_id, 0);
    lemma_first_index_from(view_keys(paths), other, 0);
    match first_index_from(view_keys(paths), dependency_id, 0) {
        Some(j) => {
            lemma_first_index_update(paths, j, path, dependency_id);
            lemma_first_index_update(paths, j, path, other);
        },
        None => {
            assert(view_keys(paths.push((dependency_id, path))) =~= view_keys(paths).push(dependency_id));
            lemma_first_index_keys_push(view_keys(paths), dependency_id, dependency_id, 0);
            lemma_first_index_keys_push(view_keys(paths), dependency_id, other, 0);
        },
    }
}

/// After a package is switched on or off (`set_enabled`), the settings report
/// the new state for it and the old state for every other package, and every
/// configured dependency directory stays as it was.
pub proof fn law_enabled_read_after_write(before: RegistryState, after: RegistryState, key: Seq<char>, enabled: bool, other: Seq<char>, dependency_id: Seq<char>)
    requires
        state_entries(after) == with_enabled(state_entries(before), key, enabled),
    ensures
        settings_enabled(after, key) == enabled,
        other != key ==> settings_enabled(after, other) == settings_enabled(before, other),
        configured_path_spec(after, other, dependency_id) == configured_path_spec(before, other, dependency_id),
{
    lemma_entries_read(before, key, dependency_id);
    lemma_entries_read(after, key, dependency_id);
    lemma_entries_read(before, other, dependency_id);
    lemma_entries_read(after, other, dependency_id);
    let e = state_entries(before);
    lemma_first_index_from(view_keys(e), key, 0);
    lemma_first_index_from(view_keys(e), other, 0);
    match first_index_from(view_keys(e), key, 0) {
        Some(i) => {
            let v = SettingsView { enabled, external_paths: e[i].1.external_paths };
            lemma_first_index_update(e, i, v, key);
            lemma_first_index_update(e, i, v, other);
        },
        None => {
            let x = (key, SettingsView { enabled, external_paths: Seq::empty() });
            assert(view_keys(e.push(x)) =~= view_keys(e).push(key));
            lemma_first_index_keys_push(view_keys(e), key, key, 0);
            lemma_first_index_keys_push(view_keys(e), key, other, 0);
            if other == key {
                assert(view_keys(Seq::<(Seq<char>, Seq<char>)>::empty()) =~= Seq::<Seq<char>>::empty());
            }
        },
    }
}

/// After a dependency directory is configured (`set_external_dependency_path`),
/// reading it back gives the new directory; every other package and
/// dependency keeps its directory, and every package its enabled state.
pub proof fn law_path_read_after_write(before: RegistryState, after: RegistryState, key: Seq<char>, dependency_id: Seq<char>, path: Seq<char>, other_key: Seq<char>, other_dependency: Seq<char>)
    requires
        state_entries(after) == with_external_path(state_entries(before), key, dependency_id, path),
    ensures
        configured_path_spec(after, key, dependency_id) == Some(path),
        (other_key != key || other_dependency != dependency_id)
            ==> configured_path_spec(after, other_key, other_dependency) == configured_path_spec(before, other_key, other_dependency),
        settings_enabled(after, other_key) == settings_enabled(before, other_key),
{
    lemma_entries_read(before, key, dependency_id);
    lemma_entries_read(after, key, dependency_id);
    lemma_entries_read(before, other_key, other_dependency);
    lemma_entries_read(after, other_key, other_dependency);
    let e = state_entries(before);
    lemma_first_index_from(view_keys(e), key, 0);
    lemma_first_index_from(view_keys(e), other_key, 0);
    match first_index_from(view_keys(e), key, 0) {
        Some(i) => {
            let v = SettingsView { enabled: e[i].1.enabled, external_paths: with_path(e[i].1.external_paths, dependency_id, path) };
            lemma_first_index_update(e, i, v, key);
            lemma_first_index_update(e, i, v, other_key);
            lemma_path_write(e[i].1.external_paths, dependency_id, path, other_dependency);
        },
        None => {
            let x = (key, SettingsView { enabled: false, external_paths: seq![(dependency_id, path)] });
            assert(view_keys(e.push(x)) =~= view_keys(e).push(key));
            lemma_first_index_keys_push(view_keys(e), key, key, 0);
            lemma_first_index_keys_push(view_keys(e), key, other_key, 0);
            let single = seq![(dependency_id, path)];
            assert(view_keys(single) =~= seq![dependency_id]);
            lemma_first_index_keys_push(Seq::<Seq<char>>::empty(), dependency_id, dependency_id, 0);
            lemma_first_index_keys_push(Seq::<Seq<char>>::empty(), dependency_id, other_dependency, 0);
            assert(Seq::<Seq<char>>::empty().push(dependency_id) =~= seq![dependency_id]);
        },
    }
}

proof fn lemma_first_false_none(s: Seq<bool>, from: int)
    requires
        0 <= from,
    ensures
        first_false_from(s, from) is None <==> forall|i: int| from <= i < s.len() ==> #[trigger] s[i],
    decreases s.len() - from,
{
    if from < s.len() {
        lemma_first_false_none(s, from + 1);
    }
}

/// A package's enabled flag, once `set_enabled` wrote it, is what a registry
/// rebuilt from the saved state gives the package again: `new` keeps the state
/// it is given, and `admit_package` enables a package as that state says.
pub proof fn law_enabled_survives_reopening(
    before: RegistryState,
    saved: RegistryState,
    key: Seq<char>,
    enabled: bool,
    reopened: PluginRegistry,
    admitted: InstalledPlugin,
)
    requires
        state_entries(saved) == with_enabled(state_entries(before), key, enabled),
        reopened.state_view() == saved,
        installed_key(admitted) == key,
        admitted.enabled == settings_enabled(reopened.state_view(), installed_key(admitted)),
    ensures
        admitted.enabled == enabled,
{
    law_enabled_read_after_write(before, saved, key, enabled, key, Seq::empty());
}

/// After a directory is configured for a dependency and the packages are
/// admitted again, the dependency names that directory, and it is ready exactly
/// when the directory exists, is a directory, the dependency is of directory
/// type, and every required file is present in it.
pub proof fn law_configured_dependency_ready(
    before: RegistryState,
    saved: RegistryState,
    key: Seq<char>,
    dependency: ExternalDependency,
    path: Seq<char>,
    probe: DirectoryProbe,
)
    requires
        state_entries(saved) == with_external_path(state_entries(before), key, dependency.id@, path),
    ensures
        ({
            let st = dependency_state_spec(dependency, configured_path_spec(saved, key, dependency.id@), probe);
            &&& st.path == Some(path)
            &&& (st.status == ExternalDependencyStatus::Ready <==> {
                &&& probe.exists
                &&& probe.is_dir
                &&& dependency.kind == ExternalDependencyType::Directory
                &&& forall|i: int| 0 <= i < probe.required_files_present@.len() ==> #[trigger] probe.required_files_present@[i]
            })
        }),
{
    law_path_read_after_write(before, saved, key, dependency.id@, path, key, dependency.id@);
    lemma_first_false_none(probe.required_files_present@, 0);
}

/// A directory package is only installed where no package of that id and
/// version stands yet.
pub fn check_install_destination(id: &str, version: &str, destination_exists: bool) -> (r: Result<(), PluginRegistryError>)
    ensures
        destination_exists <==> (r is Err),
        r matches Err(e) ==> e@ == (RegistryErrorView::PackageAlreadyInstalled { id: id@, version: version@ }),
{
    if destination_exists {
        Err(PluginRegistryError::PackageAlreadyInstalled { id: string_from(id), version: string_from(version) })
    } else {
        Ok(())
    }
}

} // verus!
