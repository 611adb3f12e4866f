//! The HoYoShade bridge: a plugin package that injects ReShade into the
//! HoYoverse games through a process-forwarder launcher adapter.
use vstd::prelude::*;
use crate::forwarder::{
    default_dir_fits, forwarder_outcome, resolve_spec, spec_result_view, ForwarderErrorView,
    ForwarderSpecView, LaunchTemplateContext, ProcessForwarderError, ProcessForwarderSpec,
};
use crate::manifest::{
    copy_manifest, dependency_ids, manifest_same, ExternalDependency, LauncherAdapterType,
    PluginManifest,
};
use crate::registry::{
    find_key, first_index_from, keys_of, lemma_first_index_from, join_shape, ExternalDependencyStatus,
    InstalledPlugin,
};
use crate::text::{chars_of, string_from};

verus! {

pub const HOYOSHADE_PLUGIN_ID: &'static str = "ssmt.hoyoshade.bridge";
pub const HOYOSHADE_DEPENDENCY_ID: &'static str = "hoyoshade";

/// The game executables HoYoShade knows how to hook.
pub open spec fn hoyoshade_game_processes() -> Seq<Seq<char>> {
    seq![
        "YuanShen.exe"@,
        "GenshinImpact.exe"@,
        "Genshin.exe"@,
        "BH3.exe"@,
        "StarRail.exe"@,
        "ZenlessZoneZero.exe"@,
        "ZenlessZoneZeroBeta.exe"@,
        "ZZZ.exe"@,
    ]
}

/// The bridge hooks a process exactly when its name is, in any ASCII letter
/// case, one of the eight HoYoverse game executables: `YuanShen.exe`,
/// `GenshinImpact.exe`, `Genshin.exe`, `BH3.exe`, `StarRail.exe`,
/// `ZenlessZoneZero.exe`, `ZenlessZoneZeroBeta.exe` and `ZZZ.exe`.
pub proof fn law_bridge_hooks_the_known_games(name: Seq<char>)
    ensures
        (exists|i: int| 0 <= i < hoyoshade_game_processes().len()
            && eq_ignore_ascii_case(#[trigger] hoyoshade_game_processes()[i], name)) <==> {
            ||| eq_ignore_ascii_case("YuanShen.exe"@, name)
            ||| eq_ignore_ascii_case("GenshinImpact.exe"@, name)
            ||| eq_ignore_ascii_case("Genshin.exe"@, name)
            ||| eq_ignore_ascii_case("BH3.exe"@, name)
            ||| eq_ignore_ascii_case("StarRail.exe"@, name)
            ||| eq_ignore_ascii_case("ZenlessZoneZero.exe"@, name)
            ||| eq_ignore_ascii_case("ZenlessZoneZeroBeta.exe"@, name)
            ||| eq_ignore_ascii_case("ZZZ.exe"@, name)
        },
{
    let l = hoyoshade_game_processes();
    assert(l.len() == 8);
    assert(l[0] == "YuanShen.exe"@);
    assert(l[1] == "GenshinImpact.exe"@);
    assert(l[2] == "Genshin.exe"@);
    assert(l[3] == "BH3.exe"@);
    assert(l[4] == "StarRail.exe"@);
    assert(l[5] == "ZenlessZoneZero.exe"@);
    assert(l[6] == "ZenlessZoneZeroBeta.exe"@);
    assert(l[7] == "ZZZ.exe"@);
}

#[derive(Debug, Clone, PartialEq, Eq)]
pub struct HoYoShadeBridge {
    pub package_root: String,
    pub manifest: PluginManifest,
}

#[derive(Debug, Clone, PartialEq, Eq)]
pub enum HoYoShadeBridgeError {
    InvalidManifest(String),
    WrongPluginId(String),
    MissingAdapter,
    MissingDependency,
    DependencyNotReady(String),
    MissingRequiredFile(String),
    Forwarder(ProcessForwarderError),
}

pub enum BridgeErrorView {
    InvalidManifest(Seq<char>),
    WrongPluginId(Seq<char>),
    MissingAdapter,
    MissingDependency,
    DependencyNotReady(Seq<char>),
    MissingRequiredFile(Seq<char>),
    Forwarder(ForwarderErrorView),
}

impl View for HoYoShadeBridgeError {
    type V = BridgeErrorView;

    open spec fn view(&self) -> BridgeErrorView {
        match self {
            HoYoShadeBridgeError::InvalidManifest(s) => BridgeErrorView::InvalidManifest(s@),
            HoYoShadeBridgeError::WrongPluginId(s) => BridgeErrorView::WrongPluginId(s@),
            HoYoShadeBridgeError::MissingAdapter => BridgeErrorView::MissingAdapter,
            HoYoShadeBridgeError::MissingDependency => BridgeErrorView::MissingDependency,
            HoYoShadeBridgeError::DependencyNotReady(s) => BridgeErrorView::DependencyNotReady(s@),
            HoYoShadeBridgeError::MissingRequiredFile(s) => BridgeErrorView::MissingRequiredFile(s@),
            HoYoShadeBridgeError::Forwarder(e) => BridgeErrorView::Forwarder(e@),
        }
    }
}

impl HoYoShadeBridgeError {
    /// The bridge error that wraps a launcher error.
    pub fn from_forwarder(error: ProcessForwarderError) -> (e: Self)
        ensures
            e@ == BridgeErrorView::Forwarder(error@),
    {
        HoYoShadeBridgeError::Forwarder(error)
    }
}

/// The first external dependency of `m` with the HoYoShade id.
pub open spec fn hoyoshade_dependency_index(m: PluginManifest) -> Option<int> {
    first_index_from(dependency_ids(m.external_dependencies@), HOYOSHADE_DEPENDENCY_ID@, 0)
}

/// Why `plugin` is not a HoYoShade bridge package, if it is not one.
pub open spec fn bridge_issue(plugin: InstalledPlugin) -> Option<BridgeErrorView> {
    if plugin.manifest.id@ != HOYOSHADE_PLUGIN_ID@ {
        Some(BridgeErrorView::WrongPluginId(plugin.manifest.id@))
    } else if plugin.manifest.contributions.launcher_adapters@.len() != 1 {
        Some(BridgeErrorView::MissingAdapter)
    } else if hoyoshade_dependency_index(plugin.manifest) is None {
        Some(BridgeErrorView::MissingDependency)
    } else {
        None
    }
}

fn find_dependency(deps: &Vec<ExternalDependency>, id: &str) -> (r: Option<usize>)
    ensures
        match r {
            Some(i) => i < deps@.len() && first_index_from(dependency_ids(deps@), id@, 0) == Some(i as int),
            None => first_index_from(dependency_ids(deps@), id@, 0) is None,
        },
{
    let ghost ids = dependency_ids(deps@);
    let mut i: usize = 0;
    while i < deps.len()
        invariant
            ids == dependency_ids(deps@),
            i <= deps@.len(),
            first_index_from(ids, id@, 0) == first_index_from(ids, id@, i as int),
        decreases deps.len() - i,
    {
        if crate::text::str_eq(deps[i].id.as_str(), id) {
            return Some(i);
        }
        i += 1;
    }
    None
}

/// ASCII letters folded to lower case; every other character kept.
pub open spec fn ascii_fold(c: char) -> int {
    if 'A' <= c && c <= 'Z' { (c as u32) + 32 } else { c as u32 as int }
}

/// `a` and `b` are equal when ASCII letters are compared without case.
pub open spec fn eq_ignore_ascii_case(a: Seq<char>, b: Seq<char>) -> bool {
    a.len() == b.len() && forall|i: int| 0 <= i < a.len() ==> ascii_fold(#[trigger] a[i]) == ascii_fold(b[i])
}

fn ascii_fold_exec(c: char) -> (u: u32)
    ensures
        u == ascii_fold(c),
{
    if 'A' <= c && c <= 'Z' { (c as u32) + 32 } else { c as u32 }
}

pub fn str_eq_ignore_ascii_case(a: &str, b: &str) -> (r: bool)
    ensures
        r == eq_ignore_ascii_case(a@, b@),
{
    let ac = chars_of(a);
    let bc = chars_of(b);
    if ac.len() != bc.len() {
        return false;
    }
    let mut i: usize = 0;
    while i < ac.len()
        invariant
            ac@ == a@,
            bc@ == b@,
            ac@.len() == bc@.len(),
            i <= ac@.len(),
            forall|k: int| 0 <= k < i ==> ascii_fold(#[trigger] a@[k]) == ascii_fold(b@[k]),
        decreases ac.len() - i,
    {
        if ascii_fold_exec(ac[i]) != ascii_fold_exec(bc[i]) {
            return false;
        }
        i += 1;
    }
    true
}

/// The part of the bridge's launch that the file system decides: the
/// dependency directory must be a directory holding the dependency's files. A
/// missing file is given here as the manifest names it; the error names it
/// joined onto the directory (see `directory_error_matches`).
pub open spec fn external_directory_issue(m: PluginManifest, path: Seq<char>, is_dir: bool, present: Seq<bool>) -> Option<BridgeErrorView> {
    if !is_dir {
        Some(BridgeErrorView::DependencyNotReady("configured path is not a directory"@))
    } else {
        match hoyoshade_dependency_index(m) {
            None => Some(BridgeErrorView::MissingDependency),
            Some(k) => match crate::registry::first_false_from(present, 0) {
                Some(i) => Some(BridgeErrorView::MissingRequiredFile(m.external_dependencies@[k].required_files@[i]@)),
                None => None,
            },
        }
    }
}

/// The error reported for an issue of `external_directory_issue`: the same,
/// except that a missing file is named by its path inside `path`.
pub open spec fn directory_error_matches(issue: BridgeErrorView, got: BridgeErrorView, path: Seq<char>) -> bool {
    match issue {
        BridgeErrorView::MissingRequiredFile(file) => got matches BridgeErrorView::MissingRequiredFile(p)
            && join_shape(path, file, p),
        _ => got == issue,
    }
}

/// The status text used when a dependency that is not ready gives no reason.
pub open spec fn status_text(s: ExternalDependencyStatus) -> Seq<char> {
    match s {
        ExternalDependencyStatus::Missing => "status: Missing"@,
        ExternalDependencyStatus::Invalid => "status: Invalid"@,
        ExternalDependencyStatus::Ready => "status: Ready"@,
    }
}

fn status_text_exec(s: ExternalDependencyStatus) -> (t: String)
    ensures
        t@ == status_text(s),
{
    match s {
        ExternalDependencyStatus::Missing => string_from("status: Missing"),
        ExternalDependencyStatus::Invalid => string_from("status: Invalid"),
        ExternalDependencyStatus::Ready => string_from("status: Ready"),
    }
}

/// What stops the bridge from building its launcher before templates are resolved.
pub open spec fn build_issue(bridge: HoYoShadeBridge, plugin: InstalledPlugin) -> Option<BridgeErrorView> {
    match first_index_from(keys_of(plugin.external_dependencies@), HOYOSHADE_DEPENDENCY_ID@, 0) {
        None => Some(BridgeErrorView::MissingDependency),
        Some(k) => {
            let state = plugin.external_dependencies@[k].1;
            if state.status != ExternalDependencyStatus::Ready {
                Some(BridgeErrorView::DependencyNotReady(match state.reason {
                    Some(r) => r@,
                    None => status_text(state.status),
                }))
            } else if bridge.manifest.contributions.launcher_adapters@.len() == 0 {
                Some(BridgeErrorView::MissingAdapter)
            } else if bridge.manifest.contributions.launcher_adapters@[0].kind != LauncherAdapterType::ProcessForwarder {
                Some(BridgeErrorView::MissingAdapter)
            } else {
                None
            }
        },
    }
}

pub open spec fn bridge_forwarder_view(r: Result<ForwarderSpecView, ForwarderErrorView>) -> Result<ForwarderSpecView, BridgeErrorView> {
    match r {
        Ok(s) => Ok(s),
        Err(e) => Err(BridgeErrorView::Forwarder(e)),
    }
}

pub open spec fn bridge_result_view(r: Result<ProcessForwarderSpec, HoYoShadeBridgeError>) -> Result<ForwarderSpecView, BridgeErrorView> {
    match r {
        Ok(s) => Ok(s@),
        Err(e) => Err(e@),
    }
}

impl HoYoShadeBridge {
    /// The bridge for an installed package: it must be the HoYoShade bridge
    /// package, with exactly one launcher adapter and a `hoyoshade` dependency.
    pub fn from_installed(plugin: &InstalledPlugin) -> (r: Result<Self, HoYoShadeBridgeError>)
        ensures
            match r {
                Ok(b) => bridge_issue(*plugin) is None && b.package_root == plugin.package_root
                    && manifest_same(b.manifest, plugin.manifest),
                Err(e) => bridge_issue(*plugin) == Some(e@),
            },
    {
        if !crate::text::str_eq(plugin.manifest.id.as_str(), HOYOSHADE_PLUGIN_ID) {
            return Err(HoYoShadeBridgeError::WrongPluginId(plugin.manifest.id.clone()));
        }
        if plugin.manifest.contributions.launcher_adapters.len() != 1 {
            return Err(HoYoShadeBridgeError::MissingAdapter);
        }
        if find_dependency(&plugin.manifest.external_dependencies, HOYOSHADE_DEPENDENCY_ID).is_none() {
            return Err(HoYoShadeBridgeError::MissingDependency);
        }
        Ok(HoYoShadeBridge { package_root: plugin.package_root.clone(), manifest: copy_manifest(&plugin.manifest) })
    }

    /// The bridge's `hoyoshade` dependency, whose required files a probe of the
    /// dependency directory must report on.
    pub fn dependency(&self) -> (r: Option<&ExternalDependency>)
        ensures
            match hoyoshade_dependency_index(self.manifest) {
                Some(k) => r == Some(&self.manifest.external_dependencies@[k]),
                None => r is None,
            },
    {
        match find_dependency(&self.manifest.external_dependencies, HOYOSHADE_DEPENDENCY_ID) {
            Some(k) => Some(&self.manifest.external_dependencies[k]),
            None => None,
        }
    }

    /// Checks a dependency directory `path`, given what the file system said:
    /// whether it is a directory, and for each required file of the bridge's
    /// dependency (in order) whether it exists inside it.
    pub fn validate_external_directory(&self, path: &str, is_dir: bool, required_files_present: &Vec<bool>) -> (r: Result<(), HoYoShadeBridgeError>)
        requires
            hoyoshade_dependency_index(self.manifest) matches Some(k)
                ==> required_files_present@.len() == self.manifest.external_dependencies@[k].required_files@.len(),
        ensures
            match r {
                Ok(()) => external_directory_issue(self.manifest, path@, is_dir, required_files_present@) is None,
                Err(e) => external_directory_issue(self.manifest, path@, is_dir, required_files_present@) matches Some(issue)
                    && directory_error_matches(issue, e@, path@),
            },
    {
        if !is_dir {
            return Err(HoYoShadeBridgeError::DependencyNotReady(string_from("configured path is not a directory")));
        }
        let k = match find_dependency(&self.manifest.external_dependencies, HOYOSHADE_DEPENDENCY_ID) {
            None => return Err(HoYoShadeBridgeError::MissingDependency),
            Some(k) => k,
        };
        let dependency = &self.manifest.external_dependencies[k];
        let mut i: usize = 0;
        while i < required_files_present.len()
            invariant
                hoyoshade_dependency_index(self.manifest) == Some(k as int),
                k < self.manifest.external_dependencies@.len(),
                *dependency == self.manifest.external_dependencies@[k as int],
                required_files_present@.len() == dependency.required_files@.len(),
                is_dir,
                i <= required_files_present@.len(),
                crate::registry::first_false_from(required_files_present@, 0)
                    == crate::registry::first_false_from(required_files_present@, i as int),
            decreases required_files_present.len() - i,
        {
            if !required_files_present[i] {
                return Err(HoYoShadeBridgeError::MissingRequiredFile(
                    crate::launch::join_path(path, dependency.required_files[i].as_str())));
            }
            i += 1;
        }
        Ok(())
    }

    /// Builds the HoYoShade launcher for `plugin`: its `hoyoshade` dependency
    /// must be ready and the bridge's first adapter a process forwarder, whose
    /// command line is then resolved with `timeout`.
    pub fn build_forwarder(&self, plugin: &InstalledPlugin, context: &LaunchTemplateContext, timeout: std::time::Duration) -> (r: Result<ProcessForwarderSpec, HoYoShadeBridgeError>)
        ensures
            build_issue(*self, *plugin) matches Some(e) ==> (r matches Err(x) && x@ == e),
            build_issue(*self, *plugin) is None ==> exists|d: Option<Seq<char>>|
                default_dir_fits(resolve_spec(self.manifest.contributions.launcher_adapters@[0].executable@, plugin.package_root@, *context), d)
                && #[trigger] bridge_forwarder_view(forwarder_outcome(*plugin, self.manifest.contributions.launcher_adapters@[0], *context, Some(timeout), d))
                    == bridge_result_view(r),
    {
        let deps = &plugin.external_dependencies;
        proof { lemma_first_index_from(keys_of(deps@), HOYOSHADE_DEPENDENCY_ID@, 0); }
        let k = match find_key(deps, HOYOSHADE_DEPENDENCY_ID) {
            None => return Err(HoYoShadeBridgeError::MissingDependency),
            Some(k) => k,
        };
        let state = &deps[k].1;
        let ready = match state.status {
            ExternalDependencyStatus::Ready => true,
            _ => false,
        };
        if !ready {
            let reason = match &state.reason {
                Some(r) => r.clone(),
                None => status_text_exec(state.status),
            };
            return Err(HoYoShadeBridgeError::DependencyNotReady(reason));
        }
        if self.manifest.contributions.launcher_adapters.len() == 0 {
            return Err(HoYoShadeBridgeError::MissingAdapter);
        }
        let adapter = &self.manifest.contributions.launcher_adapters[0];
        if adapter.kind != LauncherAdapterType::ProcessForwarder {
            return Err(HoYoShadeBridgeError::MissingAdapter);
        }
        let resolved = ProcessForwarderSpec::resolve(plugin, adapter, context, Some(timeout));
        let r = match resolved {
            Ok(spec) => Ok(spec),
            Err(e) => Err(HoYoShadeBridgeError::from_forwarder(e)),
        };
        proof {
            let d = choose|d: Option<Seq<char>>|
                default_dir_fits(resolve_spec(adapter.executable@, plugin.package_root@, *context), d)
                && #[trigger] forwarder_outcome(*plugin, *adapter, *context, Some(timeout), d) == spec_result_view(resolved);
            assert(bridge_forwarder_view(forwarder_outcome(*plugin, *adapter, *context, Some(timeout), d)) == bridge_result_view(r));
        }
        r
    }

    /// Whether HoYoShade can hook a game whose process is `process_name`
    /// (the known executables, compared without ASCII case).
    pub fn supports_process(&self, process_name: &str) -> (b: bool)
        ensures
            b == exists|i: int| 0 <= i < hoyoshade_game_processes().len()
                && eq_ignore_ascii_case(#[trigger] hoyoshade_game_processes()[i], process_name@),
    {
        let names: [&str; 8] = [
            "YuanShen.exe",
            "GenshinImpact.exe",
            "Genshin.exe",
            "BH3.exe",
            "StarRail.exe",
            "ZenlessZoneZero.exe",
            "ZenlessZoneZeroBeta.exe",
            "ZZZ.exe",
        ];
        proof {
            reveal_strlit("YuanShen.exe");
            reveal_strlit("GenshinImpact.exe");
            reveal_strlit("Genshin.exe");
            reveal_strlit("BH3.exe");
            reveal_strlit("StarRail.exe");
            reveal_strlit("ZenlessZoneZero.exe");
            reveal_strlit("ZenlessZoneZeroBeta.exe");
            reveal_strlit("ZZZ.exe");
        }
        assert(forall|i: int| 0 <= i < 8 ==> (#[trigger] names@[i])@ == hoyoshade_game_processes()[i]);
        let mut i: usize = 0;
        while i < 8
            invariant
                i <= 8,
                forall|j: int| 0 <= j < 8 ==> (#[trigger] names@[j])@ == hoyoshade_game_processes()[j],
                forall|j: int| 0 <= j < i ==> !eq_ignore_ascii_case(#[trigger] hoyoshade_game_processes()[j], process_name@),
            decreases 8 - i,
        {
            if str_eq_ignore_ascii_case(names[i], process_name) {
                assert(eq_ignore_ascii_case(hoyoshade_game_processes()[i as int], process_name@));
                return true;
            }
            i += 1;
        }
        false
    }
}

// ---------------------------------------------------------------------------
// Deploying `ReShade.ini` into the game directory

/// Where `ReShade.ini` is copied from, where to, and where an existing game
/// configuration is preserved.
pub fn reshade_ini_paths_of(dependency_directory: &str, game_directory: &str) -> (p: (String, String, String))
    ensures
        join_shape(dependency_directory@, "ReShade.ini"@, p.0@),
        join_shape(game_directory@, "ReShade.ini"@, p.1@),
        join_shape(game_directory@, "ReShade.ini.ssmt-backup"@, p.2@),
{
    (
        crate::launch::join_path(dependency_directory, "ReShade.ini"),
        crate::launch::join_path(game_directory, "ReShade.ini"),
        crate::launch::join_path(game_directory, "ReShade.ini.ssmt-backup"),
    )
}

/// Whether the game's own `ReShade.ini` must be copied aside before the
/// bridge's is deployed: it exists, differs from the bridge's, and no copy was
/// kept before (a copy is kept once, never overwritten).
pub fn must_preserve_existing_ini(target_is_file: bool, same_contents: bool, backup_exists: bool) -> (b: bool)
    ensures
        b == (target_is_file && !same_contents && !backup_exists),
{
    target_is_file && !same_contents && !backup_exists
}

} // verus!

verus! {

/// The message shown for a bridge error.
pub open spec fn bridge_error_text(e: BridgeErrorView) -> Seq<char> {
    match e {
        BridgeErrorView::InvalidManifest(m) => "invalid HoYoShade manifest: "@ + m,
        BridgeErrorView::WrongPluginId(id) => "unexpected HoYoShade plugin id: "@ + id,
        BridgeErrorView::MissingAdapter => "HoYoShade Bridge has no launcher adapter"@,
        BridgeErrorView::MissingDependency => "HoYoShade Bridge has no hoyoshade dependency"@,
        BridgeErrorView::DependencyNotReady(r) => "HoYoShade dependency is not ready: "@ + r,
        BridgeErrorView::MissingRequiredFile(p) => "HoYoShade file is missing: "@ + p,
        BridgeErrorView::Forwarder(f) => "HoYoShade launcher error: "@ + crate::forwarder::forwarder_error_text(f),
    }
}

impl HoYoShadeBridgeError {
    /// The message shown for this error.
    pub fn message(&self) -> (s: String)
        ensures
            s@ == bridge_error_text(self@),
    {
        match self {
            HoYoShadeBridgeError::InvalidManifest(m) => crate::text::concat2("invalid HoYoShade manifest: ", m.as_str()),
            HoYoShadeBridgeError::WrongPluginId(id) => crate::text::concat2("unexpected HoYoShade plugin id: ", id.as_str()),
            HoYoShadeBridgeError::MissingAdapter => string_from("HoYoShade Bridge has no launcher adapter"),
            HoYoShadeBridgeError::MissingDependency => string_from("HoYoShade Bridge has no hoyoshade dependency"),
            HoYoShadeBridgeError::DependencyNotReady(r) => crate::text::concat2("HoYoShade dependency is not ready: ", r.as_str()),
            HoYoShadeBridgeError::MissingRequiredFile(p) => crate::text::concat2("HoYoShade file is missing: ", p.as_str()),
            HoYoShadeBridgeError::Forwarder(f) => {
                let detail = f.message();
                crate::text::concat2("HoYoShade launcher error: ", detail.as_str())
            },
        }
    }
}

} // verus!
