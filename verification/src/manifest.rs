//! The plugin manifest (`ssmt-plugin.json`): its data model and the rules that
//! a manifest must meet before the registry accepts it.
use vstd::prelude::*;
use vstd::utf8::encode_utf8;
use crate::versions::{
    requirement_parses, semver_requirement_parses, semver_version_parses, version_parses,
};
use crate::text::{
    chars_of, concat2, concat3, find_char, find_char_from, find_pair, find_pair_from, is_blank,
    is_blank_seq, lemma_find_char_from, lemma_find_pair_from, range_eq, range_starts_with,
    push_char, starts_with, str_eq, string_from, string_of,
};

verus! {

pub const PLUGIN_MANIFEST_SCHEMA_VERSION: u32 = 1;
pub const SUPPORTED_PLATFORM: &'static str = "windows-x64";
pub const DEFAULT_READY_TIMEOUT_MS: u64 = 15_000;

#[derive(Debug, Clone, PartialEq, Eq)]
pub struct PluginManifest {
    pub schema_version: u32,
    pub id: String,
    pub name: String,
    pub version: String,
    pub author: String,
    pub compatibility: PluginCompatibility,
    pub contributions: PluginContributions,
    pub external_dependencies: Vec<ExternalDependency>,
    pub permissions: Vec<PluginPermission>,
}

#[derive(Debug, Clone, PartialEq, Eq)]
pub struct PluginCompatibility {
    pub ssmt: String,
    pub platforms: Vec<String>,
}

#[derive(Debug, Clone, PartialEq, Eq)]
pub struct PluginContributions {
    pub runtime_plugins: Vec<RuntimePluginContribution>,
    pub launcher_adapters: Vec<LauncherAdapterContribution>,
    pub external_managers: Vec<ExternalManagerContribution>,
    pub ui_pages: Vec<UiPageContribution>,
}

impl PluginContributions {
    /// No contribution of any kind (the default when a manifest lists none).
    pub fn empty() -> (c: Self)
        ensures
            c.runtime_plugins@.len() == 0,
            c.launcher_adapters@.len() == 0,
            c.external_managers@.len() == 0,
            c.ui_pages@.len() == 0,
    {
        PluginContributions {
            runtime_plugins: Vec::new(),
            launcher_adapters: Vec::new(),
            external_managers: Vec::new(),
            ui_pages: Vec::new(),
        }
    }
}

#[derive(Debug, Clone, PartialEq, Eq)]
pub struct ExternalManagerContribution {
    pub id: String,
    pub executable: String,
    pub working_directory: Option<String>,
}

#[derive(Debug, Clone, PartialEq, Eq)]
pub struct RuntimePluginContribution {
    pub path: String,
}

#[derive(Debug, Clone, PartialEq, Eq)]
pub struct LauncherAdapterContribution {
    pub kind: LauncherAdapterType,
    pub executable: String,
    pub arguments: Vec<String>,
    pub working_directory: Option<String>,
    pub ready: Option<ReadyCondition>,
    pub failure_policy: FailurePolicy,
}

#[derive(Debug, Clone, PartialEq, Eq)]
pub struct ReadyCondition {
    pub kind: ReadyConditionType,
    pub value: Option<String>,
    pub timeout_ms: u64,
}

#[derive(Debug, Clone, Copy, PartialEq, Eq, Structural)]
pub enum ReadyConditionType {
    StderrContains,
    StdoutContains,
    ProcessExited,
}

#[derive(Debug, Clone, Copy, PartialEq, Eq, Structural)]
pub enum FailurePolicy {
    Abort,
    Warn,
    Ignore,
}

impl FailurePolicy {
    /// The policy a manifest gets when it names none.
    pub fn default_policy() -> (p: Self)
        ensures
            p == FailurePolicy::Abort,
    {
        FailurePolicy::Abort
    }
}

/// The ready timeout a manifest gets when it names none.
pub fn default_ready_timeout_ms() -> (t: u64)
    ensures
        t == 15_000,
{
    DEFAULT_READY_TIMEOUT_MS
}

#[derive(Debug, Clone, Copy, PartialEq, Eq, Structural)]
pub enum LauncherAdapterType {
    ProcessForwarder,
}

#[derive(Debug, Clone, PartialEq, Eq)]
pub struct UiPageContribution {
    pub id: String,
    pub route: String,
    pub path: String,
}

#[derive(Debug, Clone, PartialEq, Eq)]
pub struct ExternalDependency {
    pub id: String,
    pub kind: ExternalDependencyType,
    pub required_files: Vec<String>,
}

#[derive(Debug, Clone, Copy, PartialEq, Eq, Structural)]
pub enum ExternalDependencyType {
    Directory,
}

#[derive(Debug, Clone, PartialEq, Eq, Hash, Structural)]
pub enum PluginPermission {
    ProcessSpawn,
    ProcessObserve,
    GameLaunch,
    FilesystemRead,
    FilesystemWrite,
    NativeInject,
    Network,
}

#[derive(Debug, Clone, PartialEq, Eq)]
pub enum PluginManifestError {
    Json(String),
    UnsupportedSchemaVersion(u32),
    InvalidPluginId(String),
    DuplicatePluginId(String),
    InvalidVersion(String),
    InvalidCompatibility(String),
    UnsupportedPlatform(String),
    EmptyField(&'static str),
    DuplicateValue { field: &'static str, value: String },
    InvalidPath { field: &'static str, path: String },
    InvalidContribution(String),
    InvalidExternalDependency(String),
    InvalidPermission(String),
}

/// A `PluginManifestError` with its text fields taken as character sequences.
pub enum ManifestErrorView {
    Json(Seq<char>),
    UnsupportedSchemaVersion(u32),
    InvalidPluginId(Seq<char>),
    DuplicatePluginId(Seq<char>),
    InvalidVersion(Seq<char>),
    InvalidCompatibility(Seq<char>),
    UnsupportedPlatform(Seq<char>),
    EmptyField(Seq<char>),
    DuplicateValue { field: Seq<char>, value: Seq<char> },
    InvalidPath { field: Seq<char>, path: Seq<char> },
    InvalidContribution(Seq<char>),
    InvalidExternalDependency(Seq<char>),
    InvalidPermission(Seq<char>),
}

impl View for PluginManifestError {
    type V = ManifestErrorView;

    open spec fn view(&self) -> ManifestErrorView {
        match self {
            PluginManifestError::Json(s) => ManifestErrorView::Json(s@),
            PluginManifestError::UnsupportedSchemaVersion(v) => ManifestErrorView::UnsupportedSchemaVersion(*v),
            PluginManifestError::InvalidPluginId(s) => ManifestErrorView::InvalidPluginId(s@),
            PluginManifestError::DuplicatePluginId(s) => ManifestErrorView::DuplicatePluginId(s@),
            PluginManifestError::InvalidVersion(s) => ManifestErrorView::InvalidVersion(s@),
            PluginManifestError::InvalidCompatibility(s) => ManifestErrorView::InvalidCompatibility(s@),
            PluginManifestError::UnsupportedPlatform(s) => ManifestErrorView::UnsupportedPlatform(s@),
            PluginManifestError::EmptyField(f) => ManifestErrorView::EmptyField(f@),
            PluginManifestError::DuplicateValue { field, value } => ManifestErrorView::DuplicateValue { field: field@, value: value@ },
            PluginManifestError::InvalidPath { field, path } => ManifestErrorView::InvalidPath { field: field@, path: path@ },
            PluginManifestError::InvalidContribution(s) => ManifestErrorView::InvalidContribution(s@),
            PluginManifestError::InvalidExternalDependency(s) => ManifestErrorView::InvalidExternalDependency(s@),
            PluginManifestError::InvalidPermission(s) => ManifestErrorView::InvalidPermission(s@),
        }
    }
}

/// `Ok(())` when `issue` is `None`, otherwise the error whose view is the issue.
pub open spec fn outcome_matches(r: Result<(), PluginManifestError>, issue: Option<ManifestErrorView>) -> bool {
    match r {
        Ok(()) => issue is None,
        Err(e) => issue == Some(e@),
    }
}

// ---------------------------------------------------------------------------
// Plugin ids

pub open spec fn is_ascii_alphanumeric(c: char) -> bool {
    ('a' <= c && c <= 'z') || ('A' <= c && c <= 'Z') || ('0' <= c && c <= '9')
}

pub open spec fn is_plugin_id_char(c: char) -> bool {
    is_ascii_alphanumeric(c) || c == '.' || c == '-' || c == '_'
}

/// A plugin id: 1 to 128 bytes of ASCII letters, digits, `.`, `-` and `_`,
/// neither starting nor ending with `.`.
pub open spec fn plugin_id_valid(id: Seq<char>) -> bool {
    &&& id.len() > 0
    &&& encode_utf8(id).len() <= 128
    &&& forall|i: int| 0 <= i < id.len() ==> is_plugin_id_char(#[trigger] id[i])
    &&& id[0] != '.'
    &&& id[id.len() - 1] != '.'
}

pub open spec fn plugin_id_issue(id: Seq<char>) -> Option<ManifestErrorView> {
    if plugin_id_valid(id) { None } else { Some(ManifestErrorView::InvalidPluginId(id)) }
}

pub fn is_plugin_id_char_exec(c: char) -> (b: bool)
    ensures
        b == is_plugin_id_char(c),
{
    ('a' <= c && c <= 'z') || ('A' <= c && c <= 'Z') || ('0' <= c && c <= '9') || c == '.' || c == '-' || c == '_'
}

/// Whether every character of `chars` may appear in a plugin id.
pub fn all_plugin_id_chars(chars: &[char]) -> (b: bool)
    ensures
        b == forall|i: int| 0 <= i < chars@.len() ==> is_plugin_id_char(#[trigger] chars@[i]),
{
    let mut i: usize = 0;
    while i < chars.len()
        invariant
            i <= chars@.len(),
            forall|k: int| 0 <= k < i ==> is_plugin_id_char(#[trigger] chars@[k]),
        decreases chars.len() - i,
    {
        if !is_plugin_id_char_exec(chars[i]) {
            return false;
        }
        i += 1;
    }
    true
}

pub fn plugin_id_ok(id: &str) -> (b: bool)
    ensures
        b == plugin_id_valid(id@),
{
    let chars = chars_of(id);
    let n = chars.len();
    if n == 0 || !all_plugin_id_chars(chars.as_slice()) {
        return false;
    }
    proof {
        assert(vstd::utf8::is_ascii_chars(id@)) by {
            assert forall|i: int| 0 <= i < id@.len() implies '\0' <= #[trigger] id@[i] <= '\u{7f}' by {
                assert(is_plugin_id_char(chars@[i]));
            }
        }
        vstd::utf8::is_ascii_chars_encode_utf8(id@);
    }
    n <= 128 && chars[0] != '.' && chars[n - 1] != '.'
}

pub fn validate_plugin_id(id: &str) -> (r: Result<(), PluginManifestError>)
    ensures
        outcome_matches(r, plugin_id_issue(id@)),
{
    if !plugin_id_ok(id) {
        return Err(PluginManifestError::InvalidPluginId(string_from(id)));
    }
    Ok(())
}

// ---------------------------------------------------------------------------
// Required text fields

pub open spec fn non_empty_issue(field: Seq<char>, value: Seq<char>) -> Option<ManifestErrorView> {
    if is_blank_seq(value) { Some(ManifestErrorView::EmptyField(field)) } else { None }
}

pub fn validate_non_empty(field: &'static str, value: &str) -> (r: Result<(), PluginManifestError>)
    ensures
        outcome_matches(r, non_empty_issue(field@, value@)),
{
    if is_blank(value) {
        return Err(PluginManifestError::EmptyField(field));
    }
    Ok(())
}

// ---------------------------------------------------------------------------
// Package-relative paths

pub open spec fn is_separator(c: char) -> bool {
    c == '/' || c == '\\'
}

/// `p[i..j]` is one of the pieces that `p` falls into when cut at every
/// `/` and `\`.
pub open spec fn is_segment(p: Seq<char>, i: int, j: int) -> bool {
    &&& 0 <= i <= j <= p.len()
    &&& (i == 0 || is_separator(p[i - 1]))
    &&& (j == p.len() || is_separator(p[j]))
    &&& forall|k: int| i <= k < j ==> !is_separator(#[trigger] p[k])
}

/// A path segment may be neither empty, `.` nor `..`, and holds no `:`.
pub open spec fn segment_ok(seg: Seq<char>) -> bool {
    &&& seg.len() > 0
    &&& !(seg.len() == 1 && seg[0] == '.')
    &&& !(seg.len() == 2 && seg[0] == '.' && seg[1] == '.')
    &&& forall|k: int| 0 <= k < seg.len() ==> #[trigger] seg[k] != ':'
}

/// A path that stays inside the package: no NUL, and every segment (cut at `/`
/// and `\`) is non-empty, not `.` or `..`, and has no `:`. So it is not empty,
/// not absolute, has no drive letter and no parent step.
pub open spec fn package_path_valid(p: Seq<char>) -> bool {
    &&& forall|k: int| 0 <= k < p.len() ==> #[trigger] p[k] != '\0'
    &&& forall|i: int, j: int| #[trigger] is_segment(p, i, j) ==> segment_ok(p.subrange(i, j))
}

pub open spec fn package_path_issue(field: Seq<char>, p: Seq<char>) -> Option<ManifestErrorView> {
    if package_path_valid(p) { None } else { Some(ManifestErrorView::InvalidPath { field, path: p }) }
}

pub fn is_separator_exec(c: char) -> (b: bool)
    ensures
        b == is_separator(c),
{
    c == '/' || c == '\\'
}

/// Whether the segment `chars[start..end]` is acceptable, given whether it holds a `:`.
fn segment_acceptable(chars: &[char], start: usize, end: usize, has_colon: bool) -> (b: bool)
    requires
        start <= end <= chars@.len(),
        has_colon == exists|k: int| start <= k < end && chars@[k] == ':',
    ensures
        b == segment_ok(chars@.subrange(start as int, end as int)),
{
    let len = end - start;
    let seg = Ghost(chars@.subrange(start as int, end as int));
    if has_colon {
        proof {
            let k = choose|k: int| start <= k < end && chars@[k] == ':';
            assert(seg@[k - start] == ':');
        }
        return false;
    }
    assert forall|k: int| 0 <= k < seg@.len() implies #[trigger] seg@[k] != ':' by {
        assert(seg@[k] == chars@[start + k]);
    }
    !(len == 0 || (len == 1 && chars[start] == '.') || (len == 2 && chars[start] == '.' && chars[start + 1] == '.'))
}

pub fn package_path_ok(path: &str) -> (b: bool)
    ensures
        b == package_path_valid(path@),
{
    let chars = chars_of(path);
    let n = chars.len();
    let ghost p = path@;
    let mut k: usize = 0;
    while k < n
        invariant
            chars@ == p,
            p == path@,
            n == p.len(),
            k <= n,
            forall|m: int| 0 <= m < k ==> #[trigger] p[m] != '\0',
        decreases n - k,
    {
        if chars[k] == '\0' {
            assert(p[k as int] == '\0');
            return false;
        }
        k += 1;
    }
    let mut start: usize = 0;
    let mut has_colon = false;
    k = 0;
    while k < n
        invariant
            chars@ == p,
            p == path@,
            n == p.len(),
            start <= k <= n,
            start == 0 || is_separator(p[start - 1]),
            forall|m: int| start <= m < k ==> !is_separator(#[trigger] p[m]),
            has_colon == exists|m: int| start <= m < k && p[m] == ':',
            forall|i: int, j: int| #[trigger] is_segment(p, i, j) && j < k ==> segment_ok(p.subrange(i, j)),
        decreases n - k,
    {
        if is_separator_exec(chars[k]) {
            assert(is_segment(p, start as int, k as int));
            if !segment_acceptable(chars.as_slice(), start, k, has_colon) {
                assert(!segment_ok(p.subrange(start as int, k as int)));
                return false;
            }
            assert forall|i: int, j: int| #[trigger] is_segment(p, i, j) && j < k + 1 implies segment_ok(p.subrange(i, j)) by {
                if j == k {
                    if i < start {
                        assert(is_separator(p[start - 1]));
                        assert(!is_separator(p[start - 1]));
                    }
                    if i > start {
                        assert(is_separator(p[i - 1]));
                    }
                }
            }
            start = k + 1;
            has_colon = false;
        } else {
            if chars[k] == ':' {
                has_colon = true;
            }
            assert(has_colon == exists|m: int| start <= m < k + 1 && p[m] == ':') by {
                if chars[k as int] == ':' {
                    assert(p[k as int] == ':');
                }
            }
        }
        k += 1;
    }
    assert(is_segment(p, start as int, n as int));
    if !segment_acceptable(chars.as_slice(), start, n, has_colon) {
        return false;
    }
    assert forall|i: int, j: int| #[trigger] is_segment(p, i, j) implies segment_ok(p.subrange(i, j)) by {
        if j == n {
            if i < start {
                assert(is_separator(p[start - 1]));
            }
            if i > start {
                assert(is_separator(p[i - 1]));
            }
        }
    }
    true
}

pub fn validate_package_path(field: &'static str, path: &str) -> (r: Result<(), PluginManifestError>)
    ensures
        outcome_matches(r, package_path_issue(field@, path@)),
{
    if !package_path_ok(path) {
        return Err(PluginManifestError::InvalidPath { field, path: string_from(path) });
    }
    Ok(())
}

pub fn validate_package_relative_path(path: &str) -> (r: Result<(), PluginManifestError>)
    ensures
        outcome_matches(r, package_path_issue("package"@, path@)),
{
    validate_package_path("package", path)
}

} // verus!

verus! {

// ---------------------------------------------------------------------------
// Combining checks: the first problem found wins.

/// `first` when it reports a problem, otherwise `second`.
pub open spec fn or_else(first: Option<ManifestErrorView>, second: Option<ManifestErrorView>) -> Option<ManifestErrorView> {
    if first is Some { first } else { second }
}

/// The first problem among `item(0)`, ..., `item(n - 1)`.
pub open spec fn first_issue(n: int, item: spec_fn(int) -> Option<ManifestErrorView>) -> Option<ManifestErrorView>
    decreases n,
{
    if n <= 0 {
        None
    } else {
        or_else(first_issue(n - 1, item), item(n - 1))
    }
}

/// Once a problem is found, looking at more items does not change it.
pub proof fn lemma_first_issue_stable(n: int, m: int, item: spec_fn(int) -> Option<ManifestErrorView>)
    requires
        0 <= n <= m,
        first_issue(n, item) is Some,
    ensures
        first_issue(m, item) == first_issue(n, item),
    decreases m - n,
{
    if m > n {
        lemma_first_issue_stable(n, m - 1, item);
    }
}

/// When no problem is found among `n` items, item `k` has none.
pub proof fn lemma_first_issue_none(n: int, item: spec_fn(int) -> Option<ManifestErrorView>, k: int)
    requires
        0 <= k < n,
        first_issue(n, item) is None,
    ensures
        item(k) is None,
    decreases n,
{
    if k < n - 1 {
        lemma_first_issue_none(n - 1, item, k);
    }
}

/// Moving past item `i` when nothing was found so far: the outcome so far is item `i`'s
/// own, and when that is a problem it is the final answer for all `n` items.
pub proof fn lemma_first_issue_step(i: int, n: int, item: spec_fn(int) -> Option<ManifestErrorView>)
    requires
        0 <= i < n,
        first_issue(i, item) is None,
    ensures
        first_issue(i + 1, item) == item(i),
        item(i) is Some ==> first_issue(n, item) == item(i),
{
    if item(i) is Some {
        lemma_first_issue_stable(i + 1, n, item);
    }
}

// ---------------------------------------------------------------------------
// Launch templates: `${game.exe}`, `${game.directory}`, `${game.processName}`,
// `${plugin.root}` and `${external.<dependency id>}`.

pub open spec fn dependency_ids(deps: Seq<ExternalDependency>) -> Seq<Seq<char>> {
    deps.map_values(|d: ExternalDependency| d.id@)
}

pub open spec fn is_builtin_variable(var: Seq<char>) -> bool {
    var == "game.exe"@ || var == "game.directory"@ || var == "game.processName"@ || var == "plugin.root"@
}

/// The dependency id named by an `external.<id>` variable.
pub open spec fn external_variable_id(var: Seq<char>) -> Option<Seq<char>> {
    if starts_with(var, "external."@) { Some(var.skip("external."@.len() as int)) } else { None }
}

pub open spec fn template_variable_known(var: Seq<char>, ids: Seq<Seq<char>>) -> bool {
    is_builtin_variable(var) || (external_variable_id(var) matches Some(id) && ids.contains(id))
}

/// The problem in the template `value`, looking from position `from` on.
pub open spec fn template_issue_from(value: Seq<char>, from: int, ids: Seq<Seq<char>>) -> Option<ManifestErrorView>
    decreases value.len() - from,
{
    if from < 0 {
        None
    } else {
        match find_pair_from(value, from, '$', '{') {
            None => None,
            Some(start) => {
                proof { lemma_find_pair_from(value, from, '$', '{'); }
                match find_char_from(value, start + 2, '}') {
                    None => Some(ManifestErrorView::InvalidContribution("unterminated variable in "@ + value)),
                    Some(end) => {
                        proof { lemma_find_char_from(value, start + 2, '}'); }
                        let var = value.subrange(start + 2, end);
                        if template_variable_known(var, ids) {
                            template_issue_from(value, end + 1, ids)
                        } else {
                            Some(ManifestErrorView::InvalidContribution("unsupported variable: ${"@ + var + "}"@))
                        }
                    },
                }
            },
        }
    }
}

/// Every `${...}` in `value` is closed and names a known variable.
pub open spec fn template_issue(value: Seq<char>, ids: Seq<Seq<char>>) -> Option<ManifestErrorView> {
    template_issue_from(value, 0, ids)
}

/// Whether `chars[from..to]` is one of the dependency ids.
fn is_dependency_id(chars: &[char], from: usize, to: usize, deps: &[ExternalDependency]) -> (b: bool)
    requires
        from <= to <= chars@.len(),
    ensures
        b == dependency_ids(deps@).contains(chars@.subrange(from as int, to as int)),
{
    let ghost ids = dependency_ids(deps@);
    let mut i: usize = 0;
    while i < deps.len()
        invariant
            from <= to <= chars@.len(),
            ids == dependency_ids(deps@),
            i <= deps@.len(),
            forall|k: int| 0 <= k < i ==> ids[k] != chars@.subrange(from as int, to as int),
        decreases deps.len() - i,
    {
        let id_chars = chars_of(deps[i].id.as_str());
        if range_eq(chars, from, to, id_chars.as_slice()) {
            assert(ids[i as int] == chars@.subrange(from as int, to as int));
            return true;
        }
        i += 1;
    }
    false
}

/// Whether the variable `chars[from..to]` is one the launcher can fill in.
fn variable_known(chars: &[char], from: usize, to: usize, deps: &[ExternalDependency]) -> (b: bool)
    requires
        from <= to <= chars@.len(),
    ensures
        b == template_variable_known(chars@.subrange(from as int, to as int), dependency_ids(deps@)),
{
    let ghost var = chars@.subrange(from as int, to as int);
    let builtins = [
        chars_of("game.exe"),
        chars_of("game.directory"),
        chars_of("game.processName"),
        chars_of("plugin.root"),
    ];
    if range_eq(chars, from, to, builtins[0].as_slice()) || range_eq(chars, from, to, builtins[1].as_slice())
        || range_eq(chars, from, to, builtins[2].as_slice()) || range_eq(chars, from, to, builtins[3].as_slice()) {
        return true;
    }
    let prefix = chars_of("external.");
    let p = prefix.len();
    if to - from >= p && range_eq(chars, from, from + p, prefix.as_slice()) {
        assert(var.take(p as int) == chars@.subrange(from as int, from + p));
        assert(var.skip(p as int) == chars@.subrange(from + p, to as int));
        is_dependency_id(chars, from + p, to, deps)
    } else {
        assert(to - from >= p ==> var.take(p as int) == chars@.subrange(from as int, from + p));
        false
    }
}

fn unsupported_variable(chars: &[char], from: usize, to: usize) -> (e: PluginManifestError)
    requires
        from <= to <= chars@.len(),
    ensures
        e@ == ManifestErrorView::InvalidContribution("unsupported variable: ${"@ + chars@.subrange(from as int, to as int) + "}"@),
{
    let var = string_of(chars, from, to);
    PluginManifestError::InvalidContribution(concat3("unsupported variable: ${", var.as_str(), "}"))
}

pub fn validate_template(value: &str, deps: &[ExternalDependency]) -> (r: Result<(), PluginManifestError>)
    ensures
        outcome_matches(r, template_issue(value@, dependency_ids(deps@))),
{
    let chars = chars_of(value);
    let ghost ids = dependency_ids(deps@);
    let mut from: usize = 0;
    while from <= chars.len()
        invariant
            chars@ == value@,
            ids == dependency_ids(deps@),
            from <= chars@.len() + 1,
            template_issue(value@, ids) == template_issue_from(value@, from as int, ids),
        decreases chars.len() + 1 - from,
    {
        proof { lemma_find_pair_from(value@, from as int, '$', '{'); }
        let start = match find_pair(chars.as_slice(), from, '$', '{') {
            None => return Ok(()),
            Some(start) => start,
        };
        proof { lemma_find_char_from(value@, start + 2, '}'); }
        let end = match find_char(chars.as_slice(), start + 2, '}') {
            None => return Err(PluginManifestError::InvalidContribution(concat2("unterminated variable in ", value))),
            Some(end) => end,
        };
        if !variable_known(chars.as_slice(), start + 2, end, deps) {
            return Err(unsupported_variable(chars.as_slice(), start + 2, end));
        }
        from = end + 1;
    }
    Ok(())
}

/// Position of the first character at or after `from` that is not `/` or `\`.
pub open spec fn skip_separators_from(s: Seq<char>, from: int) -> int
    decreases s.len() - from,
{
    if from < 0 || from >= s.len() || !is_separator(s[from]) { from } else { skip_separators_from(s, from + 1) }
}

/// For a value that starts with `${plugin.root}` or `${external.`, what follows
/// the first `}` with leading `/` and `\` removed: the part inside the package
/// or dependency directory.
pub open spec fn known_template_rest(value: Seq<char>) -> Option<Seq<char>> {
    match find_char_from(value, 0, '}') {
        None => None,
        Some(end) => if starts_with(value, "${plugin.root}"@) || starts_with(value, "${external."@) {
            Some(value.skip(skip_separators_from(value, end + 1)))
        } else {
            None
        },
    }
}

pub fn strip_known_template_prefix(value: &str) -> (r: Option<&str>)
    ensures
        match r {
            Some(rest) => known_template_rest(value@) == Some(rest@),
            None => known_template_rest(value@) is None,
        },
{
    let chars = chars_of(value);
    let end = match find_char(chars.as_slice(), 0, '}') {
        None => return None,
        Some(end) => end,
    };
    proof { lemma_find_char_from(value@, 0, '}'); }
    let n = chars.len();
    assert(end < n);
    let root = chars_of("${plugin.root}");
    let external = chars_of("${external.");
    if range_starts_with(chars.as_slice(), 0, root.as_slice()) || range_starts_with(chars.as_slice(), 0, external.as_slice()) {
        assert(chars@.skip(0) == chars@);
        let mut k = end + 1;
        while k < chars.len() && is_separator_exec(chars[k])
            invariant
                chars@ == value@,
                end + 1 <= k <= chars@.len(),
                skip_separators_from(value@, end + 1) == skip_separators_from(value@, k as int),
            decreases chars.len() - k,
        {
            k += 1;
        }
        Some(value.substring_char(k, chars.len()))
    } else {
        assert(chars@.skip(0) == chars@);
        None
    }
}

pub open spec fn contains_variable_start(value: Seq<char>) -> bool {
    find_pair_from(value, 0, '$', '{') is Some
}

/// A launcher executable or working directory: not blank, a valid template,
/// and inside the package (or inside a dependency directory after its variable).
pub open spec fn launcher_path_issue(field: Seq<char>, value: Seq<char>, ids: Seq<Seq<char>>) -> Option<ManifestErrorView> {
    or_else(non_empty_issue(field, value), or_else(template_issue(value, ids),
        if !contains_variable_start(value) {
            package_path_issue(field, value)
        } else {
            match known_template_rest(value) {
                Some(rest) => if rest.len() > 0 { package_path_issue(field, rest) } else { None },
                None => None,
            }
        }))
}

pub fn validate_launcher_path(field: &'static str, value: &str, deps: &[ExternalDependency]) -> (r: Result<(), PluginManifestError>)
    ensures
        outcome_matches(r, launcher_path_issue(field@, value@, dependency_ids(deps@))),
{
    validate_non_empty(field, value)?;
    validate_template(value, deps)?;
    let chars = chars_of(value);
    if find_pair(chars.as_slice(), 0, '$', '{').is_none() {
        validate_package_path(field, value)?;
    } else if let Some(package_path) = strip_known_template_prefix(value) {
        if !package_path.is_empty() {
            validate_package_path(field, package_path)?;
        }
    }
    Ok(())
}

} // verus!

verus! {

// ---------------------------------------------------------------------------
// Contributions

/// A path with every `\` turned into `/`.
pub open spec fn normalize_separators(s: Seq<char>) -> Seq<char> {
    s.map_values(|c: char| if c == '\\' { '/' } else { c })
}

/// Whether `a` and `b` are the same path once `\` is read as `/`.
pub fn same_normalized_path(a: &str, b: &str) -> (r: bool)
    ensures
        r == (normalize_separators(a@) == normalize_separators(b@)),
{
    let ac = chars_of(a);
    let bc = chars_of(b);
    if ac.len() != bc.len() {
        assert(normalize_separators(a@).len() != normalize_separators(b@).len());
        return false;
    }
    let mut i: usize = 0;
    while i < ac.len()
        invariant
            ac@ == a@,
            bc@ == b@,
            ac@.len() == bc@.len(),
            i <= ac@.len(),
            forall|k: int| 0 <= k < i ==> normalize_separators(a@)[k] == normalize_separators(b@)[k],
        decreases ac.len() - i,
    {
        let x = if ac[i] == '\\' { '/' } else { ac[i] };
        let y = if bc[i] == '\\' { '/' } else { bc[i] };
        if x != y {
            assert(normalize_separators(a@)[i as int] != normalize_separators(b@)[i as int]);
            return false;
        }
        i += 1;
    }
    assert(normalize_separators(a@) =~= normalize_separators(b@));
    true
}

pub open spec fn runtime_plugin_item_issue(ps: Seq<RuntimePluginContribution>, k: int) -> Option<ManifestErrorView> {
    or_else(
        package_path_issue("runtime plugin"@, ps[k].path@),
        if exists|j: int| 0 <= j < k && #[trigger] normalize_separators(ps[j].path@) == normalize_separators(ps[k].path@) {
            Some(ManifestErrorView::DuplicateValue { field: "runtime plugin path"@, value: ps[k].path@ })
        } else {
            None
        },
    )
}

pub open spec fn runtime_plugin_items(ps: Seq<RuntimePluginContribution>) -> spec_fn(int) -> Option<ManifestErrorView> {
    |k: int| runtime_plugin_item_issue(ps, k)
}

/// Runtime plugin paths stay in the package and are distinct (reading `\` as `/`).
pub open spec fn runtime_plugins_issue(ps: Seq<RuntimePluginContribution>) -> Option<ManifestErrorView> {
    first_issue(ps.len() as int, runtime_plugin_items(ps))
}

fn check_runtime_plugin(ps: &[RuntimePluginContribution], k: usize) -> (r: Result<(), PluginManifestError>)
    requires
        k < ps@.len(),
    ensures
        outcome_matches(r, runtime_plugin_item_issue(ps@, k as int)),
{
    validate_package_path("runtime plugin", ps[k].path.as_str())?;
    let mut j: usize = 0;
    while j < k
        invariant
            k < ps@.len(),
            j <= k,
            package_path_issue("runtime plugin"@, ps@[k as int].path@) is None,
            forall|m: int| 0 <= m < j ==> #[trigger] normalize_separators(ps@[m].path@) != normalize_separators(ps@[k as int].path@),
        decreases k - j,
    {
        if same_normalized_path(ps[j].path.as_str(), ps[k].path.as_str()) {
            assert(normalize_separators(ps@[j as int].path@) == normalize_separators(ps@[k as int].path@));
            return Err(PluginManifestError::DuplicateValue { field: "runtime plugin path", value: ps[k].path.clone() });
        }
        j += 1;
    }
    Ok(())
}

pub open spec fn ui_page_item_issue(pages: Seq<UiPageContribution>, k: int) -> Option<ManifestErrorView> {
    or_else(plugin_id_issue(pages[k].id@), or_else(non_empty_issue("UI page route"@, pages[k].route@),
        or_else(package_path_issue("UI page"@, pages[k].path@),
            if exists|j: int| 0 <= j < k && #[trigger] pages[j].route@ == pages[k].route@ {
                Some(ManifestErrorView::DuplicateValue { field: "UI page route"@, value: pages[k].route@ })
            } else {
                None
            })))
}

pub open spec fn ui_page_items(pages: Seq<UiPageContribution>) -> spec_fn(int) -> Option<ManifestErrorView> {
    |k: int| ui_page_item_issue(pages, k)
}

/// UI pages have valid ids, non-blank distinct routes and package paths.
pub open spec fn ui_pages_issue(pages: Seq<UiPageContribution>) -> Option<ManifestErrorView> {
    first_issue(pages.len() as int, ui_page_items(pages))
}

fn check_ui_page(pages: &[UiPageContribution], k: usize) -> (r: Result<(), PluginManifestError>)
    requires
        k < pages@.len(),
    ensures
        outcome_matches(r, ui_page_item_issue(pages@, k as int)),
{
    let page = &pages[k];
    validate_plugin_id(page.id.as_str())?;
    validate_non_empty("UI page route", page.route.as_str())?;
    validate_package_path("UI page", page.path.as_str())?;
    let mut j: usize = 0;
    while j < k
        invariant
            k < pages@.len(),
            j <= k,
            plugin_id_issue(pages@[k as int].id@) is None,
            non_empty_issue("UI page route"@, pages@[k as int].route@) is None,
            package_path_issue("UI page"@, pages@[k as int].path@) is None,
            forall|m: int| 0 <= m < j ==> #[trigger] pages@[m].route@ != pages@[k as int].route@,
        decreases k - j,
    {
        if str_eq(pages[j].route.as_str(), pages[k].route.as_str()) {
            assert(pages@[j as int].route@ == pages@[k as int].route@);
            return Err(PluginManifestError::DuplicateValue { field: "UI page route", value: pages[k].route.clone() });
        }
        j += 1;
    }
    Ok(())
}

pub open spec fn argument_items(args: Seq<String>, ids: Seq<Seq<char>>) -> spec_fn(int) -> Option<ManifestErrorView> {
    |k: int| template_issue(args[k]@, ids)
}

pub open spec fn arguments_issue(args: Seq<String>, ids: Seq<Seq<char>>) -> Option<ManifestErrorView> {
    first_issue(args.len() as int, argument_items(args, ids))
}

pub open spec fn ready_issue(ready: Option<ReadyCondition>) -> Option<ManifestErrorView> {
    match ready {
        Some(r) => if r.timeout_ms == 0 {
            Some(ManifestErrorView::InvalidContribution("ready timeoutMs must be greater than zero"@))
        } else if r.kind != ReadyConditionType::ProcessExited && (r.value is None || r.value->0@.len() == 0) {
            Some(ManifestErrorView::InvalidContribution("ready condition requires a non-empty value"@))
        } else {
            None
        },
        None => None,
    }
}

pub open spec fn optional_launcher_path_issue(field: Seq<char>, value: Option<String>, ids: Seq<Seq<char>>) -> Option<ManifestErrorView> {
    match value {
        Some(v) => launcher_path_issue(field, v@, ids),
        None => None,
    }
}

pub open spec fn launcher_adapter_issue(a: LauncherAdapterContribution, ids: Seq<Seq<char>>) -> Option<ManifestErrorView> {
    or_else(launcher_path_issue("launcher executable"@, a.executable@, ids),
        or_else(optional_launcher_path_issue("launcher working directory"@, a.working_directory, ids),
            or_else(arguments_issue(a.arguments@, ids), ready_issue(a.ready))))
}

pub open spec fn launcher_adapter_items(adapters: Seq<LauncherAdapterContribution>, ids: Seq<Seq<char>>) -> spec_fn(int) -> Option<ManifestErrorView> {
    |k: int| launcher_adapter_issue(adapters[k], ids)
}

/// Launcher adapters: executable and working directory are launcher paths,
/// arguments are templates, and a ready condition has a timeout and (unless it
/// waits for the process to exit) a non-empty value.
pub open spec fn launcher_adapters_issue(adapters: Seq<LauncherAdapterContribution>, ids: Seq<Seq<char>>) -> Option<ManifestErrorView> {
    first_issue(adapters.len() as int, launcher_adapter_items(adapters, ids))
}

fn check_launcher_adapter(a: &LauncherAdapterContribution, deps: &[ExternalDependency]) -> (r: Result<(), PluginManifestError>)
    ensures
        outcome_matches(r, launcher_adapter_issue(*a, dependency_ids(deps@))),
{
    let ghost ids = dependency_ids(deps@);
    validate_launcher_path("launcher executable", a.executable.as_str(), deps)?;
    if let Some(working_directory) = &a.working_directory {
        validate_launcher_path("launcher working directory", working_directory.as_str(), deps)?;
    }
    let mut i: usize = 0;
    while i < a.arguments.len()
        invariant
            ids == dependency_ids(deps@),
            launcher_path_issue("launcher executable"@, a.executable@, ids) is None,
            optional_launcher_path_issue("launcher working directory"@, a.working_directory, ids) is None,
            i <= a.arguments@.len(),
            first_issue(i as int, argument_items(a.arguments@, ids)) is None,
        decreases a.arguments.len() - i,
    {
        let r = validate_template(a.arguments[i].as_str(), deps);
        proof { lemma_first_issue_step(i as int, a.arguments@.len() as int, argument_items(a.arguments@, ids)); }
        if r.is_err() {
            return r;
        }
        i += 1;
    }
    if let Some(ready) = &a.ready {
        if ready.timeout_ms == 0 {
            return Err(PluginManifestError::InvalidContribution(string_from("ready timeoutMs must be greater than zero")));
        }
        let waits_for_output = match ready.kind {
            ReadyConditionType::ProcessExited => false,
            _ => true,
        };
        let missing_value = match &ready.value {
            None => true,
            Some(v) => v.as_str().is_empty(),
        };
        if waits_for_output && missing_value {
            return Err(PluginManifestError::InvalidContribution(string_from("ready condition requires a non-empty value")));
        }
    }
    Ok(())
}

pub open spec fn external_manager_item_issue(managers: Seq<ExternalManagerContribution>, k: int, ids: Seq<Seq<char>>) -> Option<ManifestErrorView> {
    or_else(plugin_id_issue(managers[k].id@),
        or_else(
            if exists|j: int| 0 <= j < k && #[trigger] managers[j].id@ == managers[k].id@ {
                Some(ManifestErrorView::DuplicateValue { field: "external manager id"@, value: managers[k].id@ })
            } else {
                None
            },
            or_else(launcher_path_issue("external manager executable"@, managers[k].executable@, ids),
                optional_launcher_path_issue("external manager working directory"@, managers[k].working_directory, ids))))
}

pub open spec fn external_manager_items(managers: Seq<ExternalManagerContribution>, ids: Seq<Seq<char>>) -> spec_fn(int) -> Option<ManifestErrorView> {
    |k: int| external_manager_item_issue(managers, k, ids)
}

/// External managers have valid distinct ids and launcher paths.
pub open spec fn external_managers_issue(managers: Seq<ExternalManagerContribution>, ids: Seq<Seq<char>>) -> Option<ManifestErrorView> {
    first_issue(managers.len() as int, external_manager_items(managers, ids))
}

fn check_external_manager(managers: &[ExternalManagerContribution], k: usize, deps: &[ExternalDependency]) -> (r: Result<(), PluginManifestError>)
    requires
        k < managers@.len(),
    ensures
        outcome_matches(r, external_manager_item_issue(managers@, k as int, dependency_ids(deps@))),
{
    let manager = &managers[k];
    validate_plugin_id(manager.id.as_str())?;
    let mut j: usize = 0;
    while j < k
        invariant
            k < managers@.len(),
            j <= k,
            plugin_id_issue(managers@[k as int].id@) is None,
            forall|m: int| 0 <= m < j ==> #[trigger] managers@[m].id@ != managers@[k as int].id@,
        decreases k - j,
    {
        if str_eq(managers[j].id.as_str(), managers[k].id.as_str()) {
            assert(managers@[j as int].id@ == managers@[k as int].id@);
            return Err(PluginManifestError::DuplicateValue { field: "external manager id", value: managers[k].id.clone() });
        }
        j += 1;
    }
    validate_launcher_path("external manager executable", manager.executable.as_str(), deps)?;
    if let Some(working_directory) = &manager.working_directory {
        validate_launcher_path("external manager working directory", working_directory.as_str(), deps)?;
    }
    Ok(())
}

/// All contribution rules, in the order runtime plugins, UI pages, launcher
/// adapters, external managers.
pub open spec fn contributions_issue(c: PluginContributions, deps: Seq<ExternalDependency>) -> Option<ManifestErrorView> {
    let ids = dependency_ids(deps);
    or_else(runtime_plugins_issue(c.runtime_plugins@), or_else(ui_pages_issue(c.ui_pages@),
        or_else(launcher_adapters_issue(c.launcher_adapters@, ids), external_managers_issue(c.external_managers@, ids))))
}

pub fn validate_contributions(contributions: &PluginContributions, dependencies: &[ExternalDependency]) -> (r: Result<(), PluginManifestError>)
    ensures
        outcome_matches(r, contributions_issue(*contributions, dependencies@)),
{
    let ghost ids = dependency_ids(dependencies@);
    let runtime_plugins = contributions.runtime_plugins.as_slice();
    let mut i: usize = 0;
    while i < runtime_plugins.len()
        invariant
            runtime_plugins@ == contributions.runtime_plugins@,
            i <= runtime_plugins@.len(),
            first_issue(i as int, runtime_plugin_items(runtime_plugins@)) is None,
        decreases runtime_plugins.len() - i,
    {
        let r = check_runtime_plugin(runtime_plugins, i);
        proof { lemma_first_issue_step(i as int, runtime_plugins@.len() as int, runtime_plugin_items(runtime_plugins@)); }
        if r.is_err() {
            return r;
        }
        i += 1;
    }
    let pages = contributions.ui_pages.as_slice();
    let mut i: usize = 0;
    while i < pages.len()
        invariant
            pages@ == contributions.ui_pages@,
            runtime_plugins_issue(contributions.runtime_plugins@) is None,
            i <= pages@.len(),
            first_issue(i as int, ui_page_items(pages@)) is None,
        decreases pages.len() - i,
    {
        let r = check_ui_page(pages, i);
        proof { lemma_first_issue_step(i as int, pages@.len() as int, ui_page_items(pages@)); }
        if r.is_err() {
            return r;
        }
        i += 1;
    }
    let adapters = contributions.launcher_adapters.as_slice();
    let mut i: usize = 0;
    while i < adapters.len()
        invariant
            adapters@ == contributions.launcher_adapters@,
            ids == dependency_ids(dependencies@),
            runtime_plugins_issue(contributions.runtime_plugins@) is None,
            ui_pages_issue(contributions.ui_pages@) is None,
            i <= adapters@.len(),
            first_issue(i as int, launcher_adapter_items(adapters@, ids)) is None,
        decreases adapters.len() - i,
    {
        let r = check_launcher_adapter(&adapters[i], dependencies);
        proof { lemma_first_issue_step(i as int, adapters@.len() as int, launcher_adapter_items(adapters@, ids)); }
        if r.is_err() {
            return r;
        }
        i += 1;
    }
    let managers = contributions.external_managers.as_slice();
    let mut i: usize = 0;
    while i < managers.len()
        invariant
            managers@ == contributions.external_managers@,
            ids == dependency_ids(dependencies@),
            runtime_plugins_issue(contributions.runtime_plugins@) is None,
            ui_pages_issue(contributions.ui_pages@) is None,
            launcher_adapters_issue(contributions.launcher_adapters@, ids) is None,
            i <= managers@.len(),
            first_issue(i as int, external_manager_items(managers@, ids)) is None,
        decreases managers.len() - i,
    {
        let r = check_external_manager(managers, i, dependencies);
        proof { lemma_first_issue_step(i as int, managers@.len() as int, external_manager_items(managers@, ids)); }
        if r.is_err() {
            return r;
        }
        i += 1;
    }
    Ok(())
}

} // verus!

verus! {

// ---------------------------------------------------------------------------
// External dependencies, permissions, platforms

pub open spec fn required_file_items(files: Seq<String>) -> spec_fn(int) -> Option<ManifestErrorView> {
    |f: int| if package_path_valid(files[f]@) {
        None
    } else {
        Some(ManifestErrorView::InvalidExternalDependency("invalid required file path: "@ + files[f]@))
    }
}

pub open spec fn external_dependency_item_issue(deps: Seq<ExternalDependency>, k: int) -> Option<ManifestErrorView> {
    if !plugin_id_valid(deps[k].id@) {
        Some(ManifestErrorView::InvalidExternalDependency("invalid id: "@ + deps[k].id@))
    } else if exists|j: int| 0 <= j < k && #[trigger] deps[j].id@ == deps[k].id@ {
        Some(ManifestErrorView::DuplicateValue { field: "external dependency id"@, value: deps[k].id@ })
    } else {
        first_issue(deps[k].required_files@.len() as int, required_file_items(deps[k].required_files@))
    }
}

pub open spec fn external_dependency_items(deps: Seq<ExternalDependency>) -> spec_fn(int) -> Option<ManifestErrorView> {
    |k: int| external_dependency_item_issue(deps, k)
}

/// Dependencies have valid distinct ids and required files inside the dependency directory.
pub open spec fn external_dependencies_issue(deps: Seq<ExternalDependency>) -> Option<ManifestErrorView> {
    first_issue(deps.len() as int, external_dependency_items(deps))
}

fn check_external_dependency(deps: &[ExternalDependency], k: usize) -> (r: Result<(), PluginManifestError>)
    requires
        k < deps@.len(),
    ensures
        outcome_matches(r, external_dependency_item_issue(deps@, k as int)),
{
    let dependency = &deps[k];
    if !plugin_id_ok(dependency.id.as_str()) {
        return Err(PluginManifestError::InvalidExternalDependency(concat2("invalid id: ", dependency.id.as_str())));
    }
    let mut j: usize = 0;
    while j < k
        invariant
            k < deps@.len(),
            j <= k,
            plugin_id_valid(deps@[k as int].id@),
            forall|m: int| 0 <= m < j ==> #[trigger] deps@[m].id@ != deps@[k as int].id@,
        decreases k - j,
    {
        if str_eq(deps[j].id.as_str(), deps[k].id.as_str()) {
            assert(deps@[j as int].id@ == deps@[k as int].id@);
            return Err(PluginManifestError::DuplicateValue { field: "external dependency id", value: deps[k].id.clone() });
        }
        j += 1;
    }
    let files = dependency.required_files.as_slice();
    let mut f: usize = 0;
    while f < files.len()
        invariant
            k < deps@.len(),
            files@ == deps@[k as int].required_files@,
            plugin_id_valid(deps@[k as int].id@),
            forall|m: int| 0 <= m < k ==> #[trigger] deps@[m].id@ != deps@[k as int].id@,
            f <= files@.len(),
            first_issue(f as int, required_file_items(files@)) is None,
        decreases files.len() - f,
    {
        proof { lemma_first_issue_step(f as int, files@.len() as int, required_file_items(files@)); }
        if !package_path_ok(files[f].as_str()) {
            return Err(PluginManifestError::InvalidExternalDependency(concat2("invalid required file path: ", files[f].as_str())));
        }
        f += 1;
    }
    Ok(())
}

pub fn validate_external_dependencies(dependencies: &[ExternalDependency]) -> (r: Result<(), PluginManifestError>)
    ensures
        outcome_matches(r, external_dependencies_issue(dependencies@)),
{
    let mut i: usize = 0;
    while i < dependencies.len()
        invariant
            i <= dependencies@.len(),
            first_issue(i as int, external_dependency_items(dependencies@)) is None,
        decreases dependencies.len() - i,
    {
        let r = check_external_dependency(dependencies, i);
        proof { lemma_first_issue_step(i as int, dependencies@.len() as int, external_dependency_items(dependencies@)); }
        if r.is_err() {
            return r;
        }
        i += 1;
    }
    Ok(())
}

/// The name that `{:?}` prints for a permission.
pub open spec fn permission_debug_name(p: PluginPermission) -> Seq<char> {
    match p {
        PluginPermission::ProcessSpawn => "ProcessSpawn"@,
        PluginPermission::ProcessObserve => "ProcessObserve"@,
        PluginPermission::GameLaunch => "GameLaunch"@,
        PluginPermission::FilesystemRead => "FilesystemRead"@,
        PluginPermission::FilesystemWrite => "FilesystemWrite"@,
        PluginPermission::NativeInject => "NativeInject"@,
        PluginPermission::Network => "Network"@,
    }
}

/// The name a manifest uses for each permission.
pub open spec fn permission_schema_name(p: PluginPermission) -> Seq<char> {
    match p {
        PluginPermission::ProcessSpawn => "process.spawn"@,
        PluginPermission::ProcessObserve => "process.observe"@,
        PluginPermission::GameLaunch => "game.launch"@,
        PluginPermission::FilesystemRead => "filesystem.read"@,
        PluginPermission::FilesystemWrite => "filesystem.write"@,
        PluginPermission::NativeInject => "native.inject"@,
        PluginPermission::Network => "network"@,
    }
}

impl PluginPermission {
    /// The name that `{:?}` prints for this permission.
    pub fn debug_name(&self) -> (s: &'static str)
        ensures
            s@ == permission_debug_name(*self),
    {
        match self {
            PluginPermission::ProcessSpawn => "ProcessSpawn",
            PluginPermission::ProcessObserve => "ProcessObserve",
            PluginPermission::GameLaunch => "GameLaunch",
            PluginPermission::FilesystemRead => "FilesystemRead",
            PluginPermission::FilesystemWrite => "FilesystemWrite",
            PluginPermission::NativeInject => "NativeInject",
            PluginPermission::Network => "Network",
        }
    }

    /// The name a manifest uses for this permission (`process.spawn`, ...).
    pub fn schema_name(&self) -> (s: &'static str)
        ensures
            s@ == permission_schema_name(*self),
    {
        match self {
            PluginPermission::ProcessSpawn => "process.spawn",
            PluginPermission::ProcessObserve => "process.observe",
            PluginPermission::GameLaunch => "game.launch",
            PluginPermission::FilesystemRead => "filesystem.read",
            PluginPermission::FilesystemWrite => "filesystem.write",
            PluginPermission::NativeInject => "native.inject",
            PluginPermission::Network => "network",
        }
    }
}

pub open spec fn permission_item_issue(perms: Seq<PluginPermission>, k: int) -> Option<ManifestErrorView> {
    if exists|j: int| 0 <= j < k && #[trigger] perms[j] == perms[k] {
        Some(ManifestErrorView::InvalidPermission("duplicate permission: "@ + permission_debug_name(perms[k])))
    } else {
        None
    }
}

pub open spec fn permission_items(perms: Seq<PluginPermission>) -> spec_fn(int) -> Option<ManifestErrorView> {
    |k: int| permission_item_issue(perms, k)
}

/// No permission is listed twice.
pub open spec fn permissions_issue(perms: Seq<PluginPermission>) -> Option<ManifestErrorView> {
    first_issue(perms.len() as int, permission_items(perms))
}

pub fn validate_permissions(permissions: &[PluginPermission]) -> (r: Result<(), PluginManifestError>)
    ensures
        outcome_matches(r, permissions_issue(permissions@)),
{
    let mut i: usize = 0;
    while i < permissions.len()
        invariant
            i <= permissions@.len(),
            first_issue(i as int, permission_items(permissions@)) is None,
        decreases permissions.len() - i,
    {
        proof { lemma_first_issue_step(i as int, permissions@.len() as int, permission_items(permissions@)); }
        let mut j: usize = 0;
        while j < i
            invariant
                i < permissions@.len(),
                j <= i,
                first_issue(i as int, permission_items(permissions@)) is None,
                forall|m: int| 0 <= m < j ==> #[trigger] permissions@[m] != permissions@[i as int],
            decreases i - j,
        {
            if permissions[j] == permissions[i] {
                assert(permissions@[j as int] == permissions@[i as int]);
                proof { lemma_first_issue_step(i as int, permissions@.len() as int, permission_items(permissions@)); }
                return Err(PluginManifestError::InvalidPermission(concat2("duplicate permission: ", permissions[i].debug_name())));
            }
            j += 1;
        }
        i += 1;
    }
    Ok(())
}

pub open spec fn platform_item_issue(platforms: Seq<String>, k: int) -> Option<ManifestErrorView> {
    if platforms[k]@ != SUPPORTED_PLATFORM@ {
        Some(ManifestErrorView::UnsupportedPlatform(platforms[k]@))
    } else if exists|j: int| 0 <= j < k && #[trigger] platforms[j]@ == platforms[k]@ {
        Some(ManifestErrorView::DuplicateValue { field: "platform"@, value: platforms[k]@ })
    } else {
        None
    }
}

pub open spec fn platform_items(platforms: Seq<String>) -> spec_fn(int) -> Option<ManifestErrorView> {
    |k: int| platform_item_issue(platforms, k)
}

/// Every platform is `windows-x64`, and none is listed twice.
pub open spec fn platforms_issue(platforms: Seq<String>) -> Option<ManifestErrorView> {
    first_issue(platforms.len() as int, platform_items(platforms))
}

fn validate_platforms(platforms: &[String]) -> (r: Result<(), PluginManifestError>)
    ensures
        outcome_matches(r, platforms_issue(platforms@)),
{
    let mut i: usize = 0;
    while i < platforms.len()
        invariant
            i <= platforms@.len(),
            first_issue(i as int, platform_items(platforms@)) is None,
        decreases platforms.len() - i,
    {
        proof { lemma_first_issue_step(i as int, platforms@.len() as int, platform_items(platforms@)); }
        if !str_eq(platforms[i].as_str(), SUPPORTED_PLATFORM) {
            return Err(PluginManifestError::UnsupportedPlatform(platforms[i].clone()));
        }
        let mut j: usize = 0;
        while j < i
            invariant
                i < platforms@.len(),
                j <= i,
                platforms@[i as int]@ == SUPPORTED_PLATFORM@,
                first_issue(i as int, platform_items(platforms@)) is None,
                forall|m: int| 0 <= m < j ==> #[trigger] platforms@[m]@ != platforms@[i as int]@,
            decreases i - j,
        {
            if str_eq(platforms[j].as_str(), platforms[i].as_str()) {
                assert(platforms@[j as int]@ == platforms@[i as int]@);
                proof { lemma_first_issue_step(i as int, platforms@.len() as int, platform_items(platforms@)); }
                return Err(PluginManifestError::DuplicateValue { field: "platform", value: platforms[i].clone() });
            }
            j += 1;
        }
        i += 1;
    }
    Ok(())
}

// ---------------------------------------------------------------------------
// The whole manifest

/// A requirement with the wildcards `X`, `x` and `*` read as `0`.
pub open spec fn normalize_requirement(r: Seq<char>) -> Seq<char> {
    r.map_values(|c: char| if c == 'X' || c == 'x' || c == '*' { '0' } else { c })
}

pub fn normalize_version_requirement(requirement: &str) -> (out: String)
    ensures
        out@ == normalize_requirement(requirement@),
{
    let chars = chars_of(requirement);
    let mut out = String::new();
    let mut i: usize = 0;
    while i < chars.len()
        invariant
            chars@ == requirement@,
            i <= chars@.len(),
            out@ == normalize_requirement(requirement@).take(i as int),
        decreases chars.len() - i,
    {
        let c = chars[i];
        let d = if c == 'X' || c == 'x' || c == '*' { '0' } else { c };
        push_char(&mut out, d);
        assert(normalize_requirement(requirement@).take(i + 1) == normalize_requirement(requirement@).take(i as int).push(d));
        i += 1;
    }
    assert(normalize_requirement(requirement@).take(i as int) == normalize_requirement(requirement@));
    out
}

/// Everything `PluginManifest::validate` checks, in its order; `None` when the
/// manifest is acceptable.
pub open spec fn manifest_issue(m: PluginManifest) -> Option<ManifestErrorView> {
    if m.schema_version != PLUGIN_MANIFEST_SCHEMA_VERSION {
        Some(ManifestErrorView::UnsupportedSchemaVersion(m.schema_version))
    } else {
        or_else(plugin_id_issue(m.id@),
        or_else(non_empty_issue("name"@, m.name@),
        or_else(non_empty_issue("author"@, m.author@),
        or_else(if semver_version_parses(m.version@) { None } else { Some(ManifestErrorView::InvalidVersion(m.version@)) },
        or_else(if m.compatibility.platforms@.len() == 0 {
                Some(ManifestErrorView::InvalidCompatibility("at least one platform is required"@))
            } else {
                None
            },
        or_else(if semver_requirement_parses(normalize_requirement(m.compatibility.ssmt@)) {
                None
            } else {
                Some(ManifestErrorView::InvalidCompatibility(m.compatibility.ssmt@))
            },
        or_else(platforms_issue(m.compatibility.platforms@),
        or_else(contributions_issue(m.contributions, m.external_dependencies@),
        or_else(external_dependencies_issue(m.external_dependencies@),
                permissions_issue(m.permissions@))))))))))
    }
}

impl PluginManifest {
    pub fn validate(&self) -> (r: Result<(), PluginManifestError>)
        ensures
            outcome_matches(r, manifest_issue(*self)),
    {
        if self.schema_version != PLUGIN_MANIFEST_SCHEMA_VERSION {
            return Err(PluginManifestError::UnsupportedSchemaVersion(self.schema_version));
        }
        validate_plugin_id(self.id.as_str())?;
        validate_non_empty("name", self.name.as_str())?;
        validate_non_empty("author", self.author.as_str())?;
        if !version_parses(self.version.as_str()) {
            return Err(PluginManifestError::InvalidVersion(self.version.clone()));
        }
        if self.compatibility.platforms.len() == 0 {
            return Err(PluginManifestError::InvalidCompatibility(string_from("at least one platform is required")));
        }
        let requirement = normalize_version_requirement(self.compatibility.ssmt.as_str());
        if !requirement_parses(requirement.as_str()) {
            return Err(PluginManifestError::InvalidCompatibility(self.compatibility.ssmt.clone()));
        }
        validate_platforms(self.compatibility.platforms.as_slice())?;
        validate_contributions(&self.contributions, self.external_dependencies.as_slice())?;
        validate_external_dependencies(self.external_dependencies.as_slice())?;
        validate_permissions(self.permissions.as_slice())?;
        Ok(())
    }
}

/// The first manifest whose id an earlier one already has, if any.
pub open spec fn duplicate_id_issue(ids: Seq<Seq<char>>) -> Option<ManifestErrorView> {
    first_issue(ids.len() as int, |k: int| if exists|j: int| 0 <= j < k && #[trigger] ids[j] == ids[k] {
        Some(ManifestErrorView::DuplicatePluginId(ids[k]))
    } else {
        None
    })
}

pub open spec fn manifest_ids(manifests: Seq<&PluginManifest>) -> Seq<Seq<char>> {
    manifests.map_values(|m: &PluginManifest| m.id@)
}

pub fn validate_unique_plugin_ids(manifests: &[&PluginManifest]) -> (r: Result<(), PluginManifestError>)
    ensures
        outcome_matches(r, duplicate_id_issue(manifest_ids(manifests@))),
{
    let ghost ids = manifest_ids(manifests@);
    let ghost items = |k: int| if exists|j: int| 0 <= j < k && #[trigger] ids[j] == ids[k] {
        Some(ManifestErrorView::DuplicatePluginId(ids[k]))
    } else {
        None
    };
    assert(duplicate_id_issue(ids) == first_issue(ids.len() as int, items));
    let mut i: usize = 0;
    while i < manifests.len()
        invariant
            ids == manifest_ids(manifests@),
            duplicate_id_issue(ids) == first_issue(ids.len() as int, items),
            items == (|k: int| if exists|j: int| 0 <= j < k && #[trigger] ids[j] == ids[k] {
                Some(ManifestErrorView::DuplicatePluginId(ids[k]))
            } else {
                None
            }),
            i <= manifests@.len(),
            first_issue(i as int, items) is None,
        decreases manifests.len() - i,
    {
        proof { lemma_first_issue_step(i as int, manifests@.len() as int, items); }
        let mut j: usize = 0;
        while j < i
            invariant
                ids == manifest_ids(manifests@),
                duplicate_id_issue(ids) == first_issue(ids.len() as int, items),
                items == (|k: int| if exists|j: int| 0 <= j < k && #[trigger] ids[j] == ids[k] {
                    Some(ManifestErrorView::DuplicatePluginId(ids[k]))
                } else {
                    None
                }),
                first_issue(i as int, items) is None,
                i < manifests@.len(),
                j <= i,
                forall|m: int| 0 <= m < j ==> #[trigger] ids[m] != ids[i as int],
            decreases i - j,
        {
            if str_eq(manifests[j].id.as_str(), manifests[i].id.as_str()) {
                assert(ids[j as int] == ids[i as int]);
                proof { lemma_first_issue_step(i as int, manifests@.len() as int, items); }
                return Err(PluginManifestError::DuplicatePluginId(manifests[i].id.clone()));
            }
            j += 1;
        }
        i += 1;
    }
    Ok(())
}

} // verus!

verus! {

#[derive(Debug, Clone, PartialEq, Eq)]
pub enum PluginContribution {
    RuntimePlugin(RuntimePluginContribution),
    LauncherAdapter(LauncherAdapterContribution),
    UiPage(UiPageContribution),
}

// ---------------------------------------------------------------------------
// Copies that keep every field (the derived `Clone` carries no contract here).
// Two values with vectors inside are the same when their fields are, vectors
// compared by their elements.

pub open spec fn adapter_same(a: LauncherAdapterContribution, b: LauncherAdapterContribution) -> bool {
    &&& a.kind == b.kind
    &&& a.executable == b.executable
    &&& a.arguments@ == b.arguments@
    &&& a.working_directory == b.working_directory
    &&& a.ready == b.ready
    &&& a.failure_policy == b.failure_policy
}

pub open spec fn dependency_same(a: ExternalDependency, b: ExternalDependency) -> bool {
    &&& a.id == b.id
    &&& a.kind == b.kind
    &&& a.required_files@ == b.required_files@
}

pub open spec fn contributions_same(a: PluginContributions, b: PluginContributions) -> bool {
    &&& a.runtime_plugins@ == b.runtime_plugins@
    &&& a.launcher_adapters@.len() == b.launcher_adapters@.len()
    &&& forall|i: int| 0 <= i < a.launcher_adapters@.len() ==> adapter_same(#[trigger] a.launcher_adapters@[i], b.launcher_adapters@[i])
    &&& a.external_managers@ == b.external_managers@
    &&& a.ui_pages@ == b.ui_pages@
}

pub open spec fn manifest_same(a: PluginManifest, b: PluginManifest) -> bool {
    &&& a.schema_version == b.schema_version
    &&& a.id == b.id
    &&& a.name == b.name
    &&& a.version == b.version
    &&& a.author == b.author
    &&& a.compatibility.ssmt == b.compatibility.ssmt
    &&& a.compatibility.platforms@ == b.compatibility.platforms@
    &&& contributions_same(a.contributions, b.contributions)
    &&& a.external_dependencies@.len() == b.external_dependencies@.len()
    &&& forall|i: int| 0 <= i < a.external_dependencies@.len() ==> dependency_same(#[trigger] a.external_dependencies@[i], b.external_dependencies@[i])
    &&& a.permissions@ == b.permissions@
}

pub fn copy_strings(v: &Vec<String>) -> (c: Vec<String>)
    ensures
        c@ == v@,
{
    let c = v.clone();
    assert(c@ =~= v@);
    c
}

pub fn copy_opt_string(o: &Option<String>) -> (c: Option<String>)
    ensures
        c == *o,
{
    match o {
        Some(s) => Some(s.clone()),
        None => None,
    }
}

pub fn copy_ready(ready: &Option<ReadyCondition>) -> (c: Option<ReadyCondition>)
    ensures
        c == *ready,
{
    match ready {
        None => None,
        Some(rc) => Some(ReadyCondition { kind: rc.kind, value: copy_opt_string(&rc.value), timeout_ms: rc.timeout_ms }),
    }
}

pub fn copy_permission(p: &PluginPermission) -> (c: PluginPermission)
    ensures
        c == *p,
{
    match p {
        PluginPermission::ProcessSpawn => PluginPermission::ProcessSpawn,
        PluginPermission::ProcessObserve => PluginPermission::ProcessObserve,
        PluginPermission::GameLaunch => PluginPermission::GameLaunch,
        PluginPermission::FilesystemRead => PluginPermission::FilesystemRead,
        PluginPermission::FilesystemWrite => PluginPermission::FilesystemWrite,
        PluginPermission::NativeInject => PluginPermission::NativeInject,
        PluginPermission::Network => PluginPermission::Network,
    }
}

pub fn copy_launcher_adapter(a: &LauncherAdapterContribution) -> (c: LauncherAdapterContribution)
    ensures
        adapter_same(c, *a),
{
    LauncherAdapterContribution {
        kind: a.kind,
        executable: a.executable.clone(),
        arguments: copy_strings(&a.arguments),
        working_directory: copy_opt_string(&a.working_directory),
        ready: copy_ready(&a.ready),
        failure_policy: a.failure_policy,
    }
}

pub fn copy_external_dependency(d: &ExternalDependency) -> (c: ExternalDependency)
    ensures
        dependency_same(c, *d),
{
    ExternalDependency { id: d.id.clone(), kind: d.kind, required_files: copy_strings(&d.required_files) }
}

pub fn copy_contributions(c: &PluginContributions) -> (out: PluginContributions)
    ensures
        contributions_same(out, *c),
{
    let mut runtime_plugins: Vec<RuntimePluginContribution> = Vec::new();
    for i in 0..c.runtime_plugins.len()
        invariant
            runtime_plugins@ == c.runtime_plugins@.take(i as int),
    {
        runtime_plugins.push(RuntimePluginContribution { path: c.runtime_plugins[i].path.clone() });
        assert(c.runtime_plugins@.take(i + 1) == c.runtime_plugins@.take(i as int).push(c.runtime_plugins@[i as int]));
    }
    let mut launcher_adapters: Vec<LauncherAdapterContribution> = Vec::new();
    for i in 0..c.launcher_adapters.len()
        invariant
            launcher_adapters@.len() == i,
            forall|k: int| 0 <= k < i ==> adapter_same(#[trigger] launcher_adapters@[k], c.launcher_adapters@[k]),
    {
        launcher_adapters.push(copy_launcher_adapter(&c.launcher_adapters[i]));
    }
    let mut external_managers: Vec<ExternalManagerContribution> = Vec::new();
    for i in 0..c.external_managers.len()
        invariant
            external_managers@ == c.external_managers@.take(i as int),
    {
        let m = &c.external_managers[i];
        external_managers.push(ExternalManagerContribution {
            id: m.id.clone(),
            executable: m.executable.clone(),
            working_directory: copy_opt_string(&m.working_directory),
        });
        assert(c.external_managers@.take(i + 1) == c.external_managers@.take(i as int).push(c.external_managers@[i as int]));
    }
    let mut ui_pages: Vec<UiPageContribution> = Vec::new();
    for i in 0..c.ui_pages.len()
        invariant
            ui_pages@ == c.ui_pages@.take(i as int),
    {
        let p = &c.ui_pages[i];
        ui_pages.push(UiPageContribution { id: p.id.clone(), route: p.route.clone(), path: p.path.clone() });
        assert(c.ui_pages@.take(i + 1) == c.ui_pages@.take(i as int).push(c.ui_pages@[i as int]));
    }
    assert(runtime_plugins@ =~= c.runtime_plugins@);
    assert(external_managers@ =~= c.external_managers@);
    assert(ui_pages@ =~= c.ui_pages@);
    PluginContributions { runtime_plugins, launcher_adapters, external_managers, ui_pages }
}

/// A copy of `m`, field by field.
pub fn copy_manifest(m: &PluginManifest) -> (c: PluginManifest)
    ensures
        manifest_same(c, *m),
{
    let mut external_dependencies: Vec<ExternalDependency> = Vec::new();
    for i in 0..m.external_dependencies.len()
        invariant
            external_dependencies@.len() == i,
            forall|k: int| 0 <= k < i ==> dependency_same(#[trigger] external_dependencies@[k], m.external_dependencies@[k]),
    {
        external_dependencies.push(copy_external_dependency(&m.external_dependencies[i]));
    }
    let mut permissions: Vec<PluginPermission> = Vec::new();
    for i in 0..m.permissions.len()
        invariant
            permissions@ == m.permissions@.take(i as int),
    {
        permissions.push(copy_permission(&m.permissions[i]));
        assert(m.permissions@.take(i + 1) == m.permissions@.take(i as int).push(m.permissions@[i as int]));
    }
    assert(permissions@ =~= m.permissions@);
    PluginManifest {
        schema_version: m.schema_version,
        id: m.id.clone(),
        name: m.name.clone(),
        version: m.version.clone(),
        author: m.author.clone(),
        compatibility: PluginCompatibility { ssmt: m.compatibility.ssmt.clone(), platforms: copy_strings(&m.compatibility.platforms) },
        contributions: copy_contributions(&m.contributions),
        external_dependencies,
        permissions,
    }
}

} // verus!

verus! {

/// The message shown for a manifest error.
pub open spec fn manifest_error_text(e: ManifestErrorView) -> Seq<char> {
    match e {
        ManifestErrorView::Json(s) => "invalid plugin manifest JSON: "@ + s,
        ManifestErrorView::UnsupportedSchemaVersion(v) => "unsupported plugin manifest schema version: "@ + crate::text::decimal(v as nat),
        ManifestErrorView::InvalidPluginId(s) => "invalid plugin id: "@ + s,
        ManifestErrorView::DuplicatePluginId(s) => "duplicate plugin id: "@ + s,
        ManifestErrorView::InvalidVersion(s) => "invalid plugin version: "@ + s,
        ManifestErrorView::InvalidCompatibility(s) => "invalid SSMT compatibility range: "@ + s,
        ManifestErrorView::UnsupportedPlatform(s) => "unsupported platform: "@ + s,
        ManifestErrorView::EmptyField(f) => f + " must not be empty"@,
        ManifestErrorView::DuplicateValue { field, value } => "duplicate "@ + field + ": "@ + value,
        ManifestErrorView::InvalidPath { field, path } => "invalid "@ + field + " path: "@ + path,
        ManifestErrorView::InvalidContribution(s) => "invalid plugin contribution: "@ + s,
        ManifestErrorView::InvalidExternalDependency(s) => "invalid external dependency: "@ + s,
        ManifestErrorView::InvalidPermission(s) => "invalid permission: "@ + s,
    }
}

impl PluginManifestError {
    /// The message shown for this error.
    pub fn message(&self) -> (s: String)
        ensures
            s@ == manifest_error_text(self@),
    {
        match self {
            PluginManifestError::Json(s) => concat2("invalid plugin manifest JSON: ", s.as_str()),
            PluginManifestError::UnsupportedSchemaVersion(v) => {
                let digits = crate::text::decimal_text(*v as u64);
                concat2("unsupported plugin manifest schema version: ", digits.as_str())
            },
            PluginManifestError::InvalidPluginId(s) => concat2("invalid plugin id: ", s.as_str()),
            PluginManifestError::DuplicatePluginId(s) => concat2("duplicate plugin id: ", s.as_str()),
            PluginManifestError::InvalidVersion(s) => concat2("invalid plugin version: ", s.as_str()),
            PluginManifestError::InvalidCompatibility(s) => concat2("invalid SSMT compatibility range: ", s.as_str()),
            PluginManifestError::UnsupportedPlatform(s) => concat2("unsupported platform: ", s.as_str()),
            PluginManifestError::EmptyField(f) => concat2(f, " must not be empty"),
            PluginManifestError::DuplicateValue { field, value } => {
                let head = concat3("duplicate ", field, ": ");
                concat2(head.as_str(), value.as_str())
            },
            PluginManifestError::InvalidPath { field, path } => {
                let head = concat3("invalid ", field, " path: ");
                concat2(head.as_str(), path.as_str())
            },
            PluginManifestError::InvalidContribution(s) => concat2("invalid plugin contribution: ", s.as_str()),
            PluginManifestError::InvalidExternalDependency(s) => concat2("invalid external dependency: ", s.as_str()),
            PluginManifestError::InvalidPermission(s) => concat2("invalid permission: ", s.as_str()),
        }
    }
}

} // verus!

verus! {

// ---------------------------------------------------------------------------
// Laws of the manifest rules

/// The start of the segment of `p` that holds position `k`.
pub open spec fn segment_start(p: Seq<char>, k: int) -> int
    decreases k,
{
    if k <= 0 || k > p.len() {
        0
    } else if is_separator(p[k - 1]) {
        k
    } else {
        segment_start(p, k - 1)
    }
}

/// The end of the segment of `p` that holds position `k`.
pub open spec fn segment_end(p: Seq<char>, k: int) -> int
    decreases p.len() - k,
{
    if k < 0 || k >= p.len() {
        p.len() as int
    } else if is_separator(p[k]) {
        k
    } else {
        segment_end(p, k + 1)
    }
}

proof fn lemma_segment_around(p: Seq<char>, k: int)
    requires
        0 <= k < p.len(),
        !is_separator(p[k]),
    ensures
        is_segment(p, segment_start(p, k), segment_end(p, k)),
        segment_start(p, k) <= k < segment_end(p, k),
{
    lemma_segment_start(p, k);
    lemma_segment_end(p, k);
}

proof fn lemma_segment_start(p: Seq<char>, k: int)
    requires
        0 <= k <= p.len(),
    ensures
        0 <= segment_start(p, k) <= k,
        segment_start(p, k) == 0 || is_separator(p[segment_start(p, k) - 1]),
        forall|m: int| segment_start(p, k) <= m < k ==> !is_separator(#[trigger] p[m]),
    decreases k,
{
    if k > 0 && !is_separator(p[k - 1]) {
        lemma_segment_start(p, k - 1);
    }
}

proof fn lemma_segment_end(p: Seq<char>, k: int)
    requires
        0 <= k <= p.len(),
    ensures
        k <= segment_end(p, k) <= p.len(),
        segment_end(p, k) == p.len() || is_separator(p[segment_end(p, k)]),
        forall|m: int| k <= m < segment_end(p, k) ==> !is_separator(#[trigger] p[m]),
    decreases p.len() - k,
{
    if k < p.len() && !is_separator(p[k]) {
        lemma_segment_end(p, k + 1);
    }
}

/// A package path that validation accepts stays inside the package: it is not
/// empty, does not start at a root, names no drive or stream (no `:`), and no
/// step of it is empty, `.` or `..`.
pub proof fn law_valid_package_path_stays_inside(p: Seq<char>)
    requires
        package_path_valid(p),
    ensures
        p.len() > 0,
        !is_separator(p[0]),
        forall|k: int| 0 <= k < p.len() ==> p[k] != ':',
        forall|i: int, j: int| #[trigger] is_segment(p, i, j) ==> i < j && p.subrange(i, j) != ".."@ && p.subrange(i, j) != "."@,
{
    reveal_strlit("..");
    reveal_strlit(".");
    if p.len() == 0 {
        assert(is_segment(p, 0, 0));
    }
    if is_separator(p[0]) {
        assert(is_segment(p, 0, 0));
    }
    assert forall|k: int| 0 <= k < p.len() implies p[k] != ':' by {
        if p[k] == ':' {
            lemma_segment_around(p, k);
            let i = segment_start(p, k);
            let j = segment_end(p, k);
            assert(p.subrange(i, j)[k - i] == ':');
        }
    }
    assert forall|i: int, j: int| #[trigger] is_segment(p, i, j) implies i < j && p.subrange(i, j) != ".."@ && p.subrange(i, j) != "."@ by {
        assert(segment_ok(p.subrange(i, j)));
        if p.subrange(i, j) =~= ".."@ {
            assert(p.subrange(i, j)[0] == '.' && p.subrange(i, j)[1] == '.');
        }
        if p.subrange(i, j) =~= "."@ {
            assert(p.subrange(i, j)[0] == '.');
        }
    }
}

/// A normalised version requirement holds no wildcard: `X`, `x` and `*` were
/// all read as `0`, and every other character is kept.
pub proof fn law_normalized_requirement_has_no_wildcard(r: Seq<char>)
    ensures
        normalize_requirement(r).len() == r.len(),
        forall|i: int| 0 <= i < r.len() ==> {
            let c = #[trigger] normalize_requirement(r)[i];
            &&& c != 'X' && c != 'x' && c != '*'
            &&& (r[i] != 'X' && r[i] != 'x' && r[i] != '*' ==> c == r[i])
        },
{
}

/// A set of manifests passes the uniqueness check exactly when no two of them
/// share an id.
pub proof fn law_unique_plugin_ids(ids: Seq<Seq<char>>)
    ensures
        duplicate_id_issue(ids) is None <==> forall|a: int, b: int| 0 <= a < b < ids.len() ==> #[trigger] ids[a] != #[trigger] ids[b],
{
    let items = |k: int| if exists|j: int| 0 <= j < k && #[trigger] ids[j] == ids[k] {
        Some(ManifestErrorView::DuplicatePluginId(ids[k]))
    } else {
        None
    };
    assert(duplicate_id_issue(ids) == first_issue(ids.len() as int, items));
    if duplicate_id_issue(ids) is None {
        assert forall|a: int, b: int| 0 <= a < b < ids.len() implies #[trigger] ids[a] != #[trigger] ids[b] by {
            lemma_first_issue_none(ids.len() as int, items, b);
        }
    } else {
        lemma_first_issue_some(ids.len() as int, items);
    }
}

proof fn lemma_first_issue_some(n: int, item: spec_fn(int) -> Option<ManifestErrorView>)
    requires
        first_issue(n, item) is Some,
    ensures
        exists|k: int| 0 <= k < n && #[trigger] item(k) is Some,
    decreases n,
{
    if n > 0 {
        if first_issue(n - 1, item) is Some {
            lemma_first_issue_some(n - 1, item);
            let k = choose|k: int| 0 <= k < n - 1 && #[trigger] item(k) is Some;
            assert(item(k) is Some);
        } else {
            assert(item(n - 1) is Some);
        }
    }
}

} // verus!
