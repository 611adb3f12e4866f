//! Launcher adapters that forward a launch to another program: resolving the
//! command line from templates, and the decisions taken while it runs.
use vstd::prelude::*;
use vstd::utf8::{decode_utf8, encode_utf8, valid_utf8};
use crate::manifest::{
    dependency_ids, external_variable_id, FailurePolicy, LauncherAdapterContribution, LauncherAdapterType,
    ReadyCondition, ReadyConditionType,
};
use crate::registry::{first_index_from, keys_of, lemma_first_index_from, InstalledPlugin};
use crate::text::{
    chars_of, contains_seq, contains_text, find_char, find_char_from, find_pair, find_pair_from, lemma_find_char_from,
    lemma_find_pair_from, push_char, range_eq, string_from, string_of,
};

verus! {

pub const MAX_CAPTURED_BYTES: usize = 262_144;

#[derive(Debug, Clone, PartialEq, Eq)]
pub struct LaunchTemplateContext {
    pub game_executable: String,
    pub game_directory: String,
    pub game_process_name: String,
    /// Dependency id and its directory.
    pub external_dependencies: Vec<(String, String)>,
}

#[derive(Debug, Clone, PartialEq, Eq)]
pub struct ProcessForwarderSpec {
    pub plugin_id: String,
    pub executable: String,
    pub arguments: Vec<String>,
    pub working_directory: String,
    pub timeout: Option<std::time::Duration>,
    pub ready: Option<ReadyCondition>,
    pub failure_policy: FailurePolicy,
}

#[derive(Debug, Clone, Copy, PartialEq, Eq, Structural)]
pub enum OutputStream {
    Stdout,
    Stderr,
}

#[derive(Debug, Clone, PartialEq, Eq)]
pub struct ForwarderOutput {
    pub stream: OutputStream,
    pub line: String,
}

#[derive(Debug, Clone, PartialEq, Eq)]
pub struct CapturedOutput {
    pub stdout: String,
    pub stderr: String,
    pub truncated: bool,
}

impl CapturedOutput {
    pub fn new() -> (c: Self)
        ensures
            c.stdout@.len() == 0,
            c.stderr@.len() == 0,
            !c.truncated,
    {
        CapturedOutput { stdout: String::new(), stderr: String::new(), truncated: false }
    }
}

#[derive(Debug, Clone, PartialEq, Eq)]
pub enum ProcessForwarderError {
    UnsupportedAdapterType,
    InvalidTemplate(String),
    MissingExternalDependency(String),
    InvalidExecutable(String),
    InvalidWorkingDirectory(String),
    SpawnFailed(String),
    OutputReaderFailed(String),
    TimedOut,
    ReadyTimeout,
    ExitedBeforeReady(Option<i32>),
}

pub enum ForwarderErrorView {
    UnsupportedAdapterType,
    InvalidTemplate(Seq<char>),
    MissingExternalDependency(Seq<char>),
    InvalidExecutable(Seq<char>),
    InvalidWorkingDirectory(Seq<char>),
    SpawnFailed(Seq<char>),
    OutputReaderFailed(Seq<char>),
    TimedOut,
    ReadyTimeout,
    ExitedBeforeReady(Option<i32>),
}

impl View for ProcessForwarderError {
    type V = ForwarderErrorView;

    open spec fn view(&self) -> ForwarderErrorView {
        match self {
            ProcessForwarderError::UnsupportedAdapterType => ForwarderErrorView::UnsupportedAdapterType,
            ProcessForwarderError::InvalidTemplate(s) => ForwarderErrorView::InvalidTemplate(s@),
            ProcessForwarderError::MissingExternalDependency(s) => ForwarderErrorView::MissingExternalDependency(s@),
            ProcessForwarderError::InvalidExecutable(s) => ForwarderErrorView::InvalidExecutable(s@),
            ProcessForwarderError::InvalidWorkingDirectory(s) => ForwarderErrorView::InvalidWorkingDirectory(s@),
            ProcessForwarderError::SpawnFailed(s) => ForwarderErrorView::SpawnFailed(s@),
            ProcessForwarderError::OutputReaderFailed(s) => ForwarderErrorView::OutputReaderFailed(s@),
            ProcessForwarderError::TimedOut => ForwarderErrorView::TimedOut,
            ProcessForwarderError::ReadyTimeout => ForwarderErrorView::ReadyTimeout,
            ProcessForwarderError::ExitedBeforeReady(c) => ForwarderErrorView::ExitedBeforeReady(*c),
        }
    }
}

pub open spec fn error_view_result(r: Result<String, ProcessForwarderError>) -> Result<Seq<char>, ForwarderErrorView> {
    match r {
        Ok(s) => Ok(s@),
        Err(e) => Err(e@),
    }
}

// ---------------------------------------------------------------------------
// Template resolution

/// The value of a template variable (`value` is the whole template, named in errors).
pub open spec fn resolve_variable(value: Seq<char>, var: Seq<char>, package_root: Seq<char>, ctx: LaunchTemplateContext) -> Result<Seq<char>, ForwarderErrorView> {
    if var == "game.exe"@ {
        Ok(ctx.game_executable@)
    } else if var == "game.directory"@ {
        Ok(ctx.game_directory@)
    } else if var == "game.processName"@ {
        Ok(ctx.game_process_name@)
    } else if var == "plugin.root"@ {
        Ok(package_root)
    } else {
        match external_variable_id(var) {
            None => Err(ForwarderErrorView::InvalidTemplate(value)),
            Some(id) => match first_index_from(keys_of(ctx.external_dependencies@), id, 0) {
                Some(k) => Ok(ctx.external_dependencies@[k].1@),
                None => Err(ForwarderErrorView::MissingExternalDependency(id)),
            },
        }
    }
}

/// A template `${external.<id>}` followed by plain text (no `$` and no `}`)
/// resolves to the directory that the context pairs with `<id>` (the first
/// such pair), followed by the text; where the context pairs nothing with
/// `<id>`, it is a missing dependency named `<id>`.
pub proof fn law_external_variable_uses_its_dependency(id: Seq<char>, tail: Seq<char>, package_root: Seq<char>, ctx: LaunchTemplateContext)
    requires
        forall|i: int| 0 <= i < id.len() ==> #[trigger] id[i] != '}',
        forall|i: int| 0 <= i < tail.len() ==> #[trigger] tail[i] != '$' && tail[i] != '}',
    ensures
        ({
            let value = "${external."@ + id + "}"@ + tail;
            let deps = ctx.external_dependencies@;
            match resolve_spec(value, package_root, ctx) {
                Ok(r) => exists|k: int| 0 <= k < deps.len() && #[trigger] deps[k].0@ == id && r == deps[k].1@ + tail
                    && forall|j: int| 0 <= j < k ==> #[trigger] deps[j].0@ != id,
                Err(e) => e == ForwarderErrorView::MissingExternalDependency(id)
                    && forall|k: int| 0 <= k < deps.len() ==> #[trigger] deps[k].0@ != id,
            }
        }),
{
    reveal_strlit("${external.");
    reveal_strlit("}");
    reveal_strlit("external.");
    reveal_strlit("game.exe");
    reveal_strlit("game.directory");
    reveal_strlit("game.processName");
    reveal_strlit("plugin.root");
    let value = "${external."@ + id + "}"@ + tail;
    let end: int = 11 + id.len() as int;
    assert(value[0] == '$' && value[1] == '{');
    assert(find_pair_from(value, 0, '$', '{') == Some(0int));
    lemma_find_char_from(value, 2, '}');
    assert forall|k: int| 2 <= k < end implies value[k] != '}' by {
        if k < 11 {
            assert(value[k] == "${external."@[k]);
        } else {
            assert(value[k] == id[k - 11]);
        }
    }
    assert(value[end] == '}');
    assert(find_char_from(value, 2, '}') == Some(end));
    let var = value.subrange(2, end);
    assert(var =~= "external."@ + id);
    assert(var[0] == 'e');
    assert(var != "game.exe"@ && var != "game.directory"@ && var != "game.processName"@ && var != "plugin.root"@);
    assert(crate::text::starts_with(var, "external."@)) by {
        assert(var.take(9) =~= "external."@);
    }
    assert(var.skip(9) =~= id);
    assert(external_variable_id(var) == Some(id));
    // What follows the variable is plain text.
    lemma_find_pair_from(value, end + 1, '$', '{');
    lemma_find_char_from(value, end + 1, '}');
    assert forall|k: int| end + 1 <= k < value.len() implies value[k] == tail[k - end - 1] by {}
    assert(find_pair_from(value, end + 1, '$', '{') is None) by {
        if find_pair_from(value, end + 1, '$', '{') is Some {
            let k = find_pair_from(value, end + 1, '$', '{')->0;
            assert(value[k] == tail[k - end - 1]);
        }
    }
    assert(find_char_from(value, end + 1, '}') is None) by {
        if find_char_from(value, end + 1, '}') is Some {
            let k = find_char_from(value, end + 1, '}')->0;
            assert(value[k] == tail[k - end - 1]);
        }
    }
    assert(value.skip(end + 1) =~= tail);
    assert(resolve_from(value, end + 1, package_root, ctx) == Ok::<Seq<char>, ForwarderErrorView>(tail));
    assert(value.subrange(0, 0) =~= Seq::<char>::empty());
    let keys = keys_of(ctx.external_dependencies@);
    lemma_first_index_from(keys, id, 0);
    match first_index_from(keys, id, 0) {
        Some(k) => {
            assert(keys[k] == ctx.external_dependencies@[k].0@);
            assert forall|j: int| 0 <= j < k implies #[trigger] ctx.external_dependencies@[j].0@ != id by {
                assert(keys[j] == ctx.external_dependencies@[j].0@);
            }
            assert(Seq::<char>::empty() + ctx.external_dependencies@[k].1@ =~= ctx.external_dependencies@[k].1@);
        },
        None => {
            assert forall|k: int| 0 <= k < ctx.external_dependencies@.len() implies #[trigger] ctx.external_dependencies@[k].0@ != id by {
                assert(keys[k] == ctx.external_dependencies@[k].0@);
            }
        },
    }
}

pub open spec fn prepend(prefix: Seq<char>, r: Result<Seq<char>, ForwarderErrorView>) -> Result<Seq<char>, ForwarderErrorView> {
    match r {
        Ok(t) => Ok(prefix + t),
        Err(e) => Err(e),
    }
}

/// The template `value` with every `${...}` from position `from` on replaced
/// by its value. An unclosed `${`, an unknown variable, or a `}` after the last
/// variable is an invalid template; an `external.<id>` variable whose
/// dependency has no directory in the context is a missing dependency.
pub open spec fn resolve_from(value: Seq<char>, from: int, package_root: Seq<char>, ctx: LaunchTemplateContext) -> Result<Seq<char>, ForwarderErrorView>
    decreases value.len() - from,
{
    if from < 0 || from > value.len() {
        Ok(Seq::empty())
    } else {
        match find_pair_from(value, from, '$', '{') {
            None => if find_char_from(value, from, '}') is Some {
                Err(ForwarderErrorView::InvalidTemplate(value))
            } else {
                Ok(value.skip(from))
            },
            Some(start) => {
                proof { lemma_find_pair_from(value, from, '$', '{'); }
                match find_char_from(value, start + 2, '}') {
                    None => Err(ForwarderErrorView::InvalidTemplate(value)),
                    Some(end) => {
                        proof { lemma_find_char_from(value, start + 2, '}'); }
                        match resolve_variable(value, value.subrange(start + 2, end), package_root, ctx) {
                            Err(e) => Err(e),
                            Ok(replacement) => prepend(value.subrange(from, start) + replacement,
                                resolve_from(value, end + 1, package_root, ctx)),
                        }
                    },
                }
            },
        }
    }
}

pub open spec fn resolve_spec(value: Seq<char>, package_root: Seq<char>, ctx: LaunchTemplateContext) -> Result<Seq<char>, ForwarderErrorView> {
    resolve_from(value, 0, package_root, ctx)
}

fn invalid_template(value: &str) -> (e: ProcessForwarderError)
    ensures
        e@ == ForwarderErrorView::InvalidTemplate(value@),
{
    ProcessForwarderError::InvalidTemplate(string_from(value))
}

fn resolve_variable_exec(value: &str, chars: &[char], from: usize, to: usize, package_root: &str, context: &LaunchTemplateContext) -> (r: Result<String, ProcessForwarderError>)
    requires
        from <= to <= chars@.len(),
    ensures
        error_view_result(r) == resolve_variable(value@, chars@.subrange(from as int, to as int), package_root@, *context),
{
    let ghost var = chars@.subrange(from as int, to as int);
    if range_eq(chars, from, to, chars_of("game.exe").as_slice()) {
        return Ok(context.game_executable.clone());
    }
    if range_eq(chars, from, to, chars_of("game.directory").as_slice()) {
        return Ok(context.game_directory.clone());
    }
    if range_eq(chars, from, to, chars_of("game.processName").as_slice()) {
        return Ok(context.game_process_name.clone());
    }
    if range_eq(chars, from, to, chars_of("plugin.root").as_slice()) {
        return Ok(string_from(package_root));
    }
    let prefix = chars_of("external.");
    let p = prefix.len();
    if !(to - from >= p && range_eq(chars, from, from + p, prefix.as_slice())) {
        assert(to - from >= p ==> var.take(p as int) == chars@.subrange(from as int, from + p));
        return Err(invalid_template(value));
    }
    assert(var.take(p as int) == chars@.subrange(from as int, from + p));
    assert(var.skip(p as int) == chars@.subrange(from + p, to as int));
    let id = string_of(chars, from + p, to);
    let deps = &context.external_dependencies;
    proof { lemma_first_index_from(keys_of(deps@), id@, 0); }
    match crate::registry::find_key(deps, id.as_str()) {
        Some(k) => Ok(deps[k].1.clone()),
        None => Err(ProcessForwarderError::MissingExternalDependency(id)),
    }
}

pub fn resolve_argument(value: &str, plugin: &InstalledPlugin, context: &LaunchTemplateContext) -> (r: Result<String, ProcessForwarderError>)
    ensures
        error_view_result(r) == resolve_spec(value@, plugin.package_root@, *context),
{
    let chars = chars_of(value);
    let ghost pkg = plugin.package_root@;
    let mut resolved = String::new();
    let mut from: usize = 0;
    assert(resolved@ + Seq::<char>::empty() =~= resolved@);
    loop
        invariant
            chars@ == value@,
            pkg == plugin.package_root@,
            from <= chars@.len(),
            resolve_spec(value@, pkg, *context) == prepend(resolved@, resolve_from(value@, from as int, pkg, *context)),
        decreases chars.len() - from,
    {
        proof { lemma_find_pair_from(value@, from as int, '$', '{'); }
        match find_pair(chars.as_slice(), from, '$', '{') {
            None => {
                if find_char(chars.as_slice(), from, '}').is_some() {
                    return Err(invalid_template(value));
                }
                let rest = string_of(chars.as_slice(), from, chars.len());
                assert(value@.skip(from as int) =~= value@.subrange(from as int, value@.len() as int));
                resolved.append(rest.as_str());
                return Ok(resolved);
            },
            Some(start) => {
                proof { lemma_find_char_from(value@, start + 2, '}'); }
                let end = match find_char(chars.as_slice(), start + 2, '}') {
                    None => return Err(invalid_template(value)),
                    Some(end) => end,
                };
                let replacement = match resolve_variable_exec(value, chars.as_slice(), start + 2, end, plugin.package_root.as_str(), context) {
                    Err(e) => return Err(e),
                    Ok(r) => r,
                };
                let before = string_of(chars.as_slice(), from, start);
                let ghost old_resolved = resolved@;
                resolved.append(before.as_str());
                resolved.append(replacement.as_str());
                proof {
                    let r = resolve_from(value@, end + 1, pkg, *context);
                    match r {
                        Ok(t) => {
                            assert(old_resolved + (before@ + replacement@ + t) =~= resolved@ + t);
                        },
                        Err(e) => {},
                    }
                }
                from = end + 1;
            },
        }
    }
}

pub fn resolve_template(value: &str, plugin: &InstalledPlugin, context: &LaunchTemplateContext) -> (r: Result<String, ProcessForwarderError>)
    ensures
        error_view_result(r) == resolve_spec(value@, plugin.package_root@, *context),
{
    resolve_argument(value, plugin, context)
}


// ---------------------------------------------------------------------------
// The resolved command line

pub struct ForwarderSpecView {
    pub plugin_id: Seq<char>,
    pub executable: Seq<char>,
    pub arguments: Seq<Seq<char>>,
    pub working_directory: Seq<char>,
    pub timeout: Option<std::time::Duration>,
    pub ready: Option<ReadyCondition>,
    pub failure_policy: FailurePolicy,
}

impl View for ProcessForwarderSpec {
    type V = ForwarderSpecView;

    open spec fn view(&self) -> ForwarderSpecView {
        ForwarderSpecView {
            plugin_id: self.plugin_id@,
            executable: self.executable@,
            arguments: self.arguments@.map_values(|a: String| a@),
            working_directory: self.working_directory@,
            timeout: self.timeout,
            ready: self.ready,
            failure_policy: self.failure_policy,
        }
    }
}

pub open spec fn spec_result_view(r: Result<ProcessForwarderSpec, ProcessForwarderError>) -> Result<ForwarderSpecView, ForwarderErrorView> {
    match r {
        Ok(s) => Ok(s@),
        Err(e) => Err(e@),
    }
}

pub open spec fn opt_text(o: Option<String>) -> Option<Seq<char>> {
    match o {
        Some(s) => Some(s@),
        None => None,
    }
}

pub open spec fn is_path_separator(c: char) -> bool {
    c == '/' || c == '\\'
}

/// A path that ends in a name on every platform: it is not empty, does not
/// start with two separators (a network or device prefix on Windows), and its
/// last character is none of `/`, `\`, `:` (a drive) and `.` (a `.` or `..` part).
pub open spec fn has_final_name(path: Seq<char>) -> bool {
    &&& path.len() > 0
    &&& !(path.len() >= 2 && is_path_separator(path[0]) && is_path_separator(path[1]))
    &&& !is_path_separator(path.last())
    &&& path.last() != ':'
    &&& path.last() != '.'
}

/// Whether the part of `path` that starts at `i` (just after a `/` or at the
/// start) is `.` or `..`.
pub open spec fn dot_segment_at(path: Seq<char>, i: int) -> bool {
    &&& path[i] == '.'
    &&& (i + 1 == path.len() || path[i + 1] == '/'
        || (path[i + 1] == '.' && (i + 2 == path.len() || path[i + 2] == '/')))
}

/// A plain `/`-separated path: a name, possibly after one leading `/`, then
/// more names each after one `/`; no `\` or `:`, and no part `.` or `..`.
pub open spec fn plain_slash_path(path: Seq<char>) -> bool {
    &&& has_final_name(path)
    &&& forall|i: int| 0 <= i < path.len() ==> #[trigger] path[i] != '\\' && path[i] != ':'
    &&& forall|i: int| 0 <= i < path.len() - 1 ==> !(#[trigger] path[i] == '/' && path[i + 1] == '/')
    &&& forall|i: int| 0 <= i < path.len() && (i == 0 || path[i - 1] == '/') ==> !#[trigger] dot_segment_at(path, i)
}

/// The position of the last `/` before `end`.
pub open spec fn last_slash_before(path: Seq<char>, end: int) -> Option<int>
    decreases end,
{
    if end <= 0 {
        None
    } else if path[end - 1] == '/' {
        Some(end - 1)
    } else {
        last_slash_before(path, end - 1)
    }
}

/// The parent of a plain `/`-separated path: the text before its last `/`,
/// `/` itself when that is the leading one, and empty when there is none.
pub open spec fn slash_parent(path: Seq<char>) -> Seq<char> {
    match last_slash_before(path, path.len() as int) {
        None => Seq::empty(),
        Some(k) => if k == 0 { seq!['/'] } else { path.take(k) },
    }
}

/// What a parent directory of `path` can be: none for an empty path, and
/// otherwise the path with its final component removed, a strict prefix of it;
/// a path that ends in a name has one, and for a plain `/`-separated path it is
/// the text before the last `/`.
pub open spec fn parent_shape(path: Seq<char>, parent: Option<Seq<char>>) -> bool {
    &&& path.len() == 0 ==> parent is None
    &&& parent matches Some(p) ==> p.len() < path.len() && path.take(p.len() as int) == p
    &&& has_final_name(path) ==> parent is Some
    &&& plain_slash_path(path) ==> parent == Some(slash_parent(path))
}

/// `std::path::Path::parent` on a path given as text.
/// Claimed, on every platform: an empty path has no parent; a parent is a strict
/// prefix of the path (the path without its final component, as the
/// documentation puts it); a path that ends in a name (see `has_final_name`)
/// has one; and for a plain `/`-separated path it is the text before the last
/// `/` (`/` for `/name`, empty for a bare name), as the documentation's
/// examples show. Which prefix it is for other paths depends on the platform's
/// separators and prefixes and is left unsaid.
#[verifier::external_body]
fn path_parent(path: &str) -> (r: Option<String>)
    ensures
        parent_shape(path@, opt_text(r)),
{
    match std::path::Path::new(path).parent() {
        Some(p) => Some(p.to_string_lossy().into_owned()),
        None => None,
    }
}

/// The arguments from index `i` on, each resolved; the first that fails decides.
pub open spec fn resolve_arguments_from(args: Seq<String>, i: int, package_root: Seq<char>, ctx: LaunchTemplateContext) -> Result<Seq<Seq<char>>, ForwarderErrorView>
    decreases args.len() - i,
{
    if i < 0 || i >= args.len() {
        Ok(Seq::empty())
    } else {
        match resolve_spec(args[i]@, package_root, ctx) {
            Err(e) => Err(e),
            Ok(a) => match resolve_arguments_from(args, i + 1, package_root, ctx) {
                Err(e) => Err(e),
                Ok(rest) => Ok(seq![a] + rest),
            },
        }
    }
}

pub open spec fn prepend_arguments(done: Seq<Seq<char>>, r: Result<Seq<Seq<char>>, ForwarderErrorView>) -> Result<Seq<Seq<char>>, ForwarderErrorView> {
    match r {
        Ok(rest) => Ok(done + rest),
        Err(e) => Err(e),
    }
}

/// The working directory: the contribution's own, resolved, or else the
/// directory that holds the executable (`default_dir`); without one the
/// executable path is an invalid template.
pub open spec fn working_directory_outcome(wd: Option<String>, exe: Seq<char>, default_dir: Option<Seq<char>>, package_root: Seq<char>, ctx: LaunchTemplateContext) -> Result<Seq<char>, ForwarderErrorView> {
    match wd {
        Some(v) => resolve_spec(v@, package_root, ctx),
        None => match default_dir {
            Some(d) => Ok(d),
            None => Err(ForwarderErrorView::InvalidTemplate(exe)),
        },
    }
}

/// The command line once the executable `exe` is resolved.
pub open spec fn assembled(plugin: InstalledPlugin, contribution: LauncherAdapterContribution, ctx: LaunchTemplateContext, timeout: Option<std::time::Duration>, exe: Seq<char>, default_dir: Option<Seq<char>>) -> Result<ForwarderSpecView, ForwarderErrorView> {
    match working_directory_outcome(contribution.working_directory, exe, default_dir, plugin.package_root@, ctx) {
        Err(e) => Err(e),
        Ok(wd) => match resolve_arguments_from(contribution.arguments@, 0, plugin.package_root@, ctx) {
            Err(e) => Err(e),
            Ok(args) => Ok(ForwarderSpecView {
                plugin_id: plugin.manifest.id@,
                executable: exe,
                arguments: args,
                working_directory: wd,
                timeout: timeout,
                ready: contribution.ready,
                failure_policy: contribution.failure_policy,
            }),
        },
    }
}

/// What resolving a process-forwarder contribution gives, where `default_dir`
/// is the directory holding the resolved executable.
pub open spec fn forwarder_outcome(plugin: InstalledPlugin, contribution: LauncherAdapterContribution, ctx: LaunchTemplateContext, timeout: Option<std::time::Duration>, default_dir: Option<Seq<char>>) -> Result<ForwarderSpecView, ForwarderErrorView> {
    if contribution.kind != LauncherAdapterType::ProcessForwarder {
        Err(ForwarderErrorView::UnsupportedAdapterType)
    } else {
        match resolve_spec(contribution.executable@, plugin.package_root@, ctx) {
            Err(e) => Err(e),
            Ok(exe) => assembled(plugin, contribution, ctx, timeout, exe, default_dir),
        }
    }
}

pub open spec fn default_dir_fits(exe: Result<Seq<char>, ForwarderErrorView>, default_dir: Option<Seq<char>>) -> bool {
    match exe {
        Ok(e) => parent_shape(e, default_dir),
        Err(_) => true,
    }
}

fn resolve_arguments(args: &Vec<String>, plugin: &InstalledPlugin, context: &LaunchTemplateContext) -> (r: Result<Vec<String>, ProcessForwarderError>)
    ensures
        match r {
            Ok(v) => resolve_arguments_from(args@, 0, plugin.package_root@, *context) == Ok::<Seq<Seq<char>>, ForwarderErrorView>(v@.map_values(|a: String| a@)),
            Err(e) => resolve_arguments_from(args@, 0, plugin.package_root@, *context) == Err::<Seq<Seq<char>>, ForwarderErrorView>(e@),
        },
{
    let ghost pkg = plugin.package_root@;
    let mut out: Vec<String> = Vec::new();
    let mut i: usize = 0;
    assert(out@.map_values(|a: String| a@) =~= Seq::<Seq<char>>::empty());
    while i < args.len()
        invariant
            i <= args@.len(),
            pkg == plugin.package_root@,
            resolve_arguments_from(args@, 0, pkg, *context)
                == prepend_arguments(out@.map_values(|a: String| a@), resolve_arguments_from(args@, i as int, pkg, *context)),
        decreases args.len() - i,
    {
        let a = match resolve_argument(args[i].as_str(), plugin, context) {
            Err(e) => return Err(e),
            Ok(a) => a,
        };
        let ghost done = out@.map_values(|x: String| x@);
        out.push(a);
        proof {
            assert(out@.map_values(|x: String| x@) =~= done.push(a@));
            match resolve_arguments_from(args@, i + 1, pkg, *context) {
                Ok(rest) => {
                    assert(done + (seq![a@] + rest) =~= done.push(a@) + rest);
                },
                Err(_) => {},
            }
        }
        i += 1;
    }
    assert(out@.map_values(|a: String| a@) + Seq::<Seq<char>>::empty() =~= out@.map_values(|a: String| a@));
    Ok(out)
}

impl ProcessForwarderSpec {
    /// Builds the command line once the executable is resolved: the working
    /// directory (the contribution's own, or `default_directory`, the directory
    /// holding the executable) and the arguments.
    pub fn assemble(
        plugin: &InstalledPlugin,
        contribution: &LauncherAdapterContribution,
        context: &LaunchTemplateContext,
        timeout: Option<std::time::Duration>,
        executable: String,
        default_directory: Option<String>,
    ) -> (r: Result<Self, ProcessForwarderError>)
        ensures
            spec_result_view(r) == assembled(*plugin, *contribution, *context, timeout, executable@, opt_text(default_directory)),
    {
        let working_directory = match &contribution.working_directory {
            Some(value) => match resolve_template(value.as_str(), plugin, context) {
                Err(e) => return Err(e),
                Ok(w) => w,
            },
            None => match default_directory {
                Some(d) => d,
                None => return Err(ProcessForwarderError::InvalidTemplate(value_path(executable.as_str()))),
            },
        };
        let arguments = match resolve_arguments(&contribution.arguments, plugin, context) {
            Err(e) => return Err(e),
            Ok(a) => a,
        };
        Ok(ProcessForwarderSpec {
            plugin_id: plugin.manifest.id.clone(),
            executable,
            arguments,
            working_directory,
            timeout,
            ready: crate::manifest::copy_ready(&contribution.ready),
            failure_policy: contribution.failure_policy,
        })
    }

    /// Resolves a process-forwarder contribution of `plugin` into the command
    /// line to run. The directory holding the executable, used when the
    /// contribution names no working directory, comes from the platform's path
    /// rules: the result is exact for some such directory.
    pub fn resolve(
        plugin: &InstalledPlugin,
        contribution: &LauncherAdapterContribution,
        context: &LaunchTemplateContext,
        timeout: Option<std::time::Duration>,
    ) -> (r: Result<Self, ProcessForwarderError>)
        ensures
            exists|d: Option<Seq<char>>|
                default_dir_fits(resolve_spec(contribution.executable@, plugin.package_root@, *context), d)
                && #[trigger] forwarder_outcome(*plugin, *contribution, *context, timeout, d) == spec_result_view(r),
            match resolve_spec(contribution.executable@, plugin.package_root@, *context) {
                Ok(e) => {
                    &&& has_final_name(e) ==> exists|p: Seq<char>| p.len() < e.len() && e.take(p.len() as int) == p
                        && #[trigger] forwarder_outcome(*plugin, *contribution, *context, timeout, Some(p)) == spec_result_view(r)
                    &&& plain_slash_path(e) ==> forwarder_outcome(*plugin, *contribution, *context, timeout, Some(slash_parent(e)))
                        == spec_result_view(r)
                },
                Err(_) => true,
            },
    {
        if contribution.kind != LauncherAdapterType::ProcessForwarder {
            let r = Err(ProcessForwarderError::UnsupportedAdapterType);
            assert(default_dir_fits(resolve_spec(contribution.executable@, plugin.package_root@, *context), None)
                && forwarder_outcome(*plugin, *contribution, *context, timeout, None) == spec_result_view(r));
            proof {
                match resolve_spec(contribution.executable@, plugin.package_root@, *context) {
                    Ok(e) => {
                        if has_final_name(e) {
                            let p = e.take(0);
                            assert(forwarder_outcome(*plugin, *contribution, *context, timeout, Some(p)) == spec_result_view(r));
                        }
                        assert(forwarder_outcome(*plugin, *contribution, *context, timeout, Some(slash_parent(e))) == spec_result_view(r));
                    },
                    Err(_) => {},
                }
            }
            return r;
        }
        let executable = match resolve_template(contribution.executable.as_str(), plugin, context) {
            Err(e) => {
                let r = Err(e);
                assert(default_dir_fits(resolve_spec(contribution.executable@, plugin.package_root@, *context), None)
                    && forwarder_outcome(*plugin, *contribution, *context, timeout, None) == spec_result_view(r));
                return r;
            },
            Ok(x) => x,
        };
        let parent = path_parent(executable.as_str());
        let ghost d = opt_text(parent);
        let r = Self::assemble(plugin, contribution, context, timeout, executable, parent);
        assert(default_dir_fits(resolve_spec(contribution.executable@, plugin.package_root@, *context), d)
            && forwarder_outcome(*plugin, *contribution, *context, timeout, d) == spec_result_view(r));
        proof {
            let e = resolve_spec(contribution.executable@, plugin.package_root@, *context)->Ok_0;
            if has_final_name(e) {
                let p = d->Some_0;
                assert(forwarder_outcome(*plugin, *contribution, *context, timeout, Some(p)) == spec_result_view(r));
            }
        }
        r
    }
}

// ---------------------------------------------------------------------------
// Decisions taken while the launcher runs

/// Checks, before the launcher starts, what the filesystem said of its paths:
/// whether the executable is a file and the working directory a directory.
pub fn check_launch_paths(spec: &ProcessForwarderSpec, executable_is_file: bool, working_directory_is_dir: bool) -> (r: Result<(), ProcessForwarderError>)
    ensures
        !executable_is_file ==> (r matches Err(e) && e@ == ForwarderErrorView::InvalidExecutable(spec.executable@)),
        executable_is_file && !working_directory_is_dir ==> (r matches Err(e) && e@ == ForwarderErrorView::InvalidWorkingDirectory(spec.working_directory@)),
        executable_is_file && working_directory_is_dir ==> r is Ok,
{
    if !executable_is_file {
        return Err(ProcessForwarderError::InvalidExecutable(spec.executable.clone()));
    }
    if !working_directory_is_dir {
        return Err(ProcessForwarderError::InvalidWorkingDirectory(spec.working_directory.clone()));
    }
    Ok(())
}

/// A line answers the ready condition: it came on the stream the condition
/// watches and holds the condition's text.
pub open spec fn ready_line_spec(ready: ReadyCondition, line: ForwarderOutput) -> bool {
    &&& ((ready.kind == ReadyConditionType::StdoutContains && line.stream == OutputStream::Stdout)
        || (ready.kind == ReadyConditionType::StderrContains && line.stream == OutputStream::Stderr))
    &&& ready.value matches Some(v) && contains_seq(line.line@, v@)
}

pub fn ready_line_matches(ready: &ReadyCondition, line: &ForwarderOutput) -> (b: bool)
    ensures
        b == ready_line_spec(*ready, *line),
{
    let watched = match (ready.kind, line.stream) {
        (ReadyConditionType::StdoutContains, OutputStream::Stdout) => true,
        (ReadyConditionType::StderrContains, OutputStream::Stderr) => true,
        _ => false,
    };
    if !watched {
        return false;
    }
    match &ready.value {
        Some(v) => contains_text(line.line.as_str(), v.as_str()),
        None => false,
    }
}

/// The launcher exited while its ready condition was awaited: that is the
/// condition itself when it waits for the exit, and otherwise an exit before ready.
pub fn ready_on_exit(kind: ReadyConditionType, code: Option<i32>) -> (r: Result<(), ProcessForwarderError>)
    ensures
        kind == ReadyConditionType::ProcessExited ==> r is Ok,
        kind != ReadyConditionType::ProcessExited ==> (r matches Err(e) && e@ == ForwarderErrorView::ExitedBeforeReady(code)),
{
    match kind {
        ReadyConditionType::ProcessExited => Ok(()),
        _ => Err(ProcessForwarderError::ExitedBeforeReady(code)),
    }
}

/// The ready condition timed out: under `Abort` that ends the launch,
/// otherwise the launch goes on as if ready.
pub fn ready_on_timeout(policy: FailurePolicy) -> (r: Result<(), ProcessForwarderError>)
    ensures
        policy == FailurePolicy::Abort ==> (r matches Err(e) && e@ == ForwarderErrorView::ReadyTimeout),
        policy != FailurePolicy::Abort ==> r is Ok,
{
    match policy {
        FailurePolicy::Abort => Err(ProcessForwarderError::ReadyTimeout),
        _ => Ok(()),
    }
}

/// After the ready wait: an exit before ready ends the launch under `Abort`
/// and is passed over under `Warn` and `Ignore`.
pub fn after_ready(policy: FailurePolicy, outcome: Result<(), ProcessForwarderError>) -> (r: Result<(), ProcessForwarderError>)
    ensures
        match outcome {
            Err(ProcessForwarderError::ExitedBeforeReady(c)) => if policy == FailurePolicy::Abort {
                r matches Err(e) && e@ == ForwarderErrorView::ExitedBeforeReady(c)
            } else {
                r is Ok
            },
            _ => r is Ok,
        },
{
    match outcome {
        Err(ProcessForwarderError::ExitedBeforeReady(code)) => match policy {
            FailurePolicy::Abort => Err(ProcessForwarderError::ExitedBeforeReady(code)),
            _ => Ok(()),
        },
        _ => Ok(()),
    }
}

// ---------------------------------------------------------------------------
// Captured output

/// What `String::from_utf8_lossy` makes of a byte sequence.
pub uninterp spec fn utf8_lossy(bytes: Seq<u8>) -> Seq<char>;

/// `String::from_utf8_lossy`, made owned. Claimed: the text is `utf8_lossy` of
/// the bytes, and for valid UTF-8 it is exactly the text they encode (only
/// invalid sequences are replaced, as the documentation says).
#[verifier::external_body]
fn from_utf8_lossy(bytes: &[u8]) -> (s: String)
    ensures
        s@ == utf8_lossy(bytes@),
        valid_utf8(bytes@) ==> s@ == decode_utf8(bytes@),
{
    String::from_utf8_lossy(bytes).into_owned()
}

/// The text captured on one stream after `line` arrives, and whether that
/// arrival truncated it: at most `MAX_CAPTURED_BYTES` bytes of text are kept
/// (each kept line is followed by a newline), a line is cut to what still fits,
/// and once the limit is reached further lines are dropped.
pub open spec fn appended(target: Seq<char>, line: Seq<char>) -> (Seq<char>, bool) {
    let used = encode_utf8(target).len();
    if used >= MAX_CAPTURED_BYTES {
        (target, true)
    } else {
        let bytes = encode_utf8(line);
        let room = MAX_CAPTURED_BYTES - used;
        let k = if room < bytes.len() { room } else { bytes.len() as int };
        (target + utf8_lossy(bytes.take(k)) + seq!['\n'], k < bytes.len())
    }
}

/// Records one line of the launcher's output.
pub fn append_output(output: &mut CapturedOutput, line: &ForwarderOutput)
    requires
        encode_utf8(old(output).stdout@).len() <= usize::MAX,
        encode_utf8(old(output).stderr@).len() <= usize::MAX,
    ensures
        line.stream == OutputStream::Stdout ==> {
            &&& final(output).stdout@ == appended(old(output).stdout@, line.line@).0
            &&& final(output).stderr@ == old(output).stderr@
            &&& final(output).truncated == (old(output).truncated || appended(old(output).stdout@, line.line@).1)
        },
        line.stream == OutputStream::Stderr ==> {
            &&& final(output).stderr@ == appended(old(output).stderr@, line.line@).0
            &&& final(output).stdout@ == old(output).stdout@
            &&& final(output).truncated == (old(output).truncated || appended(old(output).stderr@, line.line@).1)
        },
        // a line that fits in the room left is kept whole, followed by a newline
        ({
            let target = if line.stream == OutputStream::Stdout { old(output).stdout@ } else { old(output).stderr@ };
            let after = if line.stream == OutputStream::Stdout { final(output).stdout@ } else { final(output).stderr@ };
            encode_utf8(target).len() < MAX_CAPTURED_BYTES
                && encode_utf8(target).len() + encode_utf8(line.line@).len() <= MAX_CAPTURED_BYTES
                ==> after == target + line.line@ + seq!['\n'] && final(output).truncated == old(output).truncated
        }),
{
    broadcast use vstd::utf8::encode_utf8_valid_utf8, vstd::utf8::encode_utf8_decode_utf8;
    let is_stdout = match line.stream {
        OutputStream::Stdout => true,
        OutputStream::Stderr => false,
    };
    let ghost target = if is_stdout { output.stdout@ } else { output.stderr@ };
    let used = if is_stdout { output.stdout.as_str().len() } else { output.stderr.as_str().len() };
    let remaining = MAX_CAPTURED_BYTES.saturating_sub(used);
    if remaining == 0 {
        output.truncated = true;
        return;
    }
    let line_bytes = line.line.as_str().as_bytes();
    let copied = if remaining < line_bytes.len() { remaining } else { line_bytes.len() };
    let kept = from_utf8_lossy(vstd::slice::slice_subrange(line_bytes, 0, copied));
    assert(line_bytes@.subrange(0, copied as int) == line_bytes@.take(copied as int));
    assert(copied == line_bytes.len() ==> line_bytes@.take(copied as int) =~= line_bytes@);
    if is_stdout {
        output.stdout.append(kept.as_str());
        push_char(&mut output.stdout, '\n');
    } else {
        output.stderr.append(kept.as_str());
        push_char(&mut output.stderr, '\n');
    }
    if copied < line_bytes.len() {
        output.truncated = true;
    }
}

/// How a path is shown in messages.
pub fn value_path(path: &str) -> (s: String)
    ensures
        s@ == path@,
{
    string_from(path)
}

} // verus!

verus! {

// ---------------------------------------------------------------------------
// Validated templates resolve

/// Where the text after the last `${...}` of a template begins, scanning from `from`.
pub open spec fn template_tail_from(value: Seq<char>, from: int) -> int
    decreases value.len() - from,
{
    if from < 0 || from > value.len() {
        from
    } else {
        match find_pair_from(value, from, '$', '{') {
            None => from,
            Some(start) => {
                proof { lemma_find_pair_from(value, from, '$', '{'); }
                match find_char_from(value, start + 2, '}') {
                    None => from,
                    Some(end) => {
                        proof { lemma_find_char_from(value, start + 2, '}'); }
                        template_tail_from(value, end + 1)
                    },
                }
            },
        }
    }
}

proof fn lemma_validated_template_resolves_from(value: Seq<char>, from: int, ids: Seq<Seq<char>>, package_root: Seq<char>, ctx: LaunchTemplateContext)
    requires
        0 <= from <= value.len(),
        crate::manifest::template_issue_from(value, from, ids) is None,
        find_char_from(value, template_tail_from(value, from), '}') is None,
        forall|id: Seq<char>| ids.contains(id) ==> #[trigger] first_index_from(keys_of(ctx.external_dependencies@), id, 0) is Some,
    ensures
        resolve_from(value, from, package_root, ctx) is Ok,
    decreases value.len() - from,
{
    lemma_find_pair_from(value, from, '$', '{');
    match find_pair_from(value, from, '$', '{') {
        None => {},
        Some(start) => {
            lemma_find_char_from(value, start + 2, '}');
            match find_char_from(value, start + 2, '}') {
                None => {},
                Some(end) => {
                    let var = value.subrange(start + 2, end);
                    if !crate::manifest::is_builtin_variable(var) {
                        let id = external_variable_id(var)->0;
                        assert(ids.contains(id));
                        assert(first_index_from(keys_of(ctx.external_dependencies@), id, 0) is Some);
                    }
                    lemma_validated_template_resolves_from(value, end + 1, ids, package_root, ctx);
                },
            }
        },
    }
}

/// A launch template that passed manifest validation resolves, once every
/// dependency it may name has a directory in the launch context, provided no
/// `}` follows its last variable (validation lets such a brace through,
/// resolution refuses it).
pub proof fn law_validated_template_resolves(value: Seq<char>, dependencies: Seq<crate::manifest::ExternalDependency>, package_root: Seq<char>, ctx: LaunchTemplateContext)
    requires
        crate::manifest::template_issue(value, dependency_ids(dependencies)) is None,
        find_char_from(value, template_tail_from(value, 0), '}') is None,
        forall|id: Seq<char>| dependency_ids(dependencies).contains(id) ==> #[trigger] first_index_from(keys_of(ctx.external_dependencies@), id, 0) is Some,
    ensures
        resolve_spec(value, package_root, ctx) is Ok,
{
    lemma_validated_template_resolves_from(value, 0, dependency_ids(dependencies), package_root, ctx);
}

} // verus!

verus! {

/// `{:?}` of an exit code.
pub open spec fn exit_code_text(code: Option<i32>) -> Seq<char> {
    match code {
        Some(c) => "Some("@ + crate::text::signed_decimal(c as int) + ")"@,
        None => "None"@,
    }
}

/// The message shown for a launcher error.
pub open spec fn forwarder_error_text(e: ForwarderErrorView) -> Seq<char> {
    match e {
        ForwarderErrorView::UnsupportedAdapterType => "unsupported launcher adapter type"@,
        ForwarderErrorView::InvalidTemplate(v) => "invalid launcher template: "@ + v,
        ForwarderErrorView::MissingExternalDependency(id) => "external dependency is not ready: "@ + id,
        ForwarderErrorView::InvalidExecutable(p) => "launcher executable is not a file: "@ + p,
        ForwarderErrorView::InvalidWorkingDirectory(p) => "launcher working directory is not a directory: "@ + p,
        ForwarderErrorView::SpawnFailed(e) => "failed to start launcher: "@ + e,
        ForwarderErrorView::OutputReaderFailed(e) => "failed to capture launcher output: "@ + e,
        ForwarderErrorView::TimedOut => "launcher process timed out"@,
        ForwarderErrorView::ReadyTimeout => "launcher ready condition timed out"@,
        ForwarderErrorView::ExitedBeforeReady(code) => "launcher exited before ready, code="@ + exit_code_text(code),
    }
}

impl ProcessForwarderError {
    /// The message shown for this error.
    pub fn message(&self) -> (s: String)
        ensures
            s@ == forwarder_error_text(self@),
    {
        match self {
            ProcessForwarderError::UnsupportedAdapterType => string_from("unsupported launcher adapter type"),
            ProcessForwarderError::InvalidTemplate(v) => crate::text::concat2("invalid launcher template: ", v.as_str()),
            ProcessForwarderError::MissingExternalDependency(id) => crate::text::concat2("external dependency is not ready: ", id.as_str()),
            ProcessForwarderError::InvalidExecutable(p) => crate::text::concat2("launcher executable is not a file: ", p.as_str()),
            ProcessForwarderError::InvalidWorkingDirectory(p) => crate::text::concat2("launcher working directory is not a directory: ", p.as_str()),
            ProcessForwarderError::SpawnFailed(e) => crate::text::concat2("failed to start launcher: ", e.as_str()),
            ProcessForwarderError::OutputReaderFailed(e) => crate::text::concat2("failed to capture launcher output: ", e.as_str()),
            ProcessForwarderError::TimedOut => string_from("launcher process timed out"),
            ProcessForwarderError::ReadyTimeout => string_from("launcher ready condition timed out"),
            ProcessForwarderError::ExitedBeforeReady(code) => {
                let shown = match code {
                    Some(c) => {
                        let digits = crate::text::signed_decimal_text(*c as i64);
                        crate::text::concat3("Some(", digits.as_str(), ")")
                    },
                    None => string_from("None"),
                };
                crate::text::concat2("launcher exited before ready, code=", shown.as_str())
            },
        }
    }
}

} // verus!
