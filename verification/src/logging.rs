//! Per-plugin log files: which plugin ids may name a log file, how a logged
//! line reads, and how much of a log is kept.
use vstd::prelude::*;
use crate::text::{concat2, concat3, utf8_len_at_most};

verus! {

/// A log keeps at most this many bytes: its newest ones.
pub const MAX_LOG_BYTES: usize = 2_097_152;

/// `std::io::Error::new(ErrorKind::InvalidInput, message)`. Nothing is claimed
/// of the error value.
#[verifier::external_body]
fn invalid_input_error(message: &str) -> (e: std::io::Error) {
    std::io::Error::new(std::io::ErrorKind::InvalidInput, message.to_string())
}

pub open spec fn is_log_id_char(c: char) -> bool {
    ('a' <= c && c <= 'z') || ('A' <= c && c <= 'Z') || ('0' <= c && c <= '9') || c == '.' || c == '-' || c == '_'
}

/// A plugin id that can name a log file: 1 to 128 bytes, each an ASCII letter,
/// digit, `.`, `-` or `_` (so no path separator can slip in).
pub open spec fn log_id_valid(id: Seq<char>) -> bool {
    &&& id.len() > 0
    &&& vstd::utf8::encode_utf8(id).len() <= 128
    &&& forall|i: int| 0 <= i < id.len() ==> is_log_id_char(#[trigger] id[i])
}

/// A plugin id accepted for a log file has no path separator, no drive colon
/// and no NUL, so `<id>.log` names a file directly inside the log directory.
pub proof fn law_log_id_names_a_plain_file(id: Seq<char>)
    requires
        log_id_valid(id),
    ensures
        forall|i: int| 0 <= i < id.len() ==> #[trigger] id[i] != '/' && id[i] != '\\' && id[i] != ':' && id[i] != '\0',
{
}

/// Refuses a plugin id that cannot name a log file (an `InvalidInput` I/O error).
pub fn validate_plugin_id(plugin_id: &str) -> (r: Result<(), std::io::Error>)
    ensures
        r is Ok <==> log_id_valid(plugin_id@),
{
    let chars = crate::text::chars_of(plugin_id);
    let mut ok = chars.len() > 0 && utf8_len_at_most(plugin_id, 128);
    let mut i: usize = 0;
    while i < chars.len()
        invariant
            chars@ == plugin_id@,
            i <= chars@.len(),
            ok == (chars@.len() > 0 && vstd::utf8::encode_utf8(plugin_id@).len() <= 128
                && forall|k: int| 0 <= k < i ==> is_log_id_char(#[trigger] plugin_id@[k])),
        decreases chars.len() - i,
    {
        let c = chars[i];
        let allowed = ('a' <= c && c <= 'z') || ('A' <= c && c <= 'Z') || ('0' <= c && c <= '9') || c == '.' || c == '-' || c == '_';
        if !allowed {
            ok = false;
        }
        i += 1;
    }
    if !ok {
        return Err(invalid_input_error("invalid plugin id"));
    }
    Ok(())
}

/// The log file of a plugin, inside the log directory.
pub fn log_file_name(plugin_id: &str) -> (name: String)
    ensures
        name@ == plugin_id@ + ".log"@,
{
    concat2(plugin_id, ".log")
}

/// A line as it is written to a plugin's log.
pub open spec fn log_entry_spec(plugin_id: Seq<char>, stream: Seq<char>, line: Seq<char>) -> Seq<char> {
    "[Plugin:"@ + plugin_id + "] ["@ + stream + "] "@ + line + "\n"@
}

pub fn log_entry(plugin_id: &str, stream: &str, line: &str) -> (s: String)
    ensures
        s@ == log_entry_spec(plugin_id@, stream@, line@),
{
    let head = concat3("[Plugin:", plugin_id, "] [");
    let middle = concat3(head.as_str(), stream, "] ");
    concat3(middle.as_str(), line, "\n")
}

/// Where a log of `len` bytes is cut so that its newest `MAX_LOG_BYTES` bytes
/// remain; `None` when it is short enough to keep whole.
pub fn log_trim_start(len: u64) -> (start: Option<u64>)
    ensures
        len <= MAX_LOG_BYTES ==> start is None,
        len > MAX_LOG_BYTES ==> start == Some((len - MAX_LOG_BYTES) as u64),
{
    if len <= MAX_LOG_BYTES as u64 {
        None
    } else {
        Some(len - MAX_LOG_BYTES as u64)
    }
}

/// The log of one plugin: `<plugin id>.log` in the log directory. Writing,
/// reading and clearing the file is the caller's work.
pub struct PluginLogWriter {
    path: String,
    plugin_id: String,
}

impl PluginLogWriter {
    pub closed spec fn path_view(&self) -> Seq<char> {
        self.path@
    }

    pub closed spec fn id_view(&self) -> Seq<char> {
        self.plugin_id@
    }

    /// The log of `plugin_id` inside `directory`; an id that could name
    /// another file is refused.
    pub fn new(directory: &str, plugin_id: &str) -> (r: Result<Self, std::io::Error>)
        ensures
            r is Ok <==> log_id_valid(plugin_id@),
            r matches Ok(w) ==> crate::registry::join_shape(directory@, plugin_id@ + ".log"@, w.path_view())
                && w.id_view() == plugin_id@,
    {
        match validate_plugin_id(plugin_id) {
            Err(e) => return Err(e),
            Ok(()) => {},
        }
        let name = log_file_name(plugin_id);
        Ok(PluginLogWriter {
            path: crate::launch::join_path(directory, name.as_str()),
            plugin_id: crate::text::string_from(plugin_id),
        })
    }

    pub fn path(&self) -> (p: &str)
        ensures
            p@ == self.path_view(),
    {
        self.path.as_str()
    }

    pub fn plugin_id(&self) -> (id: &str)
        ensures
            id@ == self.id_view(),
    {
        self.plugin_id.as_str()
    }

    /// The text appended to the log for one line of a plugin's output.
    pub fn entry(&self, stream: &str, line: &str) -> (s: String)
        ensures
            s@ == log_entry_spec(self.id_view(), stream@, line@),
    {
        log_entry(self.plugin_id.as_str(), stream, line)
    }
}

} // verus!
