//! File-lock diagnosis: which processes hold the files of a mod, and which of
//! them the user may end. Processes are only ever ended after the user
//! approved them and a fresh scan still finds them unchanged; DLLs are never
//! unloaded and handles never closed in another process.
use vstd::prelude::*;
use crate::text::{chars_of, concat2, decimal, decimal_text, string_of};

verus! {

#[derive(Clone, Debug)]
pub struct LockOwner {
    pub pid: u32,
    pub name: String,
    pub executable: String,
    pub started: String,
    pub can_terminate: bool,
}

#[derive(Debug)]
pub struct LockReport {
    pub paths: Vec<String>,
    pub owners: Vec<LockOwner>,
    pub warnings: Vec<String>,
}

impl LockReport {
    pub fn new(paths: Vec<String>) -> (r: Self)
        ensures
            r.paths@ == paths@,
            r.owners@.len() == 0,
            r.warnings@.len() == 0,
    {
        LockReport { paths, owners: Vec::new(), warnings: Vec::new() }
    }
}

// ---------------------------------------------------------------------------
// Describing an owner

/// An owner known only by its process id.
pub fn unknown_owner(pid: u32) -> (o: LockOwner)
    ensures
        o.pid == pid,
        o.name@ == "PID "@ + decimal(pid as nat),
        o.executable@.len() == 0,
        o.started@.len() == 0,
        !o.can_terminate,
{
    let digits = decimal_text(pid as u64);
    proof { reveal_strlit(""); }
    LockOwner {
        pid,
        name: concat2("PID ", digits.as_str()),
        executable: crate::text::string_from(""),
        started: crate::text::string_from(""),
        can_terminate: false,
    }
}

/// The file name of an executable path: the text after its last `\`.
pub open spec fn executable_file_name(path: Seq<char>) -> Seq<char>
    decreases path.len(),
{
    if path.len() == 0 {
        path
    } else if path.last() == '\\' {
        Seq::empty()
    } else {
        executable_file_name(path.drop_last()).push(path.last())
    }
}

pub fn file_name_of(executable: &str) -> (name: String)
    ensures
        name@ == executable_file_name(executable@),
{
    let chars = chars_of(executable);
    let mut start = chars.len();
    while start > 0 && chars[start - 1] != '\\'
        invariant
            chars@ == executable@,
            start <= chars@.len(),
            forall|k: int| start <= k < chars@.len() ==> chars@[k] != '\\',
        decreases start,
    {
        start -= 1;
    }
    proof { lemma_file_name(executable@, start as int); }
    string_of(chars.as_slice(), start, chars.len())
}

proof fn lemma_file_name(path: Seq<char>, start: int)
    requires
        0 <= start <= path.len(),
        start == 0 || path[start - 1] == '\\',
        forall|k: int| start <= k < path.len() ==> path[k] != '\\',
    ensures
        executable_file_name(path) == path.subrange(start, path.len() as int),
    decreases path.len(),
{
    if path.len() == 0 {
    } else if path.last() == '\\' {
        assert(start == path.len());
    } else {
        lemma_file_name(path.drop_last(), if start == path.len() { start - 1 } else { start });
        if start == path.len() {
            assert(path[start - 1] != '\\');
            assert(false);
        }
        assert(path.drop_last().subrange(start, path.len() - 1).push(path.last()) =~= path.subrange(start, path.len() as int));
    }
}

/// The creation time of a process as shown: the two halves of a `FILETIME`
/// joined into one number, in decimal.
pub open spec fn file_time_value(high: u32, low: u32) -> nat {
    (high as nat) * 0x1_0000_0000 + (low as nat)
}

pub fn file_time_text(high: u32, low: u32) -> (s: String)
    ensures
        s@ == decimal(file_time_value(high, low)),
{
    let value: u64 = (high as u64) * 0x1_0000_0000u64 + (low as u64);
    decimal_text(value)
}

/// Whether an owner may be ended: its criticality could be checked and it is
/// not critical, it is not the system (pid 0 to 4) nor this process, and its
/// start time and executable are known.
pub open spec fn may_terminate(critical_checked: bool, critical: bool, pid: u32, own_pid: u32, started: Seq<char>, executable: Seq<char>) -> bool {
    critical_checked && !critical && pid > 4 && pid != own_pid && started.len() > 0 && executable.len() > 0
}

pub fn can_terminate(critical_checked: bool, critical: bool, pid: u32, own_pid: u32, started: &str, executable: &str) -> (b: bool)
    ensures
        b == may_terminate(critical_checked, critical, pid, own_pid, started@, executable@),
{
    critical_checked && !critical && pid > 4 && pid != own_pid && !started.is_empty() && !executable.is_empty()
}

/// An owner found by the Restart Manager, checked against what the process
/// reports now: a start time that differs means the pid was reused, and the
/// owner may not be ended; without an executable path the Restart Manager's
/// name is shown.
pub fn reconcile_owner(process: LockOwner, restart_manager_start: &str, restart_manager_name: &str) -> (o: LockOwner)
    ensures
        o.pid == process.pid,
        o.executable == process.executable,
        o.started == process.started,
        o.can_terminate == (process.can_terminate && process.started@ == restart_manager_start@),
        o.name@ == if process.executable@.len() == 0 { restart_manager_name@ } else { process.name@ },
{
    let mut o = process;
    if !crate::text::str_eq(o.started.as_str(), restart_manager_start) {
        o.can_terminate = false;
    }
    if o.executable.as_str().is_empty() {
        o.name = crate::text::string_from(restart_manager_name);
    }
    o
}

/// UTF-16 decoding with replacement, as `char::decode_utf16` documents it: a
/// unit outside the surrogate range is its own character, a high surrogate
/// followed by a low one is the pair's code point, and any other surrogate is
/// one U+FFFD.
pub open spec fn utf16_lossy(units: Seq<u16>) -> Seq<char>
    decreases units.len(),
{
    if units.len() == 0 {
        Seq::empty()
    } else {
        let a = units[0] as int;
        if a < 0xD800 || a > 0xDFFF {
            seq![a as char] + utf16_lossy(units.drop_first())
        } else if a <= 0xDBFF && units.len() >= 2 && 0xDC00 <= units[1] <= 0xDFFF {
            seq![((a - 0xD800) * 0x400 + (units[1] - 0xDC00) + 0x10000) as char] + utf16_lossy(units.skip(2))
        } else {
            seq!['\u{FFFD}'] + utf16_lossy(units.drop_first())
        }
    }
}

/// `String::from_utf16_lossy`, which decodes with `char::decode_utf16` and puts
/// U+FFFD for each error. Claimed: the result is `utf16_lossy` of the units.
#[verifier::external_body]
fn from_utf16_lossy(units: &[u16]) -> (s: String)
    ensures
        s@ == utf16_lossy(units@),
{
    String::from_utf16_lossy(units)
}

/// The position of the first NUL at or after `i` (the end when there is none).
pub open spec fn first_nul_from(units: Seq<u16>, i: int) -> int
    decreases units.len() - i,
{
    if i < 0 || i >= units.len() {
        units.len() as int
    } else if units[i] == 0 {
        i
    } else {
        first_nul_from(units, i + 1)
    }
}

/// The text of a NUL-terminated UTF-16 buffer: its units before the first NUL.
pub fn wide_text(units: &[u16]) -> (s: String)
    ensures
        s@ == utf16_lossy(units@.take(first_nul_from(units@, 0))),
{
    let mut n: usize = 0;
    while n < units.len() && units[n] != 0
        invariant
            n <= units@.len(),
            first_nul_from(units@, 0) == first_nul_from(units@, n as int),
        decreases units.len() - n,
    {
        n += 1;
    }
    let prefix = vstd::slice::slice_subrange(units, 0, n);
    assert(prefix@ == units@.take(n as int));
    from_utf16_lossy(prefix)
}

// ---------------------------------------------------------------------------
// Directory handles

/// The processes that hold a directory, from the buffer that
/// `NtQueryInformationFile` filled (a count in the low 32 bits of the first
/// word, then one process id per word): ids that fit in 32 bits, without this
/// process. A count that does not fit the buffer is refused.
pub open spec fn directory_owner_ids(buffer: Seq<usize>, own_pid: u32) -> Seq<u32>
    decreases buffer.len(),
{
    if buffer.len() == 0 {
        Seq::empty()
    } else {
        let rest = directory_owner_ids(buffer.drop_last(), own_pid);
        let id = buffer.last();
        if id <= u32::MAX && id != own_pid { rest.push(id as u32) } else { rest }
    }
}

pub fn directory_owners_from_buffer(buffer: &[usize], own_pid: u32) -> (r: Result<Vec<u32>, String>)
    requires
        buffer@.len() > 0,
    ensures
        match r {
            Ok(ids) => (buffer@[0] as int) % 0x1_0000_0000 < buffer@.len()
                && ids@ == directory_owner_ids(buffer@.subrange(1, 1 + (buffer@[0] as int) % 0x1_0000_0000), own_pid),
            Err(msg) => (buffer@[0] as int) % 0x1_0000_0000 >= buffer@.len() && msg@ == "目录句柄列表过大"@,
        },
{
    let count: u64 = (buffer[0] as u64) % 0x1_0000_0000u64;
    if count >= buffer.len() as u64 {
        return Err(crate::text::string_from("目录句柄列表过大"));
    }
    let count = count as usize;
    let mut ids: Vec<u32> = Vec::new();
    let mut i: usize = 1;
    while i <= count
        invariant
            count < buffer@.len(),
            count == (buffer@[0] as int) % 0x1_0000_0000,
            1 <= i <= 1 + count,
            1 + count <= buffer@.len(),
            ids@ == directory_owner_ids(buffer@.subrange(1, i as int), own_pid),
        decreases 1 + count - i,
    {
        let id = buffer[i];
        assert(buffer@.subrange(1, i + 1).drop_last() =~= buffer@.subrange(1, i as int));
        assert(buffer@.subrange(1, i + 1).last() == id);
        if id <= u32::MAX as usize && id != own_pid as usize {
            ids.push(id as u32);
        }
        i += 1;
    }
    Ok(ids)
}

// ---------------------------------------------------------------------------
// The report's owners

/// `owners[j]` is the first owner with its process id.
pub open spec fn first_of_pid(owners: Seq<LockOwner>, j: int) -> bool {
    0 <= j < owners.len() && forall|m: int| 0 <= m < j ==> #[trigger] owners[m].pid != owners[j].pid
}

/// `out[i]` is the first owner of its id in `owners`.
pub open spec fn first_owner_listed(out: Seq<LockOwner>, owners: Seq<LockOwner>, i: int) -> bool {
    exists|j: int| first_of_pid(owners, j) && out[i] == owners[j]
}

/// Some owner of `out` has the process id `pid`.
pub open spec fn pid_listed(out: Seq<LockOwner>, pid: u32) -> bool {
    exists|i: int| 0 <= i < out.len() && out[i].pid == pid
}

/// The owners a report lists: one per process id, in ascending order of id,
/// each the first owner found with that id.
pub open spec fn owners_listed(out: Seq<LockOwner>, owners: Seq<LockOwner>) -> bool {
    &&& forall|a: int, b: int| 0 <= a < b < out.len() ==> #[trigger] out[a].pid < #[trigger] out[b].pid
    &&& forall|i: int| 0 <= i < out.len() ==> #[trigger] first_owner_listed(out, owners, i)
    &&& forall|j: int| 0 <= j < owners.len() ==> #[trigger] pid_listed(out, owners[j].pid)
}

/// Orders the owners by process id and keeps the first owner of each id.
pub fn finalize_owners(owners: Vec<LockOwner>) -> (out: Vec<LockOwner>)
    ensures
        owners_listed(out@, owners@),
{
    let ghost all = owners@;
    let n = owners.len();
    let mut rest = owners;
    let mut out: Vec<LockOwner> = Vec::new();
    // where each listed owner came from, and where each owner seen is listed
    let ghost mut src: Seq<int> = Seq::empty();
    let ghost mut at: Seq<int> = Seq::empty();
    let mut k: usize = 0;
    while rest.len() > 0
        invariant
            k <= all.len(),
            all.len() == n,
            rest@ == all.skip(k as int),
            src.len() == out@.len(),
            at.len() == k,
            forall|a: int, b: int| 0 <= a < b < out@.len() ==> #[trigger] out@[a].pid < #[trigger] out@[b].pid,
            forall|i: int| 0 <= i < out@.len() ==> 0 <= #[trigger] src[i] < k && first_of_pid(all, src[i]) && out@[i] == all[src[i]],
            forall|j: int| 0 <= j < k ==> 0 <= #[trigger] at[j] < out@.len() && out@[at[j]].pid == all[j].pid,
        decreases rest.len(),
    {
        assert(k < all.len());
        assert(rest@[0] == all[k as int]);
        let o = rest.remove(0);
        assert(rest@ =~= all.skip(k + 1));
        let mut p: usize = 0;
        while p < out.len() && out[p].pid < o.pid
            invariant
                p <= out@.len(),
                forall|a: int| 0 <= a < p ==> #[trigger] out@[a].pid < o.pid,
            decreases out.len() - p,
        {
            p += 1;
        }
        if p < out.len() && out[p].pid == o.pid {
            proof {
                at = at.push(p as int);
            }
        } else {
            proof {
                assert forall|m: int| 0 <= m < k implies #[trigger] all[m].pid != all[k as int].pid by {
                    let i = at[m];
                    if all[m].pid == all[k as int].pid {
                        if i < p {
                            assert(out@[i].pid < o.pid);
                        } else if i > p {
                            assert(out@[p as int].pid < out@[i].pid);
                        }
                    }
                }
                assert(first_of_pid(all, k as int));
            }
            let ghost before = out@;
            out.insert(p, o);
            proof {
                src = src.insert(p as int, k as int);
                at = Seq::new(k as nat, |j: int| if at[j] >= p { at[j] + 1 } else { at[j] }).push(p as int);
                assert forall|a: int, b: int| 0 <= a < b < out@.len() implies #[trigger] out@[a].pid < #[trigger] out@[b].pid by {
                    let ea = if a < p { a } else if a == p { -1 } else { a - 1 };
                    let eb = if b < p { b } else if b == p { -1 } else { b - 1 };
                    if a != p as int { assert(out@[a] == before[ea]); }
                    if b != p as int { assert(out@[b] == before[eb]); }
                    if a == p as int && eb > p as int { assert(before[p as int].pid < before[eb].pid); }
                }
                assert forall|i: int| 0 <= i < out@.len() implies 0 <= #[trigger] src[i] < k + 1 && first_of_pid(all, src[i]) && out@[i] == all[src[i]] by {
                    if i < p { assert(out@[i] == before[i]); } else if i > p { assert(out@[i] == before[i - 1]); }
                }
                assert forall|j: int| 0 <= j < k + 1 implies 0 <= #[trigger] at[j] < out@.len() && out@[at[j]].pid == all[j].pid by {
                    if j < k {
                        let w = if at[j] >= p { at[j] - 1 } else { at[j] };
                        if at[j] >= p { assert(out@[at[j]] == before[at[j] - 1]); } else { assert(out@[at[j]] == before[at[j]]); }
                    }
                }
            }
        }
        k += 1;
    }
    assert(k == all.len());
    assert forall|i: int| 0 <= i < out@.len() implies #[trigger] first_owner_listed(out@, all, i) by {
        assert(first_of_pid(all, src[i]) && out@[i] == all[src[i]]);
    }
    assert forall|j: int| 0 <= j < all.len() implies #[trigger] pid_listed(out@, all[j].pid) by {
        assert(0 <= at[j] < out@.len() && out@[at[j]].pid == all[j].pid);
    }
    out
}

// ---------------------------------------------------------------------------
// Ending an owner

/// The check made before a process is ended, whatever the user approved.
pub fn terminate_guard(process: &LockOwner, own_pid: u32) -> (r: Result<(), String>)
    ensures
        r is Ok <==> (process.can_terminate && process.pid > 4 && process.pid != own_pid),
        r matches Err(msg) ==> msg@ == "不能结束此进程"@,
{
    if !process.can_terminate || process.pid <= 4 || process.pid == own_pid {
        return Err(crate::text::string_from("不能结束此进程"));
    }
    Ok(())
}

/// The owner in a fresh scan that an approval still stands for: the same
/// process id and start time, and still allowed to be ended.
pub open spec fn approval_matches(current: LockOwner, approved: LockOwner) -> bool {
    current.pid == approved.pid && current.started@ == approved.started@ && current.can_terminate
}

pub fn approved_owner(current: &Vec<LockOwner>, approved: &LockOwner) -> (r: Option<usize>)
    ensures
        match r {
            Some(i) => i < current@.len() && approval_matches(current@[i as int], *approved)
                && forall|j: int| 0 <= j < i ==> !approval_matches(#[trigger] current@[j], *approved),
            None => forall|j: int| 0 <= j < current@.len() ==> !approval_matches(#[trigger] current@[j], *approved),
        },
{
    let mut i: usize = 0;
    while i < current.len()
        invariant
            i <= current@.len(),
            forall|j: int| 0 <= j < i ==> !approval_matches(#[trigger] current@[j], *approved),
        decreases current.len() - i,
    {
        let c = &current[i];
        if c.pid == approved.pid && crate::text::str_eq(c.started.as_str(), approved.started.as_str()) && c.can_terminate {
            return Some(i);
        }
        i += 1;
    }
    None
}

// ---------------------------------------------------------------------------
// Renaming a mod while something may hold it

/// What to do after a rename attempt failed with an OS error code.
#[derive(Debug, Clone, PartialEq, Eq)]
pub enum RenameStep {
    /// Wait this many milliseconds and try again.
    Retry(u64),
    /// Give up; `true` when the failure was a lock (access denied, sharing or
    /// lock violation), reported as `FILE_LOCKED`.
    Fail(bool),
}

/// The OS error codes that mean the file is held by another process.
pub open spec fn is_lock_error(code: Option<i32>) -> bool {
    code == Some(5i32) || code == Some(32i32) || code == Some(33i32)
}

/// A failed rename is retried up to three times, waiting 120 ms longer each
/// time, when the file is held; any other failure, or the fourth, ends it.
pub fn rename_failure_step(attempt: u64, raw_os_error: Option<i32>) -> (s: RenameStep)
    ensures
        attempt < 3 && is_lock_error(raw_os_error) ==> s == RenameStep::Retry((120 * (attempt + 1)) as u64),
        !(attempt < 3 && is_lock_error(raw_os_error)) ==> s == RenameStep::Fail(is_lock_error(raw_os_error)),
{
    let locked = match raw_os_error {
        Some(code) => code == 5 || code == 32 || code == 33,
        None => false,
    };
    if attempt < 3 && locked {
        RenameStep::Retry(120 * (attempt + 1))
    } else {
        RenameStep::Fail(locked)
    }
}

/// The message of a failed rename: a lock is marked `FILE_LOCKED`.
pub fn rename_failure_message(locked: bool, error_text: &str) -> (s: String)
    ensures
        locked ==> s@ == "FILE_LOCKED: "@ + error_text@,
        !locked ==> s@ == error_text@,
{
    if locked {
        concat2("FILE_LOCKED: ", error_text)
    } else {
        crate::text::string_from(error_text)
    }
}

// ---------------------------------------------------------------------------
// Where the Restart Manager is not available

/// Lock diagnosis needs the Windows Restart Manager; elsewhere it is refused.
pub fn scan(paths: &[String], report: &mut LockReport) -> (r: Result<(), String>)
    ensures
        r matches Err(msg) && msg@ == "占用诊断仅支持 Windows"@,
        final(report).owners@ == old(report).owners@,
        final(report).warnings@ == old(report).warnings@,
{
    Err(crate::text::string_from("占用诊断仅支持 Windows"))
}

/// Ending a process is only offered on Windows; elsewhere it is refused.
pub fn terminate(process: &LockOwner) -> (r: Result<(), String>)
    ensures
        r matches Err(msg) && msg@ == "仅支持 Windows"@,
{
    Err(crate::text::string_from("仅支持 Windows"))
}

/// At most this many paths are expanded for one scan.
pub const MAX_SCANNED_PATHS: usize = 20000;

/// The warning given once when a scan reaches `MAX_SCANNED_PATHS`.
pub fn scan_limit_warning() -> (s: &'static str)
    ensures
        s@ == "目录超过 20000 项，扫描结果不完整，请缩小范围。"@,
{
    "目录超过 20000 项，扫描结果不完整，请缩小范围。"
}

/// Whether a scan that has expanded `expanded` paths may take one more.
pub fn scan_has_room(expanded: usize) -> (b: bool)
    ensures
        b == (expanded < MAX_SCANNED_PATHS),
{
    expanded < MAX_SCANNED_PATHS
}

/// Whether a mod directory may be renamed: only to a sibling (same parent),
/// only below the watched root and not the root itself, and only where the new
/// name is free.
pub fn check_rename_request(same_parent: bool, source_is_root: bool, source_under_root: bool, destination_exists: bool) -> (r: Result<(), String>)
    ensures
        !same_parent || source_is_root || !source_under_root ==> (r matches Err(e) && e@ == "只支持 Mods 目录中的同级重命名"@),
        same_parent && !source_is_root && source_under_root && destination_exists ==> (r matches Err(e) && e@ == "目标目录已存在"@),
        same_parent && !source_is_root && source_under_root && !destination_exists ==> r is Ok,
{
    if !same_parent || source_is_root || !source_under_root {
        proof { reveal_strlit("只支持 Mods 目录中的同级重命名"); }
        return Err(crate::text::string_from("只支持 Mods 目录中的同级重命名"));
    }
    if destination_exists {
        proof { reveal_strlit("目标目录已存在"); }
        return Err(crate::text::string_from("目标目录已存在"));
    }
    Ok(())
}

} // verus!
