//! Plugin packages (`.ssmtpkg` zip archives): the checks every archive entry
//! passes before anything is written, and the limits on what an archive may
//! hold. Reading the archive and writing files is the caller's work; it asks
//! these checks about each entry, in the archive's order.
use vstd::prelude::*;
use crate::manifest::{package_path_valid, PluginManifestError};
use crate::registry::{find_key, first_index_from, keys_of, lemma_first_index_from, PluginRegistryError};
use crate::settings::lookup;
use crate::text::{chars_of, concat2, concat3, push_char, starts_with, string_from, string_of};

verus! {

pub const MANIFEST_FILE_NAME: &'static str = "ssmt-plugin.json";
pub const MAX_ARCHIVE_ENTRIES: usize = 4096;
pub const MAX_ENTRY_BYTES: u64 = 134_217_728;
pub const MAX_ARCHIVE_BYTES: u64 = 536_870_912;

/// `zip::result::ZipError`, carried as it is.
#[verifier::external_type_specification]
#[verifier::external_body]
pub struct ExZipError(zip::result::ZipError);

#[derive(Debug)]
pub enum PackageInstallError {
    Io(std::io::Error),
    Zip(zip::result::ZipError),
    Manifest(PluginManifestError),
    Registry(PluginRegistryError),
    UnsafePath(String),
    SymlinkEntry(String),
    MissingManifest,
    InvalidArchive(String),
    ResourceLimit(String),
    DuplicateEntry(String),
}

/// The error's kind and its text (an I/O or archive-reader failure is opaque).
pub enum PackageErrorView {
    Io,
    Zip,
    Manifest(crate::manifest::ManifestErrorView),
    Registry(crate::registry::RegistryErrorView),
    UnsafePath(Seq<char>),
    SymlinkEntry(Seq<char>),
    MissingManifest,
    InvalidArchive(Seq<char>),
    ResourceLimit(Seq<char>),
    DuplicateEntry(Seq<char>),
}

impl View for PackageInstallError {
    type V = PackageErrorView;

    open spec fn view(&self) -> PackageErrorView {
        match self {
            PackageInstallError::UnsafePath(s) => PackageErrorView::UnsafePath(s@),
            PackageInstallError::SymlinkEntry(s) => PackageErrorView::SymlinkEntry(s@),
            PackageInstallError::InvalidArchive(s) => PackageErrorView::InvalidArchive(s@),
            PackageInstallError::ResourceLimit(s) => PackageErrorView::ResourceLimit(s@),
            PackageInstallError::DuplicateEntry(s) => PackageErrorView::DuplicateEntry(s@),
            PackageInstallError::Io(_) => PackageErrorView::Io,
            PackageInstallError::Zip(_) => PackageErrorView::Zip,
            PackageInstallError::Manifest(m) => PackageErrorView::Manifest(m@),
            PackageInstallError::Registry(r) => PackageErrorView::Registry(r@),
            PackageInstallError::MissingManifest => PackageErrorView::MissingManifest,
        }
    }
}

// ---------------------------------------------------------------------------
// Entry names

/// What `str::to_lowercase` makes of a text (Unicode's lower-case mapping).
pub uninterp spec fn unicode_lowercase(s: Seq<char>) -> Seq<char>;

/// `str::to_lowercase`. Claimed: the result is `unicode_lowercase` of the text.
#[verifier::external_body]
fn to_lowercase(s: &str) -> (r: String)
    ensures
        r@ == unicode_lowercase(s@),
{
    s.to_lowercase()
}

/// The text without its trailing `/` characters.
pub open spec fn trim_trailing_slashes(s: Seq<char>) -> Seq<char>
    decreases s.len(),
{
    if s.len() > 0 && s.last() == '/' { trim_trailing_slashes(s.drop_last()) } else { s }
}

/// `\` read as `/`.
pub open spec fn forward_slashes(s: Seq<char>) -> Seq<char> {
    s.map_values(|c: char| if c == '\\' { '/' } else { c })
}

/// The name under which an entry is compared with the others: separators
/// made `/` and letters lower-cased, as on a case-insensitive file system.
pub open spec fn comparison_name(relative: Seq<char>) -> Seq<char> {
    unicode_lowercase(forward_slashes(relative))
}

fn trimmed_name(raw: &str) -> (r: String)
    ensures
        r@ == trim_trailing_slashes(raw@),
{
    let chars = chars_of(raw);
    let mut end = chars.len();
    assert(raw@.take(end as int) =~= raw@);
    while end > 0 && chars[end - 1] == '/'
        invariant
            chars@ == raw@,
            end <= chars@.len(),
            trim_trailing_slashes(raw@) == trim_trailing_slashes(raw@.take(end as int)),
        decreases end,
    {
        assert(raw@.take(end as int).drop_last() =~= raw@.take(end - 1));
        end -= 1;
    }
    assert(raw@.take(end as int) =~= chars@.subrange(0, end as int));
    string_of(chars.as_slice(), 0, end)
}

fn with_forward_slashes(s: &str) -> (r: String)
    ensures
        r@ == forward_slashes(s@),
{
    let chars = chars_of(s);
    let mut out = String::new();
    let mut i: usize = 0;
    while i < chars.len()
        invariant
            chars@ == s@,
            i <= chars@.len(),
            out@ == forward_slashes(s@).take(i as int),
        decreases chars.len() - i,
    {
        let c = if chars[i] == '\\' { '/' } else { chars[i] };
        push_char(&mut out, c);
        assert(forward_slashes(s@).take(i + 1) =~= forward_slashes(s@).take(i as int).push(c));
        i += 1;
    }
    assert(forward_slashes(s@).take(i as int) =~= forward_slashes(s@));
    out
}

// ---------------------------------------------------------------------------
// Collisions between entries

/// Entry `name` collides with the entries seen so far (comparison name and
/// whether it was a directory): the name was seen, a directory above it was
/// seen as a file, or, for a file, something was seen below it.
pub open spec fn collides(seen: Seq<(String, bool)>, name: Seq<char>, is_directory: bool) -> bool {
    ||| lookup(seen, name) is Some
    ||| exists|i: int| 0 <= i < name.len() && name[i] == '/' && #[trigger] lookup(seen, name.take(i)) == Some(false)
    ||| (!is_directory && exists|k: int| 0 <= k < seen.len() && starts_with(#[trigger] seen[k].0@, name + seq!['/']))
}

fn lookup_entry(seen: &Vec<(String, bool)>, name: &str) -> (r: Option<bool>)
    ensures
        r == lookup(seen@, name@),
{
    proof { lemma_first_index_from(keys_of(seen@), name@, 0); }
    match find_key(seen, name) {
        Some(i) => Some(seen[i].1),
        None => None,
    }
}

fn collides_exec(seen: &Vec<(String, bool)>, name: &str, is_directory: bool) -> (b: bool)
    ensures
        b == collides(seen@, name@, is_directory),
{
    if lookup_entry(seen, name).is_some() {
        return true;
    }
    let chars = chars_of(name);
    let mut i: usize = 0;
    while i < chars.len()
        invariant
            chars@ == name@,
            i <= chars@.len(),
            forall|j: int| 0 <= j < i && name@[j] == '/' ==> #[trigger] lookup(seen@, name@.take(j)) != Some(false),
        decreases chars.len() - i,
    {
        if chars[i] == '/' {
            let parent = string_of(chars.as_slice(), 0, i);
            assert(parent@ == name@.take(i as int));
            if lookup_entry(seen, parent.as_str()) == Some(false) {
                return true;
            }
        }
        i += 1;
    }
    if is_directory {
        return false;
    }
    let mut below = chars_of(name);
    below.push('/');
    assert(below@ == name@ + seq!['/']);
    let mut k: usize = 0;
    while k < seen.len()
        invariant
            !is_directory,
            lookup(seen@, name@) is None,
            forall|j: int| 0 <= j < name@.len() && name@[j] == '/' ==> #[trigger] lookup(seen@, name@.take(j)) != Some(false),
            below@ == name@ + seq!['/'],
            k <= seen@.len(),
            forall|j: int| 0 <= j < k ==> !starts_with(#[trigger] seen@[j].0@, name@ + seq!['/']),
        decreases seen.len() - k,
    {
        let key_chars = chars_of(seen[k].0.as_str());
        if crate::text::range_starts_with(key_chars.as_slice(), 0, below.as_slice()) {
            assert(key_chars@.skip(0) =~= key_chars@);
            assert(starts_with(seen@[k as int].0@, name@ + seq!['/']));
            return true;
        }
        assert(key_chars@.skip(0) =~= key_chars@);
        k += 1;
    }
    false
}

// ---------------------------------------------------------------------------
// The extraction state machine

/// What to do with an admitted entry: make the directory, or write the file,
/// at `relative_path` (with `/` separators) inside the destination.
#[derive(Debug, Clone, PartialEq, Eq)]
pub struct EntryPlan {
    pub relative_path: String,
    pub is_directory: bool,
}

/// The checks' memory across the entries of one archive: the comparison
/// names seen (and whether each was a directory), and the declared and the
/// extracted byte totals (saturating).
pub struct ArchiveExtraction {
    seen: Vec<(String, bool)>,
    declared_total: u64,
    extracted_total: u64,
}

/// The entry-count limit.
pub open spec fn entry_count_issue(len: usize) -> Option<PackageErrorView> {
    if len > MAX_ARCHIVE_ENTRIES {
        Some(PackageErrorView::ResourceLimit(crate::text::decimal(len as nat) + " entries exceeds limit 4096"@))
    } else {
        None
    }
}

pub open spec fn entry_limit_text(raw: Seq<char>) -> Seq<char> {
    "entry exceeds 134217728 bytes: "@ + raw
}

pub open spec fn saturating_add(a: u64, b: u64) -> u64 {
    if a + b > u64::MAX { u64::MAX } else { (a + b) as u64 }
}

/// Whether a Unix mode marks a symbolic link.
pub open spec fn is_symlink_mode(mode: Option<u32>) -> bool {
    mode matches Some(m) && (m & 0o170000u32) == 0o120000u32
}

/// The outcome of admitting an entry, given the names seen and the declared
/// total so far: skipped (an empty name), refused, or planned.
pub open spec fn admit_outcome(seen: Seq<(String, bool)>, declared_total: u64, raw: Seq<char>, is_directory: bool, size: u64, mode: Option<u32>) -> Result<Option<(Seq<char>, bool)>, PackageErrorView> {
    let relative = trim_trailing_slashes(raw);
    if relative.len() == 0 {
        Ok(None)
    } else if collides(seen, comparison_name(relative), is_directory) {
        Err(PackageErrorView::DuplicateEntry(raw))
    } else if !package_path_valid(relative) {
        Err(PackageErrorView::UnsafePath(raw))
    } else if size > MAX_ENTRY_BYTES {
        Err(PackageErrorView::ResourceLimit(entry_limit_text(raw)))
    } else if saturating_add(declared_total, size) > MAX_ARCHIVE_BYTES {
        Err(PackageErrorView::ResourceLimit("declared package size exceeds 536870912 bytes"@))
    } else if is_symlink_mode(mode) {
        Err(PackageErrorView::SymlinkEntry(raw))
    } else {
        Ok(Some((forward_slashes(relative), is_directory)))
    }
}

/// The outcome of recording a file's extracted size against its declared one.
pub open spec fn record_outcome(extracted_total: u64, raw: Seq<char>, copied: u64, size: u64) -> Option<PackageErrorView> {
    if copied > MAX_ENTRY_BYTES {
        Some(PackageErrorView::ResourceLimit(entry_limit_text(raw)))
    } else if saturating_add(extracted_total, copied) > MAX_ARCHIVE_BYTES {
        Some(PackageErrorView::ResourceLimit("extracted package size exceeds 536870912 bytes"@))
    } else if copied != size {
        Some(PackageErrorView::InvalidArchive("entry size mismatch: "@ + raw))
    } else {
        None
    }
}

impl ArchiveExtraction {
    pub closed spec fn seen_view(&self) -> Seq<(String, bool)> {
        self.seen@
    }

    pub closed spec fn declared_view(&self) -> u64 {
        self.declared_total
    }

    pub closed spec fn extracted_view(&self) -> u64 {
        self.extracted_total
    }

    /// Nothing seen yet.
    pub fn new() -> (s: Self)
        ensures
            s.seen_view().len() == 0,
            s.declared_view() == 0,
            s.extracted_view() == 0,
    {
        ArchiveExtraction { seen: Vec::new(), declared_total: 0, extracted_total: 0 }
    }

    /// Refuses an archive with more entries than the limit.
    pub fn check_entry_count(len: usize) -> (r: Result<(), PackageInstallError>)
        ensures
            match entry_count_issue(len) {
                None => r is Ok,
                Some(e) => r matches Err(x) && x@ == e,
            },
    {
        if len > MAX_ARCHIVE_ENTRIES {
            let count = crate::text::decimal_text(len as u64);
            return Err(PackageInstallError::ResourceLimit(concat2(count.as_str(), " entries exceeds limit 4096")));
        }
        Ok(())
    }

    /// Checks the next entry of the archive: its name (`raw`, as stored),
    /// whether it is a directory, its declared size and its Unix mode.
    pub fn admit_entry(&mut self, raw: &str, is_directory: bool, size: u64, unix_mode: Option<u32>) -> (r: Result<Option<EntryPlan>, PackageInstallError>)
        ensures
            final(self).extracted_view() == old(self).extracted_view(),
            match admit_outcome(old(self).seen_view(), old(self).declared_view(), raw@, is_directory, size, unix_mode) {
                Ok(None) => r matches Ok(None) && final(self).seen_view() == old(self).seen_view()
                    && final(self).declared_view() == old(self).declared_view(),
                Ok(Some((path, dir))) => r matches Ok(Some(plan)) && plan.relative_path@ == path && plan.is_directory == dir
                    && final(self).declared_view() == saturating_add(old(self).declared_view(), size)
                    && final(self).seen_view().len() == old(self).seen_view().len() + 1
                    && final(self).seen_view().take(old(self).seen_view().len() as int) == old(self).seen_view()
                    && final(self).seen_view().last().0@ == comparison_name(trim_trailing_slashes(raw@))
                    && final(self).seen_view().last().1 == is_directory,
                Err(e) => r matches Err(x) && x@ == e,
            },
    {
        let relative = trimmed_name(raw);
        if relative.as_str().is_empty() {
            return Ok(None);
        }
        let slashed = with_forward_slashes(relative.as_str());
        let normalized = to_lowercase(slashed.as_str());
        if collides_exec(&self.seen, normalized.as_str(), is_directory) {
            return Err(PackageInstallError::DuplicateEntry(string_from(raw)));
        }
        let ghost before = self.seen@;
        self.seen.push((normalized, is_directory));
        if !crate::manifest::package_path_ok(relative.as_str()) {
            return Err(PackageInstallError::UnsafePath(string_from(raw)));
        }
        if size > MAX_ENTRY_BYTES {
            return Err(PackageInstallError::ResourceLimit(concat2("entry exceeds 134217728 bytes: ", raw)));
        }
        self.declared_total = self.declared_total.saturating_add(size);
        if self.declared_total > MAX_ARCHIVE_BYTES {
            return Err(PackageInstallError::ResourceLimit(string_from("declared package size exceeds 536870912 bytes")));
        }
        match unix_mode {
            Some(mode) => {
                if mode & 0o170000u32 == 0o120000u32 {
                    return Err(PackageInstallError::SymlinkEntry(string_from(raw)));
                }
            },
            None => {},
        }
        assert(self.seen@.take(before.len() as int) =~= before);
        Ok(Some(EntryPlan { relative_path: slashed, is_directory }))
    }

    /// Records a file entry once written: `copied` bytes were read from it
    /// (reading stops one byte past the entry limit) against its declared `size`.
    pub fn record_extracted(&mut self, raw: &str, copied: u64, size: u64) -> (r: Result<(), PackageInstallError>)
        ensures
            final(self).seen_view() == old(self).seen_view(),
            final(self).declared_view() == old(self).declared_view(),
            copied <= MAX_ENTRY_BYTES ==> final(self).extracted_view() == saturating_add(old(self).extracted_view(), copied),
            match record_outcome(old(self).extracted_view(), raw@, copied, size) {
                None => r is Ok,
                Some(e) => r matches Err(x) && x@ == e,
            },
    {
        if copied > MAX_ENTRY_BYTES {
            return Err(PackageInstallError::ResourceLimit(concat2("entry exceeds 134217728 bytes: ", raw)));
        }
        self.extracted_total = self.extracted_total.saturating_add(copied);
        if self.extracted_total > MAX_ARCHIVE_BYTES {
            return Err(PackageInstallError::ResourceLimit(string_from("extracted package size exceeds 536870912 bytes")));
        }
        if copied != size {
            return Err(PackageInstallError::InvalidArchive(concat2("entry size mismatch: ", raw)));
        }
        Ok(())
    }
}

/// Refuses an archive path that is not a file.
pub fn check_archive_exists(archive_path: &str, is_file: bool) -> (r: Result<(), PackageInstallError>)
    ensures
        is_file ==> r is Ok,
        !is_file ==> (r matches Err(x) && x@ == PackageErrorView::InvalidArchive("archive does not exist: "@ + archive_path@)),
{
    if !is_file {
        return Err(PackageInstallError::InvalidArchive(concat2("archive does not exist: ", archive_path)));
    }
    Ok(())
}

} // verus!

verus! {

// ---------------------------------------------------------------------------
// What an admitted entry guarantees

proof fn lemma_forward_slashes_keeps_validity(r: Seq<char>)
    requires
        package_path_valid(r),
    ensures
        package_path_valid(forward_slashes(r)),
        forall|k: int| 0 <= k < r.len() ==> #[trigger] forward_slashes(r)[k] != '\\',
{
    let f = forward_slashes(r);
    assert forall|k: int| 0 <= k < f.len() implies #[trigger] f[k] != '\0' by {
        assert(r[k] != '\0');
    }
    assert forall|i: int, j: int| #[trigger] crate::manifest::is_segment(f, i, j) implies crate::manifest::segment_ok(f.subrange(i, j)) by {
        assert forall|k: int| i <= k < j implies !crate::manifest::is_separator(#[trigger] r[k]) by {
            assert(!crate::manifest::is_separator(f[k]));
        }
        if i > 0 {
            assert(crate::manifest::is_separator(f[i - 1]));
        }
        if j < f.len() {
            assert(crate::manifest::is_separator(f[j]));
        }
        assert(crate::manifest::is_segment(r, i, j));
        assert(f.subrange(i, j) =~= r.subrange(i, j));
    }
}

/// An entry that the checks admit is safe to write: its path (with `/`
/// separators) is a package path that stays inside the destination, no entry
/// before it had the same name or a name that clashes with it, it is within
/// the size limits, and it is not a symbolic link.
pub proof fn law_admitted_entry_is_safe(seen: Seq<(String, bool)>, declared_total: u64, raw: Seq<char>, is_directory: bool, size: u64, mode: Option<u32>)
    requires
        admit_outcome(seen, declared_total, raw, is_directory, size, mode) is Ok,
        admit_outcome(seen, declared_total, raw, is_directory, size, mode)->Ok_0 is Some,
    ensures
        ({
            let (path, dir) = admit_outcome(seen, declared_total, raw, is_directory, size, mode)->Ok_0->0;
            &&& package_path_valid(path)
            &&& forall|k: int| 0 <= k < path.len() ==> path[k] != '\\'
            &&& dir == is_directory
        }),
        !collides(seen, comparison_name(trim_trailing_slashes(raw)), is_directory),
        size <= MAX_ENTRY_BYTES,
        saturating_add(declared_total, size) <= MAX_ARCHIVE_BYTES,
        !is_symlink_mode(mode),
{
    lemma_forward_slashes_keeps_validity(trim_trailing_slashes(raw));
}

} // verus!

verus! {

/// `zip::result::ZipError`'s `Display` text. What it says is left unsaid.
#[verifier::external_body]
fn zip_error_text(error: &zip::result::ZipError) -> (s: String) {
    error.to_string()
}

/// The message shown for a package error, where its text is the library's own
/// (an I/O or archive-reader failure, and a registry I/O failure, carry the
/// text of their source after `package_error_prefix`).
pub open spec fn package_error_text(e: PackageErrorView) -> Option<Seq<char>> {
    match e {
        PackageErrorView::Io => None,
        PackageErrorView::Zip => None,
        PackageErrorView::Manifest(m) => Some("package manifest error: "@ + crate::manifest::manifest_error_text(m)),
        PackageErrorView::Registry(r) => if r is Io {
            None
        } else {
            Some("plugin registry error: "@ + crate::registry::registry_error_text(r))
        },
        PackageErrorView::UnsafePath(p) => Some("unsafe package path: "@ + p),
        PackageErrorView::SymlinkEntry(p) => Some("package contains symlink: "@ + p),
        PackageErrorView::MissingManifest => Some("package manifest is missing"@),
        PackageErrorView::InvalidArchive(m) => Some("invalid package archive: "@ + m),
        PackageErrorView::ResourceLimit(m) => Some("package resource limit exceeded: "@ + m),
        PackageErrorView::DuplicateEntry(p) => Some("duplicate package archive entry: "@ + p),
    }
}

/// How the message begins for the errors that carry the text of their source.
pub open spec fn package_error_prefix(e: PackageErrorView) -> Seq<char> {
    match e {
        PackageErrorView::Io => "package I/O error: "@,
        PackageErrorView::Zip => "invalid package archive: "@,
        PackageErrorView::Registry(r) => "plugin registry error: "@ + crate::registry::registry_error_text(r),
        _ => Seq::empty(),
    }
}

impl PackageInstallError {
    /// The message shown for this error.
    pub fn message(&self) -> (s: String)
        ensures
            package_error_text(self@) matches Some(t) ==> s@ == t,
            package_error_text(self@) is None ==> starts_with(s@, package_error_prefix(self@)),
    {
        proof {
            reveal_strlit("package I/O error: ");
            reveal_strlit("invalid package archive: ");
            reveal_strlit("plugin registry error: ");
        }
        match self {
            PackageInstallError::Io(e) => {
                let detail = crate::registry::io_error_text(e);
                let s = concat2("package I/O error: ", detail.as_str());
                assert(s@.take("package I/O error: "@.len() as int) =~= "package I/O error: "@);
                s
            },
            PackageInstallError::Zip(e) => {
                let detail = zip_error_text(e);
                let s = concat2("invalid package archive: ", detail.as_str());
                assert(s@.take("invalid package archive: "@.len() as int) =~= "invalid package archive: "@);
                s
            },
            PackageInstallError::Manifest(m) => {
                let detail = m.message();
                concat2("package manifest error: ", detail.as_str())
            },
            PackageInstallError::Registry(r) => {
                let detail = r.message();
                let s = concat2("plugin registry error: ", detail.as_str());
                proof {
                    if r@ is Io {
                        let t = crate::registry::registry_error_text(r@);
                        let p = "plugin registry error: "@;
                        assert(s@.take((p + t).len() as int) =~= p + detail@.take(t.len() as int));
                    }
                }
                s
            },
            PackageInstallError::UnsafePath(p) => concat2("unsafe package path: ", p.as_str()),
            PackageInstallError::SymlinkEntry(p) => concat2("package contains symlink: ", p.as_str()),
            PackageInstallError::MissingManifest => string_from("package manifest is missing"),
            PackageInstallError::InvalidArchive(m) => concat2("invalid package archive: ", m.as_str()),
            PackageInstallError::ResourceLimit(m) => concat2("package resource limit exceeded: ", m.as_str()),
            PackageInstallError::DuplicateEntry(p) => concat2("duplicate package archive entry: ", p.as_str()),
        }
    }
}

} // verus!
