//! The curated marketplace catalog: which packages may be offered for download
//! and which SSMT versions, platforms and games each one supports.
use vstd::prelude::*;
use crate::manifest::{
    normalize_requirement, normalize_version_requirement, ExternalDependency, PluginPermission,
    SUPPORTED_PLATFORM,
};
use crate::text::{concat2, concat3, is_blank, is_blank_seq, str_eq, string_from};
use crate::versions::{
    requirement_matches, requirement_parses, semver_requirement_matches, semver_requirement_parses,
    semver_version_parses, version_parses,
};

verus! {

pub const MARKETPLACE_SCHEMA_VERSION: u32 = 1;

#[derive(Debug, Clone, PartialEq, Eq)]
pub struct MarketplaceCatalog {
    pub schema_version: u32,
    pub entries: Vec<MarketplaceEntry>,
}

#[derive(Debug, Clone, PartialEq, Eq)]
pub struct MarketplaceEntry {
    pub id: String,
    pub name: String,
    pub description: String,
    pub author: String,
    pub version: String,
    pub download_url: String,
    pub sha256: String,
    pub minimum_ssmt_version: String,
    pub maximum_ssmt_version: Option<String>,
    pub supported_platforms: Vec<String>,
    pub supported_games: Vec<String>,
    pub package_size: u64,
    pub permissions: Vec<PluginPermission>,
    pub external_dependencies: Vec<ExternalDependency>,
    /// Third-party payloads must stay dependencies the user provides; listing
    /// one here makes a redistribution visible, and the catalog is refused.
    pub bundled_third_party_payloads: Vec<String>,
}

#[derive(Debug, Clone, PartialEq, Eq)]
pub enum MarketplaceError {
    UnsupportedSchema(u32),
    InvalidEntry(String),
    DuplicateEntry(String),
    InvalidUrl(String),
    InvalidHash(String),
    UnsupportedPlatform(String),
    BundledThirdPartyPayload(String),
}

pub enum MarketplaceErrorView {
    UnsupportedSchema(u32),
    InvalidEntry(Seq<char>),
    DuplicateEntry(Seq<char>),
    InvalidUrl(Seq<char>),
    InvalidHash(Seq<char>),
    UnsupportedPlatform(Seq<char>),
    BundledThirdPartyPayload(Seq<char>),
}

impl View for MarketplaceError {
    type V = MarketplaceErrorView;

    open spec fn view(&self) -> MarketplaceErrorView {
        match self {
            MarketplaceError::UnsupportedSchema(v) => MarketplaceErrorView::UnsupportedSchema(*v),
            MarketplaceError::InvalidEntry(s) => MarketplaceErrorView::InvalidEntry(s@),
            MarketplaceError::DuplicateEntry(s) => MarketplaceErrorView::DuplicateEntry(s@),
            MarketplaceError::InvalidUrl(s) => MarketplaceErrorView::InvalidUrl(s@),
            MarketplaceError::InvalidHash(s) => MarketplaceErrorView::InvalidHash(s@),
            MarketplaceError::UnsupportedPlatform(s) => MarketplaceErrorView::UnsupportedPlatform(s@),
            MarketplaceError::BundledThirdPartyPayload(s) => MarketplaceErrorView::BundledThirdPartyPayload(s@),
        }
    }
}

/// The message shown for a marketplace error.
pub open spec fn marketplace_error_text(e: MarketplaceErrorView) -> Seq<char> {
    match e {
        MarketplaceErrorView::UnsupportedSchema(v) => "unsupported marketplace schema: "@ + crate::text::decimal(v as nat),
        MarketplaceErrorView::InvalidEntry(s) => "invalid marketplace entry: "@ + s,
        MarketplaceErrorView::DuplicateEntry(s) => "duplicate marketplace entry: "@ + s,
        MarketplaceErrorView::InvalidUrl(s) => "marketplace download URL must use HTTPS: "@ + s,
        MarketplaceErrorView::InvalidHash(s) => "invalid SHA256: "@ + s,
        MarketplaceErrorView::UnsupportedPlatform(s) => "unsupported marketplace platform: "@ + s,
        MarketplaceErrorView::BundledThirdPartyPayload(s) => "marketplace packages must not bundle third-party payload: "@ + s,
    }
}

impl MarketplaceError {
    /// The message shown for this error.
    pub fn message(&self) -> (s: String)
        ensures
            s@ == marketplace_error_text(self@),
    {
        match self {
            MarketplaceError::UnsupportedSchema(v) => {
                let digits = crate::text::decimal_text(*v as u64);
                concat2("unsupported marketplace schema: ", digits.as_str())
            },
            MarketplaceError::InvalidEntry(s) => concat2("invalid marketplace entry: ", s.as_str()),
            MarketplaceError::DuplicateEntry(s) => concat2("duplicate marketplace entry: ", s.as_str()),
            MarketplaceError::InvalidUrl(s) => concat2("marketplace download URL must use HTTPS: ", s.as_str()),
            MarketplaceError::InvalidHash(s) => concat2("invalid SHA256: ", s.as_str()),
            MarketplaceError::UnsupportedPlatform(s) => concat2("unsupported marketplace platform: ", s.as_str()),
            MarketplaceError::BundledThirdPartyPayload(s) => concat2("marketplace packages must not bundle third-party payload: ", s.as_str()),
        }
    }
}

// ---------------------------------------------------------------------------
// URLs

/// The scheme of a URL text as `url::Url::parse` reads it (lower-cased), or
/// `None` when the text is not an absolute URL.
pub uninterp spec fn url_scheme(text: Seq<char>) -> Option<Seq<char>>;

/// `reqwest::Url::parse` (the `url` crate's `Url`) followed by `Url::scheme`.
/// Claimed: the result is `url_scheme` of the text.
#[verifier::external_body]
fn parsed_url_scheme(text: &str) -> (r: Option<String>)
    ensures
        crate::registry::opt_view(r) == url_scheme(text@),
{
    match reqwest::Url::parse(text) {
        Ok(url) => Some(url.scheme().to_string()),
        Err(_) => None,
    }
}

// ---------------------------------------------------------------------------
// Catalog validation

pub open spec fn is_hex_digit(c: char) -> bool {
    ('0' <= c && c <= '9') || ('a' <= c && c <= 'f') || ('A' <= c && c <= 'F')
}

/// A SHA-256 digest written as 64 hexadecimal digits.
pub open spec fn sha256_valid(s: Seq<char>) -> bool {
    s.len() == 64 && forall|i: int| 0 <= i < s.len() ==> is_hex_digit(#[trigger] s[i])
}

pub fn is_sha256_hex(s: &str) -> (b: bool)
    ensures
        b == sha256_valid(s@),
{
    let chars = crate::text::chars_of(s);
    if chars.len() != 64 {
        return false;
    }
    let mut i: usize = 0;
    while i < chars.len()
        invariant
            chars@ == s@,
            i <= chars@.len(),
            forall|k: int| 0 <= k < i ==> is_hex_digit(#[trigger] s@[k]),
        decreases chars.len() - i,
    {
        let c = chars[i];
        if !(('0' <= c && c <= '9') || ('a' <= c && c <= 'f') || ('A' <= c && c <= 'F')) {
            return false;
        }
        i += 1;
    }
    true
}

/// The key under which an entry must be unique: `id@version`.
pub open spec fn entry_key(e: MarketplaceEntry) -> Seq<char> {
    e.id@ + "@"@ + e.version@
}

/// The first position at or after `from` whose text is not `value`.
pub open spec fn first_other_from(items: Seq<String>, value: Seq<char>, from: int) -> Option<int>
    decreases items.len() - from,
{
    if from < 0 || from >= items.len() {
        None
    } else if items[from]@ != value {
        Some(from)
    } else {
        first_other_from(items, value, from + 1)
    }
}

/// The first position at or after `from` whose text is not blank.
pub open spec fn first_non_blank_from(items: Seq<String>, from: int) -> Option<int>
    decreases items.len() - from,
{
    if from < 0 || from >= items.len() {
        None
    } else if !is_blank_seq(items[from]@) {
        Some(from)
    } else {
        first_non_blank_from(items, from + 1)
    }
}

/// The requirement an entry's maximum SSMT version stands for.
pub open spec fn maximum_requirement(maximum: Seq<char>) -> Seq<char> {
    "<="@ + normalize_requirement(maximum)
}

/// What is wrong with one entry on its own, in the order checked.
pub open spec fn entry_fields_issue(e: MarketplaceEntry) -> Option<MarketplaceErrorView> {
    if is_blank_seq(e.id@) || is_blank_seq(e.name@) || is_blank_seq(e.author@) {
        Some(MarketplaceErrorView::InvalidEntry("id, name and author are required"@))
    } else if !semver_version_parses(e.version@) {
        Some(MarketplaceErrorView::InvalidEntry("invalid version: "@ + e.version@))
    } else if !semver_requirement_parses(normalize_requirement(e.minimum_ssmt_version@)) {
        Some(MarketplaceErrorView::InvalidEntry("invalid minimum SSMT version: "@ + e.minimum_ssmt_version@))
    } else if e.maximum_ssmt_version matches Some(m) && !semver_requirement_parses(maximum_requirement(m@)) {
        Some(MarketplaceErrorView::InvalidEntry("invalid maximum SSMT version: "@ + e.maximum_ssmt_version->0@))
    } else if url_scheme(e.download_url@) != Some("https"@) {
        Some(MarketplaceErrorView::InvalidUrl(e.download_url@))
    } else if !sha256_valid(e.sha256@) {
        Some(MarketplaceErrorView::InvalidHash(e.sha256@))
    } else if e.supported_platforms@.len() == 0 {
        Some(MarketplaceErrorView::InvalidEntry("supportedPlatforms is empty"@))
    } else if first_other_from(e.supported_platforms@, SUPPORTED_PLATFORM@, 0) is Some {
        Some(MarketplaceErrorView::UnsupportedPlatform(
            e.supported_platforms@[first_other_from(e.supported_platforms@, SUPPORTED_PLATFORM@, 0)->0]@))
    } else if first_non_blank_from(e.bundled_third_party_payloads@, 0) is Some {
        Some(MarketplaceErrorView::BundledThirdPartyPayload(
            e.bundled_third_party_payloads@[first_non_blank_from(e.bundled_third_party_payloads@, 0)->0]@))
    } else {
        None
    }
}

/// What is wrong with entry `i` of a catalog: a key already used by an
/// earlier entry, or a problem of its own.
pub open spec fn entry_issue(entries: Seq<MarketplaceEntry>, i: int) -> Option<MarketplaceErrorView> {
    if exists|j: int| 0 <= j < i && entry_key(#[trigger] entries[j]) == entry_key(entries[i]) {
        Some(MarketplaceErrorView::DuplicateEntry(entry_key(entries[i])))
    } else {
        entry_fields_issue(entries[i])
    }
}

/// The first problem among the first `n` entries.
pub open spec fn entries_issue(entries: Seq<MarketplaceEntry>, n: int) -> Option<MarketplaceErrorView>
    decreases n,
{
    if n <= 0 {
        None
    } else {
        match entries_issue(entries, n - 1) {
            Some(e) => Some(e),
            None => entry_issue(entries, n - 1),
        }
    }
}

proof fn lemma_entries_issue_stable(entries: Seq<MarketplaceEntry>, n: int, m: int)
    requires
        0 <= n <= m,
        entries_issue(entries, n) is Some,
    ensures
        entries_issue(entries, m) == entries_issue(entries, n),
    decreases m - n,
{
    if m > n {
        lemma_entries_issue_stable(entries, n, m - 1);
    }
}

/// Everything `MarketplaceCatalog::validate` checks; `None` when the catalog is acceptable.
pub open spec fn catalog_issue(c: MarketplaceCatalog) -> Option<MarketplaceErrorView> {
    if c.schema_version != MARKETPLACE_SCHEMA_VERSION {
        Some(MarketplaceErrorView::UnsupportedSchema(c.schema_version))
    } else {
        entries_issue(c.entries@, c.entries@.len() as int)
    }
}

pub open spec fn marketplace_outcome(r: Result<(), MarketplaceError>, issue: Option<MarketplaceErrorView>) -> bool {
    match r {
        Ok(()) => issue is None,
        Err(e) => issue == Some(e@),
    }
}

fn entry_key_exec(e: &MarketplaceEntry) -> (k: String)
    ensures
        k@ == entry_key(*e),
{
    concat3(e.id.as_str(), "@", e.version.as_str())
}

fn first_unsupported_platform(platforms: &Vec<String>) -> (r: Option<usize>)
    ensures
        match r {
            Some(k) => k < platforms@.len() && first_other_from(platforms@, SUPPORTED_PLATFORM@, 0) == Some(k as int),
            None => first_other_from(platforms@, SUPPORTED_PLATFORM@, 0) is None,
        },
{
    let mut i: usize = 0;
    while i < platforms.len()
        invariant
            i <= platforms@.len(),
            first_other_from(platforms@, SUPPORTED_PLATFORM@, 0) == first_other_from(platforms@, SUPPORTED_PLATFORM@, i as int),
        decreases platforms.len() - i,
    {
        if !str_eq(platforms[i].as_str(), SUPPORTED_PLATFORM) {
            return Some(i);
        }
        i += 1;
    }
    None
}

fn first_non_blank(items: &Vec<String>) -> (r: Option<usize>)
    ensures
        match r {
            Some(k) => k < items@.len() && first_non_blank_from(items@, 0) == Some(k as int),
            None => first_non_blank_from(items@, 0) is None,
        },
{
    let mut i: usize = 0;
    while i < items.len()
        invariant
            i <= items@.len(),
            first_non_blank_from(items@, 0) == first_non_blank_from(items@, i as int),
        decreases items.len() - i,
    {
        if !is_blank(items[i].as_str()) {
            return Some(i);
        }
        i += 1;
    }
    None
}

fn check_entry_fields(e: &MarketplaceEntry) -> (r: Result<(), MarketplaceError>)
    ensures
        marketplace_outcome(r, entry_fields_issue(*e)),
{
    if is_blank(e.id.as_str()) || is_blank(e.name.as_str()) || is_blank(e.author.as_str()) {
        return Err(MarketplaceError::InvalidEntry(string_from("id, name and author are required")));
    }
    if !version_parses(e.version.as_str()) {
        return Err(MarketplaceError::InvalidEntry(concat2("invalid version: ", e.version.as_str())));
    }
    let minimum = normalize_version_requirement(e.minimum_ssmt_version.as_str());
    if !requirement_parses(minimum.as_str()) {
        return Err(MarketplaceError::InvalidEntry(concat2("invalid minimum SSMT version: ", e.minimum_ssmt_version.as_str())));
    }
    match &e.maximum_ssmt_version {
        Some(maximum) => {
            let normalized = normalize_version_requirement(maximum.as_str());
            let requirement = concat2("<=", normalized.as_str());
            if !requirement_parses(requirement.as_str()) {
                return Err(MarketplaceError::InvalidEntry(concat2("invalid maximum SSMT version: ", maximum.as_str())));
            }
        },
        None => {},
    }
    let https = match parsed_url_scheme(e.download_url.as_str()) {
        Some(scheme) => str_eq(scheme.as_str(), "https"),
        None => false,
    };
    if !https {
        return Err(MarketplaceError::InvalidUrl(e.download_url.clone()));
    }
    if !is_sha256_hex(e.sha256.as_str()) {
        return Err(MarketplaceError::InvalidHash(e.sha256.clone()));
    }
    if e.supported_platforms.len() == 0 {
        return Err(MarketplaceError::InvalidEntry(string_from("supportedPlatforms is empty")));
    }
    match first_unsupported_platform(&e.supported_platforms) {
        Some(k) => return Err(MarketplaceError::UnsupportedPlatform(e.supported_platforms[k].clone())),
        None => {},
    }
    match first_non_blank(&e.bundled_third_party_payloads) {
        Some(k) => return Err(MarketplaceError::BundledThirdPartyPayload(e.bundled_third_party_payloads[k].clone())),
        None => {},
    }
    Ok(())
}

fn key_seen(seen: &Vec<String>, key: &str) -> (b: bool)
    ensures
        b == seen@.map_values(|s: String| s@).contains(key@),
{
    let mut i: usize = 0;
    while i < seen.len()
        invariant
            i <= seen@.len(),
            forall|k: int| 0 <= k < i ==> seen@[k]@ != key@,
        decreases seen.len() - i,
    {
        if str_eq(seen[i].as_str(), key) {
            assert(seen@.map_values(|s: String| s@)[i as int] == key@);
            return true;
        }
        i += 1;
    }
    false
}

impl MarketplaceCatalog {
    /// Checks the catalog: its schema version, and for each entry in order a
    /// unique `id@version`, non-blank id, name and author, a semantic version,
    /// parseable SSMT version bounds, an HTTPS download URL, a SHA-256 digest,
    /// only the supported platform, and no bundled third-party payload.
    pub fn validate(&self) -> (r: Result<(), MarketplaceError>)
        ensures
            marketplace_outcome(r, catalog_issue(*self)),
    {
        if self.schema_version != MARKETPLACE_SCHEMA_VERSION {
            return Err(MarketplaceError::UnsupportedSchema(self.schema_version));
        }
        let entries = &self.entries;
        let mut seen: Vec<String> = Vec::new();
        let mut i: usize = 0;
        while i < entries.len()
            invariant
                self.schema_version == MARKETPLACE_SCHEMA_VERSION,
                *entries == self.entries,
                i <= entries@.len(),
                entries_issue(entries@, i as int) is None,
                seen@.map_values(|s: String| s@) == entries@.take(i as int).map_values(|e: MarketplaceEntry| entry_key(e)),
            decreases entries.len() - i,
        {
            let entry = &entries[i];
            let key = entry_key_exec(entry);
            let ghost keys = entries@.take(i as int).map_values(|e: MarketplaceEntry| entry_key(e));
            let dup = key_seen(&seen, key.as_str());
            proof {
                if dup {
                    let j = choose|j: int| 0 <= j < keys.len() && keys[j] == key@;
                    assert(entries@[j] == entries@.take(i as int)[j]);
                    assert(entry_key(entries@[j]) == entry_key(entries@[i as int]));
                } else {
                    assert forall|j: int| 0 <= j < i implies entry_key(#[trigger] entries@[j]) != entry_key(entries@[i as int]) by {
                        assert(keys[j] == entry_key(entries@[j]));
                    }
                }
            }
            if dup {
                proof { lemma_entries_issue_stable(entries@, i + 1, entries@.len() as int); }
                return Err(MarketplaceError::DuplicateEntry(key));
            }
            match check_entry_fields(entry) {
                Err(e) => {
                    proof { lemma_entries_issue_stable(entries@, i + 1, entries@.len() as int); }
                    return Err(e);
                },
                Ok(()) => {},
            }
            let ghost before = seen@.map_values(|s: String| s@);
            seen.push(key);
            proof {
                assert(seen@.map_values(|s: String| s@) =~= before.push(entry_key(entries@[i as int])));
                assert(entries@.take(i + 1) =~= entries@.take(i as int).push(entries@[i as int]));
                assert(entries@.take(i + 1).map_values(|e: MarketplaceEntry| entry_key(e))
                    =~= keys.push(entry_key(entries@[i as int])));
            }
            i += 1;
        }
        Ok(())
    }
}

/// Whether an entry supports a running SSMT version, platform and game: the
/// version parses and meets the minimum (and the maximum, if any), the
/// platform is listed, and the game is listed unless no game is asked for or
/// the entry lists none.
pub open spec fn supports_spec(e: MarketplaceEntry, ssmt_version: Seq<char>, platform: Seq<char>, game: Option<Seq<char>>) -> bool {
    let minimum = normalize_requirement(e.minimum_ssmt_version@);
    &&& semver_version_parses(ssmt_version)
    &&& semver_requirement_parses(minimum)
    &&& semver_requirement_matches(minimum, ssmt_version)
    &&& (e.maximum_ssmt_version matches Some(m) ==> {
        &&& semver_requirement_parses(maximum_requirement(m@))
        &&& semver_requirement_matches(maximum_requirement(m@), ssmt_version)
    })
    &&& e.supported_platforms@.map_values(|s: String| s@).contains(platform)
    &&& (game is None || e.supported_games@.len() == 0
        || e.supported_games@.map_values(|s: String| s@).contains(game->0))
}

/// An entry supports a running SSMT version, platform and game only where the
/// version parses and meets the entry's minimum requirement (with `x`, `X` and
/// `*` read as `0`) whether or not a maximum is set, also meets `<=` the
/// maximum where one is set, the platform is one the entry lists, and the game,
/// when one is asked for and the entry lists games, is one of them. Where all
/// of that holds, the entry supports them.
pub proof fn law_supported_versions_meet_both_bounds(e: MarketplaceEntry, ssmt_version: Seq<char>, platform: Seq<char>, game: Option<Seq<char>>)
    ensures
        supports_spec(e, ssmt_version, platform, game) ==> {
            &&& semver_version_parses(ssmt_version)
            &&& semver_requirement_matches(normalize_requirement(e.minimum_ssmt_version@), ssmt_version)
            &&& (e.maximum_ssmt_version matches Some(m)
                ==> semver_requirement_matches("<="@ + normalize_requirement(m@), ssmt_version))
            &&& exists|i: int| 0 <= i < e.supported_platforms@.len() && #[trigger] e.supported_platforms@[i]@ == platform
            &&& (game is Some && e.supported_games@.len() > 0
                ==> exists|i: int| 0 <= i < e.supported_games@.len() && #[trigger] e.supported_games@[i]@ == game->0)
        },
        ({
            &&& semver_version_parses(ssmt_version)
            &&& semver_requirement_parses(normalize_requirement(e.minimum_ssmt_version@))
            &&& semver_requirement_matches(normalize_requirement(e.minimum_ssmt_version@), ssmt_version)
            &&& (e.maximum_ssmt_version matches Some(m) ==> {
                &&& semver_requirement_parses("<="@ + normalize_requirement(m@))
                &&& semver_requirement_matches("<="@ + normalize_requirement(m@), ssmt_version)
            })
            &&& exists|i: int| 0 <= i < e.supported_platforms@.len() && #[trigger] e.supported_platforms@[i]@ == platform
            &&& (game is Some && e.supported_games@.len() > 0
                ==> exists|i: int| 0 <= i < e.supported_games@.len() && #[trigger] e.supported_games@[i]@ == game->0)
        }) ==> supports_spec(e, ssmt_version, platform, game),
{
    let ps = e.supported_platforms@.map_values(|s: String| s@);
    let gs = e.supported_games@.map_values(|s: String| s@);
    if ps.contains(platform) {
        let i = choose|i: int| 0 <= i < ps.len() && ps[i] == platform;
        assert(e.supported_platforms@[i]@ == platform);
    }
    if exists|i: int| 0 <= i < e.supported_platforms@.len() && #[trigger] e.supported_platforms@[i]@ == platform {
        let i = choose|i: int| 0 <= i < e.supported_platforms@.len() && #[trigger] e.supported_platforms@[i]@ == platform;
        assert(ps[i] == platform);
    }
    if let Some(x) = game {
        if gs.contains(x) {
            let i = choose|i: int| 0 <= i < gs.len() && gs[i] == x;
            assert(e.supported_games@[i]@ == x);
        }
        if exists|i: int| 0 <= i < e.supported_games@.len() && #[trigger] e.supported_games@[i]@ == x {
            let i = choose|i: int| 0 <= i < e.supported_games@.len() && #[trigger] e.supported_games@[i]@ == x;
            assert(gs[i] == x);
        }
    }
}

fn lists(items: &Vec<String>, value: &str) -> (b: bool)
    ensures
        b == items@.map_values(|s: String| s@).contains(value@),
{
    let mut i: usize = 0;
    while i < items.len()
        invariant
            i <= items@.len(),
            forall|k: int| 0 <= k < i ==> items@[k]@ != value@,
        decreases items.len() - i,
    {
        if str_eq(items[i].as_str(), value) {
            assert(items@.map_values(|s: String| s@)[i as int] == value@);
            return true;
        }
        i += 1;
    }
    false
}

impl MarketplaceEntry {
    pub fn supports(&self, ssmt_version: &str, platform: &str, game: Option<&str>) -> (b: bool)
        ensures
            b == supports_spec(*self, ssmt_version@, platform@, match game { Some(g) => Some(g@), None => None }),
    {
        if !version_parses(ssmt_version) {
            return false;
        }
        let minimum = normalize_version_requirement(self.minimum_ssmt_version.as_str());
        if !requirement_parses(minimum.as_str()) || !requirement_matches(minimum.as_str(), ssmt_version) {
            return false;
        }
        match &self.maximum_ssmt_version {
            Some(maximum) => {
                let normalized = normalize_version_requirement(maximum.as_str());
                let requirement = concat2("<=", normalized.as_str());
                if !requirement_parses(requirement.as_str()) || !requirement_matches(requirement.as_str(), ssmt_version) {
                    return false;
                }
            },
            None => {},
        }
        if !lists(&self.supported_platforms, platform) {
            return false;
        }
        match game {
            None => true,
            Some(g) => self.supported_games.len() == 0 || lists(&self.supported_games, g),
        }
    }
}

} // verus!

verus! {

// ---------------------------------------------------------------------------
// What an accepted catalog guarantees

proof fn lemma_entries_issue_none(entries: Seq<MarketplaceEntry>, n: int, k: int)
    requires
        0 <= k < n,
        entries_issue(entries, n) is None,
    ensures
        entry_issue(entries, k) is None,
    decreases n,
{
    if k < n - 1 {
        lemma_entries_issue_none(entries, n - 1, k);
    }
}

proof fn lemma_first_other_none(items: Seq<String>, value: Seq<char>, from: int)
    requires
        0 <= from,
        first_other_from(items, value, from) is None,
    ensures
        forall|k: int| from <= k < items.len() ==> (#[trigger] items[k])@ == value,
    decreases items.len() - from,
{
    if from < items.len() {
        lemma_first_other_none(items, value, from + 1);
    }
}

proof fn lemma_first_non_blank_none(items: Seq<String>, from: int)
    requires
        0 <= from,
        first_non_blank_from(items, from) is None,
    ensures
        forall|k: int| from <= k < items.len() ==> is_blank_seq((#[trigger] items[k])@),
    decreases items.len() - from,
{
    if from < items.len() {
        lemma_first_non_blank_none(items, from + 1);
    }
}

/// Every entry of an accepted catalog can be offered: its `id@version` is
/// unique, it downloads over HTTPS, names a well-formed SHA-256 digest, lists
/// only the supported platform (at least once), and bundles no third-party payload.
pub proof fn law_accepted_catalog_entries(c: MarketplaceCatalog, k: int)
    requires
        catalog_issue(c) is None,
        0 <= k < c.entries@.len(),
    ensures
        c.schema_version == MARKETPLACE_SCHEMA_VERSION,
        forall|j: int| 0 <= j < k ==> entry_key(#[trigger] c.entries@[j]) != entry_key(c.entries@[k]),
        url_scheme(c.entries@[k].download_url@) == Some("https"@),
        sha256_valid(c.entries@[k].sha256@),
        c.entries@[k].supported_platforms@.len() > 0,
        forall|p: int| 0 <= p < c.entries@[k].supported_platforms@.len()
            ==> (#[trigger] c.entries@[k].supported_platforms@[p])@ == SUPPORTED_PLATFORM@,
        forall|p: int| 0 <= p < c.entries@[k].bundled_third_party_payloads@.len()
            ==> is_blank_seq((#[trigger] c.entries@[k].bundled_third_party_payloads@[p])@),
        semver_version_parses(c.entries@[k].version@),
{
    lemma_entries_issue_none(c.entries@, c.entries@.len() as int, k);
    let e = c.entries@[k];
    lemma_first_other_none(e.supported_platforms@, SUPPORTED_PLATFORM@, 0);
    lemma_first_non_blank_none(e.bundled_third_party_payloads@, 0);
}

} // verus!
