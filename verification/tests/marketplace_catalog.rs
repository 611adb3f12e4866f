use ssmt::manifest::PluginPermission;
use ssmt::marketplace::{MarketplaceCatalog, MarketplaceEntry, MarketplaceError};

fn entry() -> MarketplaceEntry {
    MarketplaceEntry {
        id: "ssmt.hoyoshade.bridge".to_string(),
        name: "HoYoShade Bridge".to_string(),
        description: "External launcher integration".to_string(),
        author: "SSMT".to_string(),
        version: "0.1.0".to_string(),
        download_url: "https://example.com/ssmt.hoyoshade.bridge.ssmtpkg".to_string(),
        sha256: "a".repeat(64),
        minimum_ssmt_version: ">=4.x".to_string(),
        maximum_ssmt_version: None,
        supported_platforms: vec!["windows-x64".to_string()],
        supported_games: vec!["GIMI".to_string()],
        package_size: 1234,
        permissions: vec![PluginPermission::ProcessSpawn],
        external_dependencies: Vec::new(),
        bundled_third_party_payloads: Vec::new(),
    }
}

fn catalog(entries: Vec<MarketplaceEntry>) -> MarketplaceCatalog {
    MarketplaceCatalog { schema_version: 1, entries }
}

#[test]
fn accepts_curated_catalog_entry() {
    catalog(vec![entry()]).validate().unwrap();
}

#[test]
fn rejects_insecure_url_and_bad_hash() {
    let mut value = entry();
    value.download_url = "http://example.com/plugin.ssmtpkg".to_string();
    assert!(matches!(catalog(vec![value]).validate(), Err(MarketplaceError::InvalidUrl(_))));
    let mut value = entry();
    value.sha256 = "bad".to_string();
    assert!(matches!(catalog(vec![value]).validate(), Err(MarketplaceError::InvalidHash(_))));
}

#[test]
fn rejects_duplicate_versions_and_unknown_platforms() {
    let first = entry();
    let second = first.clone();
    assert!(matches!(catalog(vec![first, second]).validate(), Err(MarketplaceError::DuplicateEntry(_))));
    let mut value = entry();
    value.supported_platforms = vec!["linux-x64".to_string()];
    assert!(matches!(catalog(vec![value]).validate(), Err(MarketplaceError::UnsupportedPlatform(_))));
}

#[test]
fn rejects_bundled_third_party_payloads() {
    let mut value = entry();
    value.bundled_third_party_payloads = vec!["ReShade64.dll".to_string()];
    assert!(matches!(
        catalog(vec![value]).validate(),
        Err(MarketplaceError::BundledThirdPartyPayload(payload)) if payload == "ReShade64.dll"
    ));
}

#[test]
fn applies_minimum_maximum_platform_and_game_compatibility() {
    let mut value = entry();
    value.maximum_ssmt_version = Some("4.9.0".to_string());
    assert!(value.supports("4.1.89", "windows-x64", Some("GIMI")));
    assert!(!value.supports("5.0.0", "windows-x64", Some("GIMI")));
    assert!(!value.supports("4.1.89", "windows-x64", Some("ZZMI")));
}

#[test]
fn catalog_errors_name_what_is_wrong() {
    assert_eq!(
        MarketplaceCatalog { schema_version: 2, entries: Vec::new() }.validate(),
        Err(MarketplaceError::UnsupportedSchema(2))
    );
    let first = entry();
    assert_eq!(
        catalog(vec![first.clone(), first]).validate(),
        Err(MarketplaceError::DuplicateEntry("ssmt.hoyoshade.bridge@0.1.0".to_string()))
    );
    let mut value = entry();
    value.name = " ".to_string();
    assert_eq!(
        catalog(vec![value]).validate(),
        Err(MarketplaceError::InvalidEntry("id, name and author are required".to_string()))
    );
    let mut value = entry();
    value.version = "1".to_string();
    assert_eq!(catalog(vec![value]).validate(), Err(MarketplaceError::InvalidEntry("invalid version: 1".to_string())));
    let mut value = entry();
    value.maximum_ssmt_version = Some("??".to_string());
    assert_eq!(
        catalog(vec![value]).validate(),
        Err(MarketplaceError::InvalidEntry("invalid maximum SSMT version: ??".to_string()))
    );
    let mut value = entry();
    value.download_url = "not a url".to_string();
    assert_eq!(catalog(vec![value]).validate(), Err(MarketplaceError::InvalidUrl("not a url".to_string())));
    let mut value = entry();
    value.sha256 = "g".repeat(64);
    assert!(matches!(catalog(vec![value]).validate(), Err(MarketplaceError::InvalidHash(_))));
    let mut value = entry();
    value.supported_platforms = Vec::new();
    assert_eq!(
        catalog(vec![value]).validate(),
        Err(MarketplaceError::InvalidEntry("supportedPlatforms is empty".to_string()))
    );
    let mut value = entry();
    value.bundled_third_party_payloads = vec!["  ".to_string()];
    assert_eq!(catalog(vec![value]).validate(), Ok(()));
    let mut value = entry();
    value.download_url = "HTTPS://EXAMPLE.COM/x".to_string();
    assert_eq!(catalog(vec![value]).validate(), Ok(()));
}

#[test]
fn entries_without_games_support_every_game() {
    let mut value = entry();
    value.supported_games = Vec::new();
    assert!(value.supports("4.0.0", "windows-x64", Some("ZZMI")));
    assert!(value.supports("4.0.0", "windows-x64", None));
    assert!(!value.supports("4.0.0", "linux-x64", None));
    assert!(!value.supports("not a version", "windows-x64", None));
    assert!(!value.supports("3.9.0", "windows-x64", None));
}

#[test]
fn marketplace_messages() {
    assert_eq!(MarketplaceError::UnsupportedSchema(7).message(), "unsupported marketplace schema: 7");
    assert_eq!(
        MarketplaceError::InvalidUrl("http://x".to_string()).message(),
        "marketplace download URL must use HTTPS: http://x"
    );
}
