use ssmt::package::{check_archive_exists, ArchiveExtraction, PackageInstallError, MAX_ENTRY_BYTES};

#[test]
fn rejects_zip_slip_before_installing_anything() {
    let mut checks = ArchiveExtraction::new();
    assert!(matches!(
        checks.admit_entry("../outside.txt", false, 4, None),
        Err(PackageInstallError::UnsafePath(name)) if name == "../outside.txt"
    ));
    let mut checks = ArchiveExtraction::new();
    assert!(matches!(
        checks.admit_entry("C:\\evil.dll", false, 4, None),
        Err(PackageInstallError::UnsafePath(_))
    ));
}

#[test]
fn rejects_duplicate_paths_before_installing() {
    let mut checks = ArchiveExtraction::new();
    checks.admit_entry("ssmt-plugin.json", false, 10, None).unwrap();
    checks.admit_entry("assets/readme.txt", false, 5, None).unwrap();
    assert!(matches!(
        checks.admit_entry("ASSETS/README.TXT", false, 6, None),
        Err(PackageInstallError::DuplicateEntry(name)) if name == "ASSETS/README.TXT"
    ));
    let mut checks = ArchiveExtraction::new();
    checks.admit_entry("native/plugin.dll", false, 4, None).unwrap();
    assert!(matches!(
        checks.admit_entry("Native\\Plugin.DLL", false, 4, None),
        Err(PackageInstallError::DuplicateEntry(_))
    ));
}

#[test]
fn rejects_file_directory_path_collisions() {
    let mut checks = ArchiveExtraction::new();
    checks.admit_entry("assets", false, 4, None).unwrap();
    assert!(matches!(
        checks.admit_entry("assets/readme.txt", false, 5, None),
        Err(PackageInstallError::DuplicateEntry(_))
    ));
    let mut checks = ArchiveExtraction::new();
    checks.admit_entry("native/plugin.dll", false, 4, None).unwrap();
    assert!(matches!(
        checks.admit_entry("native", false, 0, None),
        Err(PackageInstallError::DuplicateEntry(_))
    ));
    let mut checks = ArchiveExtraction::new();
    checks.admit_entry("native/", true, 0, None).unwrap();
    let plan = checks.admit_entry("native/plugin.dll", false, 4, None).unwrap().unwrap();
    assert_eq!(plan.relative_path, "native/plugin.dll");
    assert!(!plan.is_directory);
}

#[test]
fn directories_and_files_are_planned() {
    let mut checks = ArchiveExtraction::new();
    assert!(matches!(checks.admit_entry("ui\\", true, 0, None), Err(PackageInstallError::UnsafePath(_))));
    let mut checks = ArchiveExtraction::new();
    let plan = checks.admit_entry("ui/", true, 0, None).unwrap().unwrap();
    assert_eq!(plan.relative_path, "ui");
    assert!(plan.is_directory);
    let plan = checks.admit_entry("ui\\index.html", false, 10, None).unwrap().unwrap();
    assert_eq!(plan.relative_path, "ui/index.html");
    assert_eq!(checks.admit_entry("/", true, 0, None).unwrap(), None);
    checks.record_extracted("ui\\index.html", 10, 10).unwrap();
}

#[test]
fn symlinks_and_oversized_entries_are_refused() {
    let mut checks = ArchiveExtraction::new();
    assert!(matches!(
        checks.admit_entry("link", false, 4, Some(0o120777)),
        Err(PackageInstallError::SymlinkEntry(_))
    ));
    let mut checks = ArchiveExtraction::new();
    assert!(checks.admit_entry("file", false, 4, Some(0o100644)).is_ok());
    assert!(matches!(
        checks.admit_entry("big", false, MAX_ENTRY_BYTES + 1, None),
        Err(PackageInstallError::ResourceLimit(m)) if m == "entry exceeds 134217728 bytes: big"
    ));
    let mut checks = ArchiveExtraction::new();
    for i in 0..4 {
        checks.admit_entry(&format!("part{i}"), false, MAX_ENTRY_BYTES, None).unwrap();
    }
    assert!(matches!(
        checks.admit_entry("part4", false, 1, None),
        Err(PackageInstallError::ResourceLimit(m)) if m == "declared package size exceeds 536870912 bytes"
    ));
}

#[test]
fn extracted_sizes_are_checked() {
    let mut checks = ArchiveExtraction::new();
    assert!(matches!(
        checks.record_extracted("a", 5, 4),
        Err(PackageInstallError::InvalidArchive(m)) if m == "entry size mismatch: a"
    ));
    assert!(matches!(
        checks.record_extracted("a", MAX_ENTRY_BYTES + 1, MAX_ENTRY_BYTES + 1),
        Err(PackageInstallError::ResourceLimit(_))
    ));
}

#[test]
fn entry_count_is_limited() {
    assert!(ArchiveExtraction::check_entry_count(4096).is_ok());
    assert!(matches!(
        ArchiveExtraction::check_entry_count(4097),
        Err(PackageInstallError::ResourceLimit(m)) if m == "4097 entries exceeds limit 4096"
    ));
}

#[test]
fn missing_archive_is_refused() {
    assert!(matches!(
        check_archive_exists("/none.ssmtpkg", false),
        Err(PackageInstallError::InvalidArchive(m)) if m == "archive does not exist: /none.ssmtpkg"
    ));
    assert!(check_archive_exists("/x.ssmtpkg", true).is_ok());
}

#[test]
fn package_messages_name_their_source() {
    assert_eq!(PackageInstallError::MissingManifest.message(), "package manifest is missing");
    let registry = PackageInstallError::Registry(ssmt::registry::PluginRegistryError::PluginNotFound("x".to_string()));
    assert_eq!(registry.message(), "plugin registry error: plugin not found: x");
    let io = PackageInstallError::Io(std::io::Error::new(std::io::ErrorKind::Other, "disk full"));
    assert_eq!(io.message(), "package I/O error: disk full");
}
