use ssmt::file_locks::{
    check_rename_request, scan_has_room, scan_limit_warning, MAX_SCANNED_PATHS,
    approved_owner, can_terminate, directory_owners_from_buffer, file_name_of, file_time_text,
    finalize_owners, reconcile_owner, rename_failure_message, rename_failure_step, scan,
    terminate, terminate_guard, unknown_owner, wide_text, LockOwner, LockReport, RenameStep,
};

fn owner(pid: u32, name: &str, started: &str, can_terminate: bool) -> LockOwner {
    LockOwner {
        pid,
        name: name.to_string(),
        executable: format!("C:\\Games\\{name}"),
        started: started.to_string(),
        can_terminate,
    }
}

#[test]
fn owners_are_sorted_and_listed_once() {
    let owners = vec![owner(30, "c.exe", "1", true), owner(10, "a.exe", "1", true), owner(30, "c2.exe", "2", false), owner(20, "b.exe", "1", true)];
    let listed = finalize_owners(owners);
    let pids: Vec<u32> = listed.iter().map(|o| o.pid).collect();
    assert_eq!(pids, vec![10, 20, 30]);
    assert_eq!(listed[2].name, "c.exe");
    assert!(finalize_owners(Vec::new()).is_empty());
}

#[test]
fn termination_rules() {
    assert!(can_terminate(true, false, 1234, 99, "133", "C:\\a.exe"));
    assert!(!can_terminate(false, false, 1234, 99, "133", "C:\\a.exe"));
    assert!(!can_terminate(true, true, 1234, 99, "133", "C:\\a.exe"));
    assert!(!can_terminate(true, false, 4, 99, "133", "C:\\a.exe"));
    assert!(!can_terminate(true, false, 99, 99, "133", "C:\\a.exe"));
    assert!(!can_terminate(true, false, 1234, 99, "", "C:\\a.exe"));
    assert!(!can_terminate(true, false, 1234, 99, "133", ""));
    assert_eq!(terminate_guard(&owner(4, "System", "1", true), 99), Err("不能结束此进程".to_string()));
    assert_eq!(terminate_guard(&owner(99, "self", "1", true), 99), Err("不能结束此进程".to_string()));
    assert_eq!(terminate_guard(&owner(1234, "a.exe", "1", false), 99), Err("不能结束此进程".to_string()));
    assert_eq!(terminate_guard(&owner(1234, "a.exe", "1", true), 99), Ok(()));
}

#[test]
fn approval_needs_the_same_process() {
    let current = vec![owner(10, "a.exe", "5", true), owner(20, "b.exe", "7", true)];
    assert_eq!(approved_owner(&current, &owner(20, "b.exe", "7", true)), Some(1));
    assert_eq!(approved_owner(&current, &owner(20, "b.exe", "0", true)), None);
    let stale = vec![owner(10, "a.exe", "5", false)];
    assert_eq!(approved_owner(&stale, &owner(10, "a.exe", "5", true)), None);
}

#[test]
fn owners_are_described() {
    let unknown = unknown_owner(42);
    assert_eq!(unknown.name, "PID 42");
    assert!(!unknown.can_terminate);
    assert_eq!(file_name_of("C:\\Windows\\explorer.exe"), "explorer.exe");
    assert_eq!(file_name_of("explorer.exe"), "explorer.exe");
    assert_eq!(file_name_of("C:\\dir\\"), "");
    assert_eq!(file_time_text(1, 2), "4294967298");
    let reused = reconcile_owner(owner(10, "a.exe", "5", true), "6", "A");
    assert!(!reused.can_terminate);
    assert_eq!(reused.name, "a.exe");
    let mut nameless = unknown_owner(11);
    nameless.started = "9".to_string();
    let named = reconcile_owner(nameless, "9", "Game");
    assert_eq!(named.name, "Game");
    let units: Vec<u16> = "abc".encode_utf16().chain([0u16, 100u16]).collect();
    assert_eq!(wide_text(&units), "abc");
    let units: Vec<u16> = "xyz".encode_utf16().collect();
    assert_eq!(wide_text(&units), "xyz");
}

#[test]
fn directory_owner_buffer_is_read() {
    let buffer = [2usize, 7, 99, 5];
    assert_eq!(directory_owners_from_buffer(&buffer, 99), Ok(vec![7]));
    let buffer = [4usize, 1, 2, 3];
    assert_eq!(directory_owners_from_buffer(&buffer, 99), Err("目录句柄列表过大".to_string()));
    let buffer = [0usize];
    assert_eq!(directory_owners_from_buffer(&buffer, 99), Ok(Vec::new()));
}

#[test]
fn renames_are_retried_while_locked() {
    assert_eq!(rename_failure_step(0, Some(32)), RenameStep::Retry(120));
    assert_eq!(rename_failure_step(2, Some(5)), RenameStep::Retry(360));
    assert_eq!(rename_failure_step(3, Some(33)), RenameStep::Fail(true));
    assert_eq!(rename_failure_step(0, Some(2)), RenameStep::Fail(false));
    assert_eq!(rename_failure_step(0, None), RenameStep::Fail(false));
    assert_eq!(rename_failure_message(true, "denied"), "FILE_LOCKED: denied");
    assert_eq!(rename_failure_message(false, "gone"), "gone");
}

#[test]
fn elsewhere_than_windows_diagnosis_is_refused() {
    let mut report = LockReport::new(vec!["/x".to_string()]);
    assert_eq!(scan(&["/x".to_string()], &mut report), Err("占用诊断仅支持 Windows".to_string()));
    assert!(report.owners.is_empty());
    assert_eq!(terminate(&owner(1234, "a.exe", "1", true)), Err("仅支持 Windows".to_string()));
}

#[test]
fn wide_text_decodes_pairs_and_replaces_lone_surrogates() {
    // "a", U+1F600 as a surrogate pair, a lone high surrogate, "b", a lone low surrogate, NUL.
    let units = [0x61u16, 0xD83D, 0xDE00, 0xD800, 0x62, 0xDC00, 0, 0x63];
    assert_eq!(wide_text(&units), "a\u{1F600}\u{FFFD}b\u{FFFD}");
}

#[test]
fn rename_requests_and_scan_limit() {
    assert_eq!(check_rename_request(true, false, true, false), Ok(()));
    assert_eq!(check_rename_request(false, false, true, false), Err("只支持 Mods 目录中的同级重命名".to_string()));
    assert_eq!(check_rename_request(true, true, true, false), Err("只支持 Mods 目录中的同级重命名".to_string()));
    assert_eq!(check_rename_request(true, false, false, true), Err("只支持 Mods 目录中的同级重命名".to_string()));
    assert_eq!(check_rename_request(true, false, true, true), Err("目标目录已存在".to_string()));
    assert!(scan_has_room(MAX_SCANNED_PATHS - 1));
    assert!(!scan_has_room(20000));
    assert!(scan_limit_warning().contains("20000"));
}
