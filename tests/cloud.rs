use engine::cloud::{CloudConflict, CloudResult, CloudStorage, ConflictResolution};


// =============================================================================
// CLD-001: File Write
// Reference: https://partner.steamgames.com/doc/api/ISteamRemoteStorage#FileWrite
// =============================================================================

#[test]
fn cld_001_file_write() {
    let mut cloud = CloudStorage::new(1024 * 1024);

    let result = cloud.file_write("save.dat", b"game save data");
    assert!(result.is_ok());
    assert!(cloud.file_exists("save.dat"));
}

#[test]
fn cld_001_file_overwrite() {
    let mut cloud = CloudStorage::new(1024 * 1024);

    cloud.file_write("save.dat", b"old data").unwrap();
    cloud.file_write("save.dat", b"new data").unwrap();

    let data = cloud.file_read("save.dat").unwrap();
    assert_eq!(data, b"new data");
}

// =============================================================================
// CLD-002: File Read
// Reference: https://partner.steamgames.com/doc/api/ISteamRemoteStorage#FileRead
// =============================================================================

#[test]
fn cld_002_file_read() {
    let mut cloud = CloudStorage::new(1024 * 1024);

    cloud.file_write("config.cfg", b"settings data").unwrap();

    let data = cloud.file_read("config.cfg").unwrap();
    assert_eq!(data, b"settings data");
}

#[test]
fn cld_002_read_nonexistent() {
    let cloud = CloudStorage::new(1024 * 1024);

    let result = cloud.file_read("missing.dat");
    assert_eq!(result, Err(CloudResult::FileNotFound));
}

// =============================================================================
// CLD-003: File Delete
// Reference: https://partner.steamgames.com/doc/api/ISteamRemoteStorage#FileDelete
// =============================================================================

#[test]
fn cld_003_file_delete() {
    let mut cloud = CloudStorage::new(1024 * 1024);

    cloud.file_write("temp.dat", b"temporary").unwrap();
    assert!(cloud.file_exists("temp.dat"));

    let result = cloud.file_delete("temp.dat");
    assert!(result.is_ok());
    assert!(!cloud.file_exists("temp.dat"));
}

#[test]
fn cld_003_delete_nonexistent() {
    let mut cloud = CloudStorage::new(1024 * 1024);

    let result = cloud.file_delete("missing.dat");
    assert_eq!(result, Err(CloudResult::FileNotFound));
}

// =============================================================================
// CLD-004: File Exists
// Reference: https://partner.steamgames.com/doc/api/ISteamRemoteStorage#FileExists
// =============================================================================

#[test]
fn cld_004_file_exists() {
    let mut cloud = CloudStorage::new(1024 * 1024);

    assert!(!cloud.file_exists("save.dat"));

    cloud.file_write("save.dat", b"data").unwrap();
    assert!(cloud.file_exists("save.dat"));
}

// =============================================================================
// CLD-005: File Count
// Reference: https://partner.steamgames.com/doc/api/ISteamRemoteStorage#GetFileCount
// =============================================================================

#[test]
fn cld_005_file_count() {
    let mut cloud = CloudStorage::new(1024 * 1024);

    assert_eq!(cloud.get_file_count(), 0);

    cloud.file_write("file1.dat", b"data1").unwrap();
    cloud.file_write("file2.dat", b"data2").unwrap();
    cloud.file_write("file3.dat", b"data3").unwrap();

    assert_eq!(cloud.get_file_count(), 3);
}

// =============================================================================
// CLD-006: Quota Check
// Reference: https://partner.steamgames.com/doc/api/ISteamRemoteStorage#GetQuota
// =============================================================================

#[test]
fn cld_006_quota_check() {
    let mut cloud = CloudStorage::new(1000);

    let quota = cloud.get_quota();
    assert_eq!(quota.total_bytes, 1000);
    assert_eq!(quota.used_bytes, 0);
    assert_eq!(quota.available(), 1000);

    cloud.file_write("data.dat", &[0u8; 300]).unwrap();

    let quota = cloud.get_quota();
    assert_eq!(quota.used_bytes, 300);
    assert_eq!(quota.available(), 700);
}

#[test]
fn cld_006_quota_exceeded() {
    let mut cloud = CloudStorage::new(100);

    let result = cloud.file_write("big.dat", &[0u8; 200]);
    assert_eq!(result, Err(CloudResult::QuotaExceeded));
}

// =============================================================================
// CLD-007: Cloud Enabled Check
// Reference: https://partner.steamgames.com/doc/api/ISteamRemoteStorage#IsCloudEnabledForAccount
// =============================================================================

#[test]
fn cld_007_cloud_enabled_account() {
    let mut cloud = CloudStorage::new(1024);

    assert!(cloud.is_cloud_enabled_for_account());

    cloud.set_account_enabled(false);
    assert!(!cloud.is_cloud_enabled_for_account());
    assert!(!cloud.is_enabled());
}

#[test]
fn cld_007_cloud_enabled_app() {
    let mut cloud = CloudStorage::new(1024);

    assert!(cloud.is_cloud_enabled_for_app());

    cloud.set_app_enabled(false);
    assert!(!cloud.is_cloud_enabled_for_app());
    assert!(!cloud.is_enabled());
}

#[test]
fn cld_007_operations_disabled() {
    let mut cloud = CloudStorage::new(1024);
    cloud.set_account_enabled(false);

    let write_result = cloud.file_write("test.dat", b"data");
    assert_eq!(write_result, Err(CloudResult::CloudDisabled));

    let read_result = cloud.file_read("test.dat");
    assert_eq!(read_result, Err(CloudResult::CloudDisabled));
}

// =============================================================================
// CLD-008: Conflict Resolution
// =============================================================================

#[test]
fn cld_008_conflict_detection() {
    let mut cloud = CloudStorage::new(1024 * 1024);

    let conflict = CloudConflict {
        name: "save.dat".to_string(),
        local_data: b"local version".to_vec(),
        local_timestamp: 1000,
        remote_data: b"remote version".to_vec(),
        remote_timestamp: 2000,
    };

    cloud.add_conflict(conflict);
    assert!(cloud.has_conflicts());
    assert_eq!(cloud.get_conflicts().len(), 1);
}

#[test]
fn cld_008_resolve_keep_local() {
    let mut cloud = CloudStorage::new(1024 * 1024);

    let conflict = CloudConflict {
        name: "save.dat".to_string(),
        local_data: b"local version".to_vec(),
        local_timestamp: 1000,
        remote_data: b"remote version".to_vec(),
        remote_timestamp: 2000,
    };

    cloud.add_conflict(conflict);
    cloud.resolve_conflict("save.dat", ConflictResolution::KeepLocal).unwrap();

    let data = cloud.file_read("save.dat").unwrap();
    assert_eq!(data, b"local version");
    assert!(!cloud.has_conflicts());
}

#[test]
fn cld_008_resolve_keep_remote() {
    let mut cloud = CloudStorage::new(1024 * 1024);

    let conflict = CloudConflict {
        name: "save.dat".to_string(),
        local_data: b"local version".to_vec(),
        local_timestamp: 1000,
        remote_data: b"remote version".to_vec(),
        remote_timestamp: 2000,
    };

    cloud.add_conflict(conflict);
    cloud.resolve_conflict("save.dat", ConflictResolution::KeepRemote).unwrap();

    let data = cloud.file_read("save.dat").unwrap();
    assert_eq!(data, b"remote version");
}

// =============================================================================
// Additional Tests
// =============================================================================

#[test]
fn quota_updates_on_delete() {
    let mut cloud = CloudStorage::new(1000);

    cloud.file_write("data.dat", &[0u8; 300]).unwrap();
    assert_eq!(cloud.get_quota().used_bytes, 300);

    cloud.file_delete("data.dat").unwrap();
    assert_eq!(cloud.get_quota().used_bytes, 0);
}

#[test]
fn quota_updates_on_overwrite() {
    let mut cloud = CloudStorage::new(1000);

    cloud.file_write("data.dat", &[0u8; 300]).unwrap();
    assert_eq!(cloud.get_quota().used_bytes, 300);

    cloud.file_write("data.dat", &[0u8; 500]).unwrap();
    assert_eq!(cloud.get_quota().used_bytes, 500);
}

#[test]
fn file_timestamp() {
    let mut cloud = CloudStorage::new(1024 * 1024);

    cloud.file_write("test.dat", b"data").unwrap();

    let timestamp = cloud.get_file_timestamp("test.dat");
    assert!(timestamp.is_some());
    assert!(timestamp.unwrap() > 0);
}

#[test]
fn invalid_file_name() {
    let mut cloud = CloudStorage::new(1024 * 1024);

    let result = cloud.file_write("", b"data");
    assert_eq!(result, Err(CloudResult::InvalidName));

    let long_name = "a".repeat(300);
    let result = cloud.file_write(&long_name, b"data");
    assert_eq!(result, Err(CloudResult::InvalidName));
}
