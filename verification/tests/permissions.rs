use bug_spray::permissions::MacPermissions;
use bug_spray::permissions::PermissionStatus;

#[test]
fn new_manager_names_the_bundle() {
    let permissions = MacPermissions::new();
    assert_eq!(permissions.app_bundle_id, "com.bugspray.security");
}

#[test]
fn full_authorization_needs_disk_and_accessibility() {
    let status = PermissionStatus { full_disk_access: true, accessibility: true, sudo_available: false };
    assert!(status.is_fully_authorized());
    let status = PermissionStatus { full_disk_access: true, accessibility: false, sudo_available: true };
    assert!(!status.is_fully_authorized());
}

#[test]
fn missing_permissions_are_listed_in_order() {
    let status = PermissionStatus {
        full_disk_access: false,
        accessibility: false,
        sudo_available: false,
    };
    assert_eq!(
        status.missing_permissions(),
        vec!["Full Disk Access".to_string(), "Accessibility".to_string()]
    );
    let status = PermissionStatus { full_disk_access: true, accessibility: false, sudo_available: false };
    assert_eq!(status.missing_permissions(), vec!["Accessibility".to_string()]);
    let status = PermissionStatus { full_disk_access: true, accessibility: true, sudo_available: false };
    assert!(status.missing_permissions().is_empty());
}

#[test]
fn status_summary_names_what_is_missing() {
    let status = PermissionStatus { full_disk_access: true, accessibility: true, sudo_available: true };
    assert_eq!(
        status.get_status_summary(),
        "\u{2705} All permissions granted - Bug Spray has full protection capabilities"
    );
    let status = PermissionStatus {
        full_disk_access: false,
        accessibility: false,
        sudo_available: false,
    };
    assert_eq!(
        status.get_status_summary(),
        "\u{26a0}\u{fe0f} Missing permissions: Full Disk Access, Accessibility - Some features may be limited"
    );
}
