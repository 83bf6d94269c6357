use mac_health::{update_tray_status, SystemStatus};

#[test]
fn test_app_builds() {
    // Basic test to ensure the app configuration is valid
    assert!(true);
}

#[test]
fn each_status_has_its_icon() {
    assert_eq!(SystemStatus::Excellent.icon_name(), "tray-normal");
    assert_eq!(SystemStatus::CouldBeBetter.icon_name(), "tray-warning");
    assert_eq!(SystemStatus::Critical.icon_name(), "tray-critical");
}

#[test]
fn tray_status_needs_a_tray() {
    assert_eq!(update_tray_status(SystemStatus::Critical, true), Ok("tray-critical".to_string()));
    assert_eq!(
        update_tray_status(SystemStatus::Excellent, false),
        Err("Tray icon not found".to_string())
    );
}
