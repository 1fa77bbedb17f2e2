use bug_spray::config::CyberSecConfig;

#[test]
fn test_dev_mode_enables_features() {
    let config = CyberSecConfig::from_settings(Some("true".to_string()), None, None, None, None);

    assert!(config.dev_mode);
    assert!(config.has_active_subscription());
    assert!(config.feature_available("fix_issues"));
    assert!(config.feature_available("advanced_analysis"));
}

#[test]
fn dev_mode_setting_is_case_insensitive() {
    let config = CyberSecConfig::from_settings(Some("TRUE".to_string()), None, None, None, None);
    assert!(config.dev_mode);
    let config = CyberSecConfig::from_settings(Some("false".to_string()), None, None, None, None);
    assert!(!config.dev_mode);
}

#[test]
fn test_subscription_required_without_dev_mode() {
    let config = CyberSecConfig::from_settings(None, None, None, None, None);

    assert!(!config.dev_mode);
    assert!(!config.has_active_subscription());
    assert!(!config.feature_available("fix_issues"));

    let message = config.subscription_message("fix_issues");
    assert!(message.contains("subscription"));
}

#[test]
fn license_token_unlocks_features() {
    let config = CyberSecConfig::from_settings(
        None,
        None,
        None,
        None,
        Some("SECRET-REDACTED".to_string()),
    );
    assert!(config.has_active_subscription());
    assert!(config.feature_available("export_reports"));
    assert!(!config.feature_available("something_else"));
    assert_eq!(
        config.subscription_message("fix_issues"),
        "Feature available with your subscription."
    );
}

#[test]
fn messages_name_each_gated_feature() {
    let config = CyberSecConfig::from_settings(None, None, None, None, None);
    assert!(config
        .subscription_message("advanced_analysis")
        .contains("Advanced malware analysis"));
    assert!(config
        .subscription_message("automated_remediation")
        .contains("Automated remediation"));
    assert!(config
        .subscription_message("export_reports")
        .contains("Report export"));
    assert_eq!(
        config.subscription_message("mystery"),
        "\u{1f512} This feature requires a subscription."
    );
}

#[test]
fn default_config_is_locked_down() {
    let config = CyberSecConfig::default();
    assert!(!config.dev_mode);
    assert!(config.stripe.enabled);
    assert!(config.scanning.clipboard_monitoring);
    assert!(!config.scanning.network_analysis);
    assert_eq!(config.scanning.scan_interval, 30);
    assert!(!config.subscription_features.can_fix_issues);
}
