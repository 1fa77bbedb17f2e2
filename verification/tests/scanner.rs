use bug_spray::scanner::ThreatScanner;
use bug_spray::scanner::ThreatTarget;

#[test]
fn catalogue_holds_the_known_signatures() {
    let scanner = ThreatScanner::new();
    assert!(scanner.last_scan.is_none());
    assert_eq!(scanner.signatures.len(), 14);
    assert_eq!(scanner.signatures[0].id, "atomic_stealer_1");
    assert_eq!(scanner.signatures[0].severity, "Critical");
    assert_eq!(scanner.signatures[10].id, "launchagent_persist_1");
    assert_eq!(scanner.signatures[10].severity, "Medium");
    assert_eq!(scanner.signatures[13].id, "suspicious_network_1");
}

#[test]
fn signatures_filter_by_target() {
    let scanner = ThreatScanner::new();
    assert_eq!(scanner.get_signatures_by_target(&ThreatTarget::CryptoUsers).len(), 6);
    assert_eq!(scanner.get_signatures_by_target(&ThreatTarget::Developers).len(), 5);
    assert_eq!(scanner.get_signatures_by_target(&ThreatTarget::General).len(), 2);
    assert_eq!(scanner.get_signatures_by_target(&ThreatTarget::SupplyChain).len(), 1);

    let crypto = scanner.get_signatures_by_target(&ThreatTarget::CryptoUsers);
    assert_eq!(crypto[0].id, "atomic_stealer_1");
    assert_eq!(crypto[5].id, "browser_ext_malware_1");
}

#[test]
fn severity_tally_starts_at_zero() {
    let scanner = ThreatScanner::new();
    let counts = scanner.get_threat_count_by_severity();
    assert_eq!(
        counts,
        vec![
            ("Critical".to_string(), 0),
            ("High".to_string(), 0),
            ("Medium".to_string(), 0),
            ("Low".to_string(), 0),
        ]
    );
}
