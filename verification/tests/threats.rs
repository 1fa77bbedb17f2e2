use bug_spray::threat_detector::SecurityThreat;
use bug_spray::threat_detector::ThreatDetector;
use bug_spray::threat_detector::ThreatLevel;
use bug_spray::threat_detector::ValidationError;

#[test]
fn test_threat_creation() {
    let threat = SecurityThreat::new(
        "Test Threat".to_string(),
        "A test threat".to_string(),
        ThreatLevel::Medium,
        800,
    );

    assert_eq!(threat.threat_type, "Test Threat");
    assert_eq!(threat.threat_level, ThreatLevel::Medium);
    assert_eq!(threat.confidence, 800);
}

#[test]
fn test_threat_detector() {
    let mut detector = ThreatDetector::new();

    let threat = SecurityThreat::new(
        "Test".to_string(),
        "Test description".to_string(),
        ThreatLevel::High,
        900,
    );

    let threat_id = threat.id.clone();
    detector.add_threat(threat);

    assert_eq!(detector.get_active_threats().len(), 1);
    assert_eq!(detector.get_highest_threat_level(), ThreatLevel::High);

    detector.resolve_threat(&threat_id);
    assert_eq!(detector.get_active_threats().len(), 0);
}

#[test]
fn threat_id_is_slug_and_time() {
    let threat = SecurityThreat::new_at(
        "Test Threat".to_string(),
        "d".to_string(),
        ThreatLevel::Low,
        100,
        42,
    );
    assert_eq!(threat.id, "test-threat-42");
    assert_eq!(threat.detected_at, 42);
}

#[test]
fn highest_level_empty_and_mixed() {
    let mut detector = ThreatDetector::new();
    assert_eq!(detector.get_highest_threat_level(), ThreatLevel::NoThreat);

    detector.add_threat(SecurityThreat::new_at(
        "A".to_string(),
        "a".to_string(),
        ThreatLevel::Low,
        100,
        1,
    ));
    detector.add_threat(SecurityThreat::new_at(
        "B".to_string(),
        "b".to_string(),
        ThreatLevel::Critical,
        100,
        2,
    ));
    detector.add_threat(SecurityThreat::new_at(
        "C".to_string(),
        "c".to_string(),
        ThreatLevel::Medium,
        100,
        3,
    ));
    assert_eq!(detector.get_highest_threat_level(), ThreatLevel::Critical);
}

#[test]
fn submit_threat_validates_confidence() {
    let mut detector = ThreatDetector::new();
    let err = detector.submit_threat(
        "Cat".to_string(),
        "d".to_string(),
        ThreatLevel::Low,
        1001,
        vec![],
        vec![],
    );
    assert_eq!(err, Err(ValidationError::ConfidenceOutOfRange));
    assert_eq!(detector.get_active_threats().len(), 0);

    let ok = detector.submit_threat(
        "Cat".to_string(),
        "d".to_string(),
        ThreatLevel::Low,
        1000,
        vec!["r1".to_string()],
        vec!["do this".to_string()],
    );
    assert!(ok.is_ok());
    assert_eq!(detector.get_active_threats().len(), 1);
    assert_eq!(detector.get_active_threats()[0].id, ok.unwrap());
}

#[test]
fn resolve_moves_threat_once() {
    let mut detector = ThreatDetector::new();
    let threat =
        SecurityThreat::new_at("A".to_string(), "a".to_string(), ThreatLevel::Low, 100, 7);
    let id = threat.id.clone();
    detector.add_threat(threat);

    assert!(detector.resolve_threat(&id));
    assert!(!detector.resolve_threat(&id));
    assert_eq!(detector.resolved_threats.len(), 1);
}

#[test]
fn clear_all_threats_drains_active() {
    let mut detector = ThreatDetector::new();
    for i in 0..3u64 {
        detector.add_threat(SecurityThreat::new_at(
            "T".to_string(),
            "t".to_string(),
            ThreatLevel::Low,
            100,
            i,
        ));
    }
    detector.clear_all_threats();
    assert_eq!(detector.get_active_threats().len(), 0);
    assert_eq!(detector.resolved_threats.len(), 3);
}

#[test]
fn threats_by_level_filters() {
    let mut detector = ThreatDetector::new();
    detector.add_threat(SecurityThreat::new_at(
        "A".to_string(),
        "a".to_string(),
        ThreatLevel::High,
        100,
        1,
    ));
    detector.add_threat(SecurityThreat::new_at(
        "B".to_string(),
        "b".to_string(),
        ThreatLevel::Low,
        100,
        2,
    ));
    detector.add_threat(SecurityThreat::new_at(
        "C".to_string(),
        "c".to_string(),
        ThreatLevel::High,
        100,
        3,
    ));
    assert_eq!(detector.get_threats_by_level(ThreatLevel::High).len(), 2);
    assert_eq!(detector.get_threats_by_level(ThreatLevel::Critical).len(), 0);
}

#[test]
fn threat_summary_lists_counts() {
    let mut detector = ThreatDetector::new();
    assert_eq!(
        detector.get_threat_summary(),
        "\u{2705} No active security threats detected"
    );
    detector.add_threat(SecurityThreat::new_at(
        "A".to_string(),
        "a".to_string(),
        ThreatLevel::Critical,
        100,
        1,
    ));
    detector.add_threat(SecurityThreat::new_at(
        "B".to_string(),
        "b".to_string(),
        ThreatLevel::Low,
        100,
        2,
    ));
    detector.add_threat(SecurityThreat::new_at(
        "C".to_string(),
        "c".to_string(),
        ThreatLevel::Low,
        100,
        3,
    ));
    assert_eq!(
        detector.get_threat_summary(),
        "\u{26a0}\u{fe0f} Active Threats: \u{1f6a8} 1 Critical, \u{1f7e8} 2 Low"
    );
}

#[test]
fn threat_display_shows_confidence_and_recommendations() {
    let mut threat = SecurityThreat::new_at(
        "Demo".to_string(),
        "Something odd".to_string(),
        ThreatLevel::High,
        850,
        1,
    );
    threat.add_recommendation("Check processes".to_string());
    threat.add_affected_resource("Clipboard".to_string());
    let shown = threat.format_for_display();
    assert_eq!(
        shown,
        "\u{1f534} Demo [High] Confidence: 85%\nSomething odd\n\u{1f4a1} Recommendations:\n  \u{2022} Check processes"
    );
}

#[test]
fn level_names_and_ranks() {
    assert_eq!(ThreatLevel::NoThreat.as_str(), "None");
    assert_eq!(ThreatLevel::Critical.as_str(), "Critical");
    assert!(ThreatLevel::Critical.rank() > ThreatLevel::High.rank());
    assert!(ThreatLevel::High.rank() > ThreatLevel::Medium.rank());
    assert!(ThreatLevel::Medium.rank() > ThreatLevel::Low.rank());
    assert!(ThreatLevel::Low.rank() > ThreatLevel::NoThreat.rank());
}
