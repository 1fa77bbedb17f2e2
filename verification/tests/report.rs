use bug_spray::security_report::IssueStatus;
use bug_spray::security_report::IssueType;
use bug_spray::security_report::SecurityIssue;
use bug_spray::security_report::SecurityReport;
use bug_spray::threat_detector::SecurityThreat;
use bug_spray::threat_detector::ThreatLevel;

#[test]
fn test_security_issue_creation() {
    let issue = SecurityIssue::new(
        IssueType::Malware,
        "Test Malware".to_string(),
        "Test description".to_string(),
        ThreatLevel::High,
    );

    assert_eq!(issue.issue_type, IssueType::Malware);
    assert_eq!(issue.severity, ThreatLevel::High);
    assert_eq!(issue.status, IssueStatus::Active);
}

#[test]
fn test_security_report() {
    let mut report = SecurityReport::new();

    let issue = SecurityIssue::new(
        IssueType::Malware,
        "Test".to_string(),
        "Test".to_string(),
        ThreatLevel::Critical,
    );

    report.add_issue(issue);

    assert_eq!(report.summary.total_issues, 1);
    assert_eq!(report.summary.critical_issues, 1);
    assert!((report.summary.security_score as f64) / 100.0 < 100.0);
}

#[test]
fn score_scenario_resolving_critical() {
    // One critical and one medium threat, both promoted to issues; the
    // critical one is then resolved: 100 - 25 - 8 = 67, plus a bonus of
    // (1/2) * 10 = 5, gives 72.0.
    let mut report = SecurityReport::new_at(0);
    let critical = SecurityThreat::new_at(
        "Malware Found".to_string(),
        "bad".to_string(),
        ThreatLevel::Critical,
        900,
        1,
    );
    let medium = SecurityThreat::new_at(
        "Odd Process".to_string(),
        "meh".to_string(),
        ThreatLevel::Medium,
        600,
        2,
    );
    let critical_issue = SecurityIssue::from_threat_at(&critical, 10);
    let critical_id = critical_issue.id.clone();
    report.add_issue(critical_issue);
    report.add_issue(SecurityIssue::from_threat_at(&medium, 20));

    let unresolved_score = report.summary.security_score;
    assert_eq!((unresolved_score as f64) / 100.0, 67.0);

    assert!(report.resolve_issue_at(&critical_id, 30));
    let resolved_score = report.summary.security_score;
    assert_eq!((resolved_score as f64) / 100.0, 72.0);
    assert!(resolved_score > unresolved_score);
    assert!((resolved_score as f64) / 100.0 < 100.0);
}

#[test]
fn score_floors_at_zero() {
    let mut report = SecurityReport::new_at(0);
    for i in 0..5u64 {
        report.add_issue(SecurityIssue::new_at(
            IssueType::Malware,
            "T".to_string(),
            "d".to_string(),
            ThreatLevel::Critical,
            i,
        ));
    }
    // Five criticals would subtract 125 points; the base floors at zero.
    assert_eq!(report.summary.security_score, 0);
}

#[test]
fn resolve_issue_is_idempotent() {
    let mut report = SecurityReport::new_at(0);
    let issue = SecurityIssue::new_at(
        IssueType::Malware,
        "T".to_string(),
        "d".to_string(),
        ThreatLevel::Low,
        5,
    );
    let id = issue.id.clone();
    report.add_issue(issue);

    assert!(report.resolve_issue_at(&id, 100));
    let stamped = report.get_issue_by_id(&id).unwrap().resolved_at;
    assert_eq!(stamped, Some(100));

    // The second resolve reports failure and the stamp stays.
    assert!(!report.resolve_issue_at(&id, 200));
    assert_eq!(report.get_issue_by_id(&id).unwrap().resolved_at, Some(100));
    assert_eq!(report.summary.resolved_issues, 1);
}

#[test]
fn resolve_unknown_id_reports_failure() {
    let mut report = SecurityReport::new_at(0);
    assert!(!report.resolve_issue_at("missing", 1));
}

#[test]
fn mark_false_positive_stamps_once() {
    let mut report = SecurityReport::new_at(0);
    let issue = SecurityIssue::new_at(
        IssueType::Malware,
        "T".to_string(),
        "d".to_string(),
        ThreatLevel::Low,
        5,
    );
    let id = issue.id.clone();
    report.add_issue(issue);

    assert!(report.mark_false_positive_at(&id, 50));
    let issue = report.get_issue_by_id(&id).unwrap();
    assert_eq!(issue.status, IssueStatus::FalsePositive);
    assert_eq!(issue.resolved_at, Some(50));
    assert!(!report.mark_false_positive_at(&id, 60));
    assert!(!report.resolve_issue_at(&id, 70));
}

#[test]
fn from_threat_copies_and_records_details() {
    let mut threat = SecurityThreat::new_at(
        "Clipboard Hijacking".to_string(),
        "rapid changes".to_string(),
        ThreatLevel::High,
        800,
        3,
    );
    threat.add_affected_resource("System Clipboard".to_string());
    threat.add_recommendation("Check processes".to_string());

    let issue = SecurityIssue::from_threat_at(&threat, 9);
    assert_eq!(issue.issue_type, IssueType::ClipboardHijack);
    assert_eq!(issue.title, "Clipboard Hijacking");
    assert_eq!(issue.description, "rapid changes");
    assert_eq!(issue.severity, ThreatLevel::High);
    assert_eq!(issue.affected_files, vec!["System Clipboard".to_string()]);
    assert_eq!(issue.mitigation_steps, vec!["Check processes".to_string()]);
    assert_eq!(
        issue.technical_details,
        vec![
            ("confidence".to_string(), "80.0%".to_string()),
            ("threat_id".to_string(), threat.id.clone()),
        ]
    );
}

#[test]
fn category_inference_first_match_wins() {
    let make = |name: &str| {
        SecurityThreat::new_at(name.to_string(), "d".to_string(), ThreatLevel::Low, 100, 1)
    };
    let ty = |name: &str| SecurityIssue::from_threat_at(&make(name), 1).issue_type;
    assert_eq!(ty("Malware Dropper"), IssueType::Malware);
    assert_eq!(ty("Clipboard Malware"), IssueType::Malware);
    assert_eq!(ty("Clipboard Snooper"), IssueType::ClipboardHijack);
    assert_eq!(ty("Network Probe"), IssueType::NetworkAnomaly);
    assert_eq!(ty("Odd Process"), IssueType::SuspiciousProcess);
    assert_eq!(ty("Mystery"), IssueType::SystemVulnerability);
}

#[test]
fn technical_details_overwrite_on_equal_keys() {
    let mut issue = SecurityIssue::new_at(
        IssueType::Malware,
        "T".to_string(),
        "d".to_string(),
        ThreatLevel::Low,
        1,
    );
    issue.add_technical_detail("origin".to_string(), "scan".to_string());
    issue.add_technical_detail("origin".to_string(), "watcher".to_string());
    issue.add_technical_detail("port".to_string(), "443".to_string());
    assert_eq!(
        issue.technical_details,
        vec![
            ("origin".to_string(), "watcher".to_string()),
            ("port".to_string(), "443".to_string()),
        ]
    );
}

#[test]
fn set_status_only_leaves_active() {
    let mut issue = SecurityIssue::new_at(
        IssueType::Malware,
        "T".to_string(),
        "d".to_string(),
        ThreatLevel::Low,
        1,
    );
    assert!(issue.set_status(IssueStatus::Investigating));
    assert_eq!(issue.status, IssueStatus::Investigating);
    assert!(!issue.set_status(IssueStatus::Mitigated));
    issue.resolve_at(9);
    assert_eq!(issue.status, IssueStatus::Resolved);
    assert!(!issue.set_status(IssueStatus::Investigating));
}

#[test]
fn active_issues_require_attention() {
    let mut report = SecurityReport::new_at(0);
    let mut ids: Vec<String> = Vec::new();
    for i in 0..4u64 {
        let issue = SecurityIssue::new_at(
            IssueType::Malware,
            "T".to_string(),
            "d".to_string(),
            ThreatLevel::Low,
            i,
        );
        ids.push(issue.id.clone());
        report.add_issue(issue);
    }
    report.resolve_issue_at(&ids[1], 100);
    report.mark_false_positive_at(&ids[2], 100);
    let active = report.get_active_issues();
    assert_eq!(active.len(), 2);
    assert_eq!(active[0].id, ids[0]);
    assert_eq!(active[1].id, ids[3]);
}

#[test]
fn format_summary_shows_score_and_counts() {
    let mut report = SecurityReport::new_at(0);
    report.add_issue(SecurityIssue::new_at(
        IssueType::Malware,
        "T".to_string(),
        "d".to_string(),
        ThreatLevel::Medium,
        1,
    ));
    // 100 - 8 = 92.0: the green lamp.
    assert_eq!(
        report.format_summary(),
        "\u{1f7e2} Security Score: 92.0/100\n\u{1f4ca} Issues: 1 Total (0 Critical, 0 High, 1 Medium, 0 Low)\n\u{2705} Resolved: 0"
    );
}

#[test]
fn issue_display_lists_files_and_steps() {
    let mut issue = SecurityIssue::new_at(
        IssueType::Malware,
        "Trojan".to_string(),
        "Found a trojan".to_string(),
        ThreatLevel::High,
        1,
    );
    issue.affected_files.push("/tmp/bad".to_string());
    issue.add_mitigation_step("Delete it".to_string());
    issue.add_mitigation_step("Rescan".to_string());
    assert_eq!(
        issue.format_for_display(),
        "\u{1f9a0} Trojan [High]\nStatus: \u{1f534} Active\nFound a trojan\n\u{1f4c1} Affected Files:\n  \u{2022} /tmp/bad\n\n\u{1f6e0}\u{fe0f}  Mitigation Steps:\n  1. Delete it\n  2. Rescan\n"
    );
}
