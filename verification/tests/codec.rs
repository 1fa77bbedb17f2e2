use bug_spray::report_codec::parse_report;
use bug_spray::security_report::IssueType;
use bug_spray::security_report::SecurityIssue;
use bug_spray::security_report::SecurityReport;
use bug_spray::threat_detector::ThreatLevel;

fn sample_report() -> SecurityReport {
    let mut report = SecurityReport::new_at(77);
    report.scan_duration = 1234;
    report.system_info.os = "macos".to_string();
    report.system_info.hostname = "test-host".to_string();

    let mut first = SecurityIssue::new_at(
        IssueType::ClipboardHijack,
        "Clipboard Hijacking".to_string(),
        "Saw a \"quote\", a \\ backslash,\nand a tab\there".to_string(),
        ThreatLevel::Critical,
        10,
    );
    first.affected_files.push("System Clipboard".to_string());
    first.add_mitigation_step("Check processes".to_string());
    first.add_technical_detail("confidence".to_string(), "90.0%".to_string());
    let first_id = first.id.clone();
    report.add_issue(first);

    let second = SecurityIssue::new_at(
        IssueType::Malware,
        "Trojan".to_string(),
        "Found one".to_string(),
        ThreatLevel::Medium,
        20,
    );
    report.add_issue(second);
    report.resolve_issue_at(&first_id, 30);
    report
}

#[test]
fn export_and_parse_round_trip() {
    let report = sample_report();
    let doc = report.export_to_json();
    let parsed = parse_report(&doc).expect("an exported document parses");

    assert_eq!(parsed.id, report.id);
    assert_eq!(parsed.generated_at, 77);
    assert_eq!(parsed.scan_duration, 1234);
    assert_eq!(parsed.summary, report.summary);
    assert_eq!(parsed.issues.len(), report.issues.len());
    for (p, i) in parsed.issues.iter().zip(report.issues.iter()) {
        assert_eq!(p.id, i.id);
        assert_eq!(p.issue_type, i.issue_type);
        assert_eq!(p.title, i.title);
        assert_eq!(p.description, i.description);
        assert_eq!(p.severity, i.severity);
        assert_eq!(p.status, i.status);
        assert_eq!(p.affected_files, i.affected_files);
        assert_eq!(p.mitigation_steps, i.mitigation_steps);
        assert_eq!(p.technical_details, i.technical_details);
    }
    assert_eq!(parsed.system_info.os, "macos");
    assert_eq!(parsed.system_info.hostname, "test-host");
    assert_eq!(parsed.system_info.scan_scope, "System");
    assert_eq!(parsed.system_info.scanner_version, "1.0.0");
}

#[test]
fn exported_document_is_valid_json() {
    let report = sample_report();
    let doc = report.export_to_json();
    let value: serde_json::Value = serde_json::from_str(&doc).expect("valid JSON");
    assert_eq!(value["id"].as_str().unwrap(), report.id);
    assert_eq!(value["generated_at"].as_u64().unwrap(), 77);
    assert_eq!(value["scan_duration"].as_u64().unwrap(), 1234);
    assert_eq!(value["issues"].as_array().unwrap().len(), 2);
    assert_eq!(
        value["issues"][0]["id"].as_str().unwrap(),
        report.issues[0].id
    );
    assert_eq!(value["issues"][0]["severity"].as_str().unwrap(), "Critical");
    assert_eq!(value["issues"][0]["status"].as_str().unwrap(), "Resolved");
    assert_eq!(
        value["issues"][0]["description"].as_str().unwrap(),
        report.issues[0].description
    );
    assert_eq!(
        value["issues"][0]["technical_details"]["confidence"]
            .as_str()
            .unwrap(),
        "90.0%"
    );
    assert_eq!(value["summary"]["total_issues"].as_u64().unwrap(), 2);
    assert_eq!(value["summary"]["resolved_issues"].as_u64().unwrap(), 1);
    assert_eq!(
        value["summary"]["security_score"].as_u64().unwrap(),
        report.summary.security_score as u64
    );
    assert_eq!(value["system_info"]["os"].as_str().unwrap(), "macos");
}

#[test]
fn empty_report_round_trips() {
    let report = SecurityReport::new_at(0);
    let doc = report.export_to_json();
    let parsed = parse_report(&doc).expect("parses");
    assert_eq!(parsed.issues.len(), 0);
    assert_eq!(parsed.summary.total_issues, 0);
    assert_eq!(parsed.summary.security_score, 10000);
}

#[test]
fn parser_rejects_malformed_documents() {
    assert!(parse_report("").is_none());
    assert!(parse_report("nonsense").is_none());
    assert!(parse_report("{\"id\":\"x\"}").is_none());
    // An unknown severity token is rejected.
    let report = SecurityReport::new_at(0);
    let mut bad = SecurityIssue::new_at(
        IssueType::Malware,
        "T".to_string(),
        "d".to_string(),
        ThreatLevel::Low,
        1,
    );
    bad.title = "T".to_string();
    let mut r2 = report;
    r2.add_issue(bad);
    let doc = r2.export_to_json().replace("\"Low\"", "\"Loud\"");
    assert!(parse_report(&doc).is_none());
    // Trailing garbage is rejected.
    let mut doc2 = r2.export_to_json();
    doc2.push('x');
    assert!(parse_report(&doc2).is_none());
}
