use bug_spray::clipboard_monitor::ClipboardContentType;
use bug_spray::clipboard_monitor::ClipboardMonitor;
use bug_spray::threat_detector::ThreatLevel;

#[test]
fn test_clipboard_monitor_basic() {
    let mut monitor = ClipboardMonitor::new();
    assert!(monitor.is_enabled());

    monitor.record_change(12345, 100, ClipboardContentType::Text);
    assert_eq!(monitor.history.len(), 1);
}

#[test]
fn test_rapid_changes_detection() {
    // Ten events 100 ms apart, well inside the sixty-second window.
    let mut monitor = ClipboardMonitor::new();
    let mut now: u64 = 1000;
    for i in 0..10u64 {
        monitor.record_change_at(i, 100, ClipboardContentType::Text, now);
        now += 100;
    }
    let analysis = monitor.analyze_activity_at(now - 100);
    assert_eq!(analysis.rapid_changes, 9);
    assert!(analysis.is_suspicious);
    assert_eq!(analysis.threat_level, ThreatLevel::Medium);
}

#[test]
fn rapid_count_zero_for_single_event() {
    let mut monitor = ClipboardMonitor::new();
    monitor.record_change_at(7, 10, ClipboardContentType::Text, 5000);
    assert_eq!(monitor.count_rapid_changes(5000), 0);
}

#[test]
fn rapid_count_zero_for_spaced_events() {
    let mut monitor = ClipboardMonitor::new();
    monitor.record_change_at(1, 10, ClipboardContentType::Text, 5000);
    monitor.record_change_at(2, 10, ClipboardContentType::Text, 5500);
    assert_eq!(monitor.count_rapid_changes(5500), 0);
}

#[test]
fn history_is_bounded_and_keeps_recent_events() {
    let mut monitor = ClipboardMonitor::new();
    for i in 0..150u64 {
        monitor.record_change_at(i, 10, ClipboardContentType::Text, 1000 + i * 1000);
    }
    assert_eq!(monitor.history.len(), 100);
    // The oldest fifty were evicted first in, first out.
    assert_eq!(monitor.history[0].content_hash, 50);
    assert_eq!(monitor.history[99].content_hash, 149);
}

#[test]
fn disabled_monitor_records_nothing() {
    let mut monitor = ClipboardMonitor::new();
    monitor.disable();
    assert!(!monitor.is_enabled());
    monitor.record_change_at(1, 10, ClipboardContentType::Text, 1000);
    assert_eq!(monitor.history.len(), 0);
    let analysis = monitor.analyze_activity_at(1000);
    assert!(!analysis.is_suspicious);
    assert_eq!(analysis.rapid_changes, 0);
    monitor.enable();
    assert!(monitor.is_enabled());
}

#[test]
fn large_content_pattern_detected() {
    let mut monitor = ClipboardMonitor::new();
    // Eleven small events, then one of 20000 units: the mean over the
    // twelve is 1758, ten times that is 17580, and 20000 also clears the
    // absolute floor of 10000.
    for i in 0..11u64 {
        monitor.record_change_at(i, 100, ClipboardContentType::Text, 1000 + i * 10000);
    }
    monitor.record_change_at(99, 20000, ClipboardContentType::Text, 200000);
    let patterns = monitor.detect_unusual_patterns();
    assert!(patterns.iter().any(|p| p == "large_content_changes"));
}

#[test]
fn repetitive_content_pattern_detected() {
    let mut monitor = ClipboardMonitor::new();
    for i in 0..6u64 {
        monitor.record_change_at(42, 100, ClipboardContentType::Text, 1000 + i * 10000);
    }
    let patterns = monitor.detect_unusual_patterns();
    assert!(patterns.iter().any(|p| p == "repetitive_content"));
}

#[test]
fn file_skew_pattern_detected() {
    let mut monitor = ClipboardMonitor::new();
    for i in 0..12u64 {
        monitor.record_change_at(i, 100, ClipboardContentType::File, 1000 + i * 10000);
    }
    let patterns = monitor.detect_unusual_patterns();
    assert!(patterns.iter().any(|p| p == "excessive_file_clipboard_usage"));
}

#[test]
fn calm_history_has_no_patterns() {
    let mut monitor = ClipboardMonitor::new();
    for i in 0..5u64 {
        monitor.record_change_at(i, 100, ClipboardContentType::Text, 1000 + i * 10000);
    }
    let analysis = monitor.analyze_activity_at(50000);
    assert!(!analysis.is_suspicious);
    assert_eq!(analysis.threat_level, ThreatLevel::NoThreat);
    assert!(analysis.unusual_patterns.is_empty());
    assert!(analysis.recommendations.is_empty());
}

#[test]
fn check_for_threats_reports_hijacking() {
    let mut monitor = ClipboardMonitor::new();
    let mut now: u64 = 1000;
    for i in 0..15u64 {
        monitor.record_change_at(i, 100, ClipboardContentType::Text, now);
        now += 100;
    }
    // Fourteen rapid pairs: more than twice the threshold.
    let threat = monitor.check_for_threats_at(now - 100).expect("suspicious activity");
    assert_eq!(threat.threat_type, "Clipboard Hijacking");
    assert_eq!(threat.threat_level, ThreatLevel::High);
    assert_eq!(threat.confidence, 900);
    assert_eq!(threat.affected_resources, vec!["System Clipboard".to_string()]);
    assert!(threat.description.contains("14 rapid clipboard changes"));
    assert!(threat.id.starts_with("clipboard-"));
}

#[test]
fn quiet_monitor_reports_no_threat() {
    let monitor = ClipboardMonitor::new();
    assert!(monitor.check_for_threats_at(1000).is_none());
}

#[test]
fn activity_summary_counts_recent_events() {
    let mut monitor = ClipboardMonitor::new();
    assert_eq!(monitor.get_activity_summary_at(0), "No clipboard activity recorded");
    monitor.record_change_at(1, 10, ClipboardContentType::Text, 1000);
    monitor.record_change_at(2, 10, ClipboardContentType::Text, 400000);
    let summary = monitor.get_activity_summary_at(400000);
    // Only the second event lies within the last five minutes.
    assert_eq!(
        summary,
        "\u{1f4cb} Clipboard Activity: 1 changes in last 5 minutes. Rapid changes: 0. Status: \u{2705} Normal"
    );
}
