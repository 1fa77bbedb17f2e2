//! Threat detection and security scoring core.
//!
//! The crate ingests security-relevant events (clipboard changes, scan
//! findings), applies heuristics to classify them as threats, tracks their
//! lifecycle as issues, and aggregates everything into a security posture
//! score and a structured report.

pub mod clipboard_monitor;
pub mod config;
pub mod host;
pub mod permissions;
pub mod report_codec;
pub mod scanner;
pub mod security_report;
pub mod text;
pub mod threat_detector;

pub use clipboard_monitor::ClipboardMonitor;
pub use config::CyberSecConfig;
pub use scanner::ThreatScanner;
pub use security_report::IssueType;
pub use security_report::SecurityIssue;
pub use security_report::SecurityReport;
pub use threat_detector::SecurityThreat;
pub use threat_detector::ThreatDetector;
pub use threat_detector::ThreatLevel;
