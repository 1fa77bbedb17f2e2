//! Issue lifecycle tracking and the aggregated security report: issues
//! promoted from threats, a status state machine, severity counts, and the
//! normalized security score.

use vstd::prelude::*;

use crate::host;
use crate::text;
use crate::threat_detector::SecurityThreat;
use crate::threat_detector::ThreatLevel;

verus! {

/// Category of a tracked issue.
#[derive(Debug, Clone, Copy, PartialEq, Eq, Structural)]
pub enum IssueType {
    Malware,
    ClipboardHijack,
    NetworkAnomaly,
    FileIntegrity,
    SystemVulnerability,
    UnauthorizedAccess,
    SuspiciousProcess,
    DataExfiltration,
}

impl IssueType {
    /// The display name of this category.
    pub open spec fn as_str_spec(self) -> Seq<char> {
        match self {
            IssueType::Malware => "Malware"@,
            IssueType::ClipboardHijack => "Clipboard Hijack"@,
            IssueType::NetworkAnomaly => "Network Anomaly"@,
            IssueType::FileIntegrity => "File Integrity"@,
            IssueType::SystemVulnerability => "System Vulnerability"@,
            IssueType::UnauthorizedAccess => "Unauthorized Access"@,
            IssueType::SuspiciousProcess => "Suspicious Process"@,
            IssueType::DataExfiltration => "Data Exfiltration"@,
        }
    }

    pub fn as_str(&self) -> (r: &'static str)
        ensures
            r@ == self.as_str_spec(),
    {
        match self {
            IssueType::Malware => "Malware",
            IssueType::ClipboardHijack => "Clipboard Hijack",
            IssueType::NetworkAnomaly => "Network Anomaly",
            IssueType::FileIntegrity => "File Integrity",
            IssueType::SystemVulnerability => "System Vulnerability",
            IssueType::UnauthorizedAccess => "Unauthorized Access",
            IssueType::SuspiciousProcess => "Suspicious Process",
            IssueType::DataExfiltration => "Data Exfiltration",
        }
    }

    /// The glyph shown next to this category.
    pub open spec fn emoji_spec(self) -> Seq<char> {
        match self {
            IssueType::Malware => "\u{1f9a0}"@,
            IssueType::ClipboardHijack => "\u{1f4cb}"@,
            IssueType::NetworkAnomaly => "\u{1f310}"@,
            IssueType::FileIntegrity => "\u{1f4c1}"@,
            IssueType::SystemVulnerability => "\u{1f527}"@,
            IssueType::UnauthorizedAccess => "\u{1f513}"@,
            IssueType::SuspiciousProcess => "\u{2699}\u{fe0f}"@,
            IssueType::DataExfiltration => "\u{1f4e4}"@,
        }
    }

    pub fn emoji(&self) -> (r: &'static str)
        ensures
            r@ == self.emoji_spec(),
    {
        match self {
            IssueType::Malware => "\u{1f9a0}",
            IssueType::ClipboardHijack => "\u{1f4cb}",
            IssueType::NetworkAnomaly => "\u{1f310}",
            IssueType::FileIntegrity => "\u{1f4c1}",
            IssueType::SystemVulnerability => "\u{1f527}",
            IssueType::UnauthorizedAccess => "\u{1f513}",
            IssueType::SuspiciousProcess => "\u{2699}\u{fe0f}",
            IssueType::DataExfiltration => "\u{1f4e4}",
        }
    }
}

/// Lifecycle status of an issue. `Resolved` and `FalsePositive` are
/// terminal: once reached, no further transition is applied.
#[derive(Debug, Clone, Copy, PartialEq, Eq, Structural)]
pub enum IssueStatus {
    Active,
    Investigating,
    Mitigated,
    Resolved,
    FalsePositive,
}

impl IssueStatus {
    /// A terminal status accepts no further transition.
    pub open spec fn is_terminal_spec(self) -> bool {
        self == IssueStatus::Resolved || self == IssueStatus::FalsePositive
    }

    pub fn is_terminal(&self) -> (r: bool)
        ensures
            r == self.is_terminal_spec(),
    {
        match self {
            IssueStatus::Resolved => true,
            IssueStatus::FalsePositive => true,
            _ => false,
        }
    }

    /// The display name of this status.
    pub open spec fn as_str_spec(self) -> Seq<char> {
        match self {
            IssueStatus::Active => "Active"@,
            IssueStatus::Investigating => "Investigating"@,
            IssueStatus::Mitigated => "Mitigated"@,
            IssueStatus::Resolved => "Resolved"@,
            IssueStatus::FalsePositive => "False Positive"@,
        }
    }

    pub fn as_str(&self) -> (r: &'static str)
        ensures
            r@ == self.as_str_spec(),
    {
        match self {
            IssueStatus::Active => "Active",
            IssueStatus::Investigating => "Investigating",
            IssueStatus::Mitigated => "Mitigated",
            IssueStatus::Resolved => "Resolved",
            IssueStatus::FalsePositive => "False Positive",
        }
    }

    /// The glyph shown next to this status.
    pub open spec fn emoji_spec(self) -> Seq<char> {
        match self {
            IssueStatus::Active => "\u{1f534}"@,
            IssueStatus::Investigating => "\u{1f50d}"@,
            IssueStatus::Mitigated => "\u{1f7e1}"@,
            IssueStatus::Resolved => "\u{2705}"@,
            IssueStatus::FalsePositive => "\u{274c}"@,
        }
    }

    pub fn emoji(&self) -> (r: &'static str)
        ensures
            r@ == self.emoji_spec(),
    {
        match self {
            IssueStatus::Active => "\u{1f534}",
            IssueStatus::Investigating => "\u{1f50d}",
            IssueStatus::Mitigated => "\u{1f7e1}",
            IssueStatus::Resolved => "\u{2705}",
            IssueStatus::FalsePositive => "\u{274c}",
        }
    }
}

/// The category inferred from a threat's free-text category: the first
/// matching keyword wins, with a generic fallback.
pub open spec fn infer_issue_type(threat_type: Seq<char>) -> IssueType {
    if text::contains_seq(threat_type, "Malware"@) {
        IssueType::Malware
    } else if text::contains_seq(threat_type, "Clipboard"@) {
        IssueType::ClipboardHijack
    } else if text::contains_seq(threat_type, "Network"@) {
        IssueType::NetworkAnomaly
    } else if text::contains_seq(threat_type, "Process"@) {
        IssueType::SuspiciousProcess
    } else {
        IssueType::SystemVulnerability
    }
}

/// The confidence detail recorded when a threat is promoted: the
/// confidence as a percentage with one decimal place.
pub open spec fn confidence_detail_spec(confidence_pm: u32) -> Seq<char> {
    text::dec_digits((confidence_pm / 10) as nat) + "."@ + seq![
        text::digit_char((confidence_pm % 10) as nat),
    ] + "%"@
}

/// The identifier derived for an issue of the given category detected at
/// the given time.
pub open spec fn issue_id_seq(issue_type: IssueType, now_ms: nat) -> Seq<char> {
    text::slug_seq(issue_type.as_str_spec()) + "-"@ + text::dec_digits(now_ms)
}

/// A durable, mutable record derived from a threat for longer-lived
/// tracking.
#[derive(Debug, Clone)]
pub struct SecurityIssue {
    pub id: String,
    pub issue_type: IssueType,
    pub title: String,
    pub description: String,
    pub severity: ThreatLevel,
    pub status: IssueStatus,
    /// Detection time, in milliseconds since the Unix epoch.
    pub detected_at: u64,
    /// Resolution time; set exactly once, by the terminal transition.
    pub resolved_at: Option<u64>,
    pub affected_files: Vec<String>,
    pub mitigation_steps: Vec<String>,
    /// Key/value details; keys are unique, later inserts overwrite.
    pub technical_details: Vec<(String, String)>,
}

/// Index of the first detail pair in `td` whose key is `key`, -1 if none.
pub open spec fn find_key_idx(td: Seq<(String, String)>, key: Seq<char>) -> int
    decreases td.len(),
{
    if td.len() == 0 {
        -1
    } else if td[0].0@ == key {
        0
    } else {
        let r = find_key_idx(td.drop_first(), key);
        if r == -1 {
            -1
        } else {
            r + 1
        }
    }
}

/// What `find_key_idx` returns: either -1 and no key matches, or the
/// position of the first match.
pub proof fn lemma_find_key_idx(td: Seq<(String, String)>, key: Seq<char>)
    ensures
        find_key_idx(td, key) == -1 ==> forall|k: int| 0 <= k < td.len() ==> td[k].0@ != key,
        find_key_idx(td, key) != -1 ==> {
            let j = find_key_idx(td, key);
            &&& 0 <= j < td.len()
            &&& td[j].0@ == key
            &&& forall|k: int| 0 <= k < j ==> td[k].0@ != key
        },
    decreases td.len(),
{
    if td.len() > 0 && td[0].0@ != key {
        let t = td.drop_first();
        lemma_find_key_idx(t, key);
        assert(forall|k: int| 1 <= k < td.len() ==> td[k] == t[k - 1]);
    }
}

impl SecurityIssue {
    /// The technical-detail keys are pairwise distinct.
    pub open spec fn wf(self) -> bool {
        forall|i: int, j: int|
            0 <= i < j < self.technical_details@.len()
                ==> self.technical_details@[i].0@ != self.technical_details@[j].0@
    }

    /// Builds an issue detected at `now_ms`, initially `Active`.
    pub fn new_at(
        issue_type: IssueType,
        title: String,
        description: String,
        severity: ThreatLevel,
        now_ms: u64,
    ) -> (r: SecurityIssue)
        ensures
            r.id@ == issue_id_seq(issue_type, now_ms as nat),
            r.issue_type == issue_type,
            r.title == title,
            r.description == description,
            r.severity == severity,
            r.status == IssueStatus::Active,
            r.detected_at == now_ms,
            r.resolved_at is None,
            r.affected_files@ =~= Seq::<String>::empty(),
            r.mitigation_steps@ =~= Seq::<String>::empty(),
            r.technical_details@ =~= Seq::<(String, String)>::empty(),
            r.wf(),
    {
        let mut id = text::to_slug(issue_type.as_str());
        id.append("-");
        let ms = text::u64_to_dec(now_ms);
        id.append(ms.as_str());
        SecurityIssue {
            id,
            issue_type,
            title,
            description,
            severity,
            status: IssueStatus::Active,
            detected_at: now_ms,
            resolved_at: None,
            affected_files: Vec::new(),
            mitigation_steps: Vec::new(),
            technical_details: Vec::new(),
        }
    }

    /// Builds an issue stamped with the current wall-clock time.
    pub fn new(
        issue_type: IssueType,
        title: String,
        description: String,
        severity: ThreatLevel,
    ) -> (r: SecurityIssue)
        ensures
            r.id@ == issue_id_seq(issue_type, r.detected_at as nat),
            r.issue_type == issue_type,
            r.title == title,
            r.description == description,
            r.severity == severity,
            r.status == IssueStatus::Active,
            r.resolved_at is None,
            r.affected_files@ =~= Seq::<String>::empty(),
            r.mitigation_steps@ =~= Seq::<String>::empty(),
            r.technical_details@ =~= Seq::<(String, String)>::empty(),
            r.wf(),
    {
        let now = host::now_millis();
        SecurityIssue::new_at(issue_type, title, description, severity, now)
    }

    /// Promotes a threat into an issue detected at `now_ms`: the category
    /// is inferred from the threat's free-text category, severity and
    /// lists are copied, and the confidence and originating threat
    /// identifier are recorded as technical details.
    pub fn from_threat_at(threat: &SecurityThreat, now_ms: u64) -> (r: SecurityIssue)
        ensures
            issue_from_threat_matches(*threat, now_ms, r),
            r.wf(),
    {
        let issue_type = SecurityIssue::infer_type(threat.threat_type.as_str());
        let mut issue = SecurityIssue::new_at(
            issue_type,
            threat.threat_type.clone(),
            threat.description.clone(),
            threat.threat_level,
            now_ms,
        );
        issue.affected_files = text::clone_strings(&threat.affected_resources);
        issue.mitigation_steps = text::clone_strings(&threat.recommendations);
        let mut conf = text::u64_to_dec((threat.confidence / 10) as u64);
        conf.append(".");
        let frac = text::u64_to_dec((threat.confidence % 10) as u64);
        conf.append(frac.as_str());
        conf.append("%");
        proof {
            assert(text::dec_digits((threat.confidence % 10) as nat) =~= seq![
                text::digit_char((threat.confidence % 10) as nat),
            ]);
            assert(conf@ == confidence_detail_spec(threat.confidence));
        }
        issue.technical_details.push(("confidence".to_owned(), conf));
        issue.technical_details.push(("threat_id".to_owned(), threat.id.clone()));
        proof {
            reveal_strlit("confidence");
            reveal_strlit("threat_id");
            assert("confidence"@.len() != "threat_id"@.len());
            assert(issue.wf());
        }
        issue
    }

    /// Promotes a threat into an issue stamped with the current
    /// wall-clock time.
    pub fn from_threat(threat: &SecurityThreat) -> (r: SecurityIssue)
        ensures
            exists|now_ms: u64| issue_from_threat_matches(*threat, now_ms, r),
            r.wf(),
    {
        let now = host::now_millis();
        let r = SecurityIssue::from_threat_at(threat, now);
        proof {
            assert(issue_from_threat_matches(*threat, now, r));
        }
        r
    }

    /// The first-match keyword classifier behind `infer_issue_type`.
    fn infer_type(threat_type: &str) -> (r: IssueType)
        ensures
            r == infer_issue_type(threat_type@),
    {
        if text::contains_sub(threat_type, "Malware") {
            IssueType::Malware
        } else if text::contains_sub(threat_type, "Clipboard") {
            IssueType::ClipboardHijack
        } else if text::contains_sub(threat_type, "Network") {
            IssueType::NetworkAnomaly
        } else if text::contains_sub(threat_type, "Process") {
            IssueType::SuspiciousProcess
        } else {
            IssueType::SystemVulnerability
        }
    }

    /// Resolves the issue at `now_ms`. A terminal status is left
    /// untouched, so the resolution time is set exactly once.
    pub fn resolve_at(&mut self, now_ms: u64)
        ensures
            old(self).status.is_terminal_spec() ==> *final(self) == *old(self),
            !old(self).status.is_terminal_spec() ==> {
                &&& final(self).status == IssueStatus::Resolved
                &&& final(self).resolved_at == Some(now_ms)
                &&& unchanged_but_status(*old(self), *final(self))
            },
    {
        if self.status.is_terminal() {
            return ;
        }
        self.status = IssueStatus::Resolved;
        self.resolved_at = Some(now_ms);
    }

    /// Resolves the issue, stamping the current wall-clock time.
    pub fn resolve(&mut self)
        ensures
            old(self).status.is_terminal_spec() ==> *final(self) == *old(self),
            !old(self).status.is_terminal_spec() ==> {
                &&& final(self).status == IssueStatus::Resolved
                &&& final(self).resolved_at is Some
                &&& unchanged_but_status(*old(self), *final(self))
            },
    {
        let now = host::now_millis();
        self.resolve_at(now);
    }

    /// Marks the issue a false positive at `now_ms`. A terminal status is
    /// left untouched.
    pub fn mark_false_positive_at(&mut self, now_ms: u64)
        ensures
            old(self).status.is_terminal_spec() ==> *final(self) == *old(self),
            !old(self).status.is_terminal_spec() ==> {
                &&& final(self).status == IssueStatus::FalsePositive
                &&& final(self).resolved_at == Some(now_ms)
                &&& unchanged_but_status(*old(self), *final(self))
            },
    {
        if self.status.is_terminal() {
            return ;
        }
        self.status = IssueStatus::FalsePositive;
        self.resolved_at = Some(now_ms);
    }

    /// Marks the issue a false positive, stamping the current wall-clock
    /// time.
    pub fn mark_false_positive(&mut self)
        ensures
            old(self).status.is_terminal_spec() ==> *final(self) == *old(self),
            !old(self).status.is_terminal_spec() ==> {
                &&& final(self).status == IssueStatus::FalsePositive
                &&& final(self).resolved_at is Some
                &&& unchanged_but_status(*old(self), *final(self))
            },
    {
        let now = host::now_millis();
        self.mark_false_positive_at(now);
    }

    /// Moves the issue from `Active` into `Investigating` or `Mitigated`;
    /// any other request is refused.
    pub fn set_status(&mut self, status: IssueStatus) -> (r: bool)
        ensures
            r == (old(self).status == IssueStatus::Active && (status == IssueStatus::Investigating
                || status == IssueStatus::Mitigated)),
            r ==> final(self).status == status && final(self).resolved_at == old(self).resolved_at
                && unchanged_but_status(*old(self), *final(self)),
            !r ==> *final(self) == *old(self),
    {
        let active = match self.status {
            IssueStatus::Active => true,
            _ => false,
        };
        let target_ok = match status {
            IssueStatus::Investigating => true,
            IssueStatus::Mitigated => true,
            _ => false,
        };
        if active && target_ok {
            self.status = status;
            true
        } else {
            false
        }
    }

    /// Appends a mitigation step.
    pub fn add_mitigation_step(&mut self, step: String)
        ensures
            final(self).mitigation_steps@ == old(self).mitigation_steps@.push(step),
            final(self).status == old(self).status,
            final(self).id == old(self).id,
            final(self).issue_type == old(self).issue_type,
            final(self).title == old(self).title,
            final(self).description == old(self).description,
            final(self).severity == old(self).severity,
            final(self).detected_at == old(self).detected_at,
            final(self).resolved_at == old(self).resolved_at,
            final(self).affected_files == old(self).affected_files,
            final(self).technical_details == old(self).technical_details,
    {
        self.mitigation_steps.push(step);
    }

    /// Records a technical detail: a fresh key is appended, an existing
    /// key has its value overwritten.
    pub fn add_technical_detail(&mut self, key: String, value: String)
        ensures
            ({
                let j = find_key_idx(old(self).technical_details@, key@);
                if j == -1 {
                    final(self).technical_details@ == old(self).technical_details@.push(
                        (key, value),
                    )
                } else {
                    final(self).technical_details@ == old(self).technical_details@.update(
                        j,
                        (key, value),
                    )
                }
            }),
            old(self).wf() ==> final(self).wf(),
            final(self).status == old(self).status,
            final(self).id == old(self).id,
            final(self).issue_type == old(self).issue_type,
            final(self).title == old(self).title,
            final(self).description == old(self).description,
            final(self).severity == old(self).severity,
            final(self).detected_at == old(self).detected_at,
            final(self).resolved_at == old(self).resolved_at,
            final(self).affected_files == old(self).affected_files,
            final(self).mitigation_steps == old(self).mitigation_steps,
    {
        proof {
            lemma_find_key_idx(old(self).technical_details@, key@);
        }
        let n: usize = self.technical_details.len();
        let mut i: usize = 0;
        while i < n
            invariant
                n == self.technical_details@.len(),
                i <= n,
                *self == *old(self),
                forall|k: int| 0 <= k < i ==> self.technical_details@[k].0@ != key@,
            decreases n - i,
        {
            if text::str_eq(self.technical_details[i].0.as_str(), key.as_str()) {
                proof {
                    lemma_find_key_idx(old(self).technical_details@, key@);
                    assert(find_key_idx(old(self).technical_details@, key@) == i);
                }
                self.technical_details.set(i, (key, value));
                return ;
            }
            i = i + 1;
        }
        proof {
            lemma_find_key_idx(old(self).technical_details@, key@);
        }
        self.technical_details.push((key, value));
    }
}

/// The two issues agree on every field except the status and resolution
/// time.
pub open spec fn unchanged_but_status(a: SecurityIssue, b: SecurityIssue) -> bool {
    &&& b.id == a.id
    &&& b.issue_type == a.issue_type
    &&& b.title == a.title
    &&& b.description == a.description
    &&& b.severity == a.severity
    &&& b.detected_at == a.detected_at
    &&& b.affected_files == a.affected_files
    &&& b.mitigation_steps == a.mitigation_steps
    &&& b.technical_details == a.technical_details
}

/// Concatenation of a list of character sequences.
pub open spec fn concat_seqs(ss: Seq<Seq<char>>) -> Seq<char>
    decreases ss.len(),
{
    if ss.len() == 0 {
        Seq::empty()
    } else {
        concat_seqs(ss.drop_last()) + ss.last()
    }
}

/// The affected-files block of an issue display, empty when there are no
/// files.
pub open spec fn files_block_spec(fs: Seq<Seq<char>>) -> Seq<char> {
    if fs.len() == 0 {
        Seq::empty()
    } else {
        "\n\u{1f4c1} Affected Files:\n"@ + concat_seqs(
            fs.map_values(|f: Seq<char>| "  \u{2022} "@ + f + "\n"@),
        )
    }
}

/// The numbered mitigation-steps block of an issue display, empty when
/// there are no steps.
pub open spec fn steps_block_spec(ms: Seq<Seq<char>>) -> Seq<char> {
    if ms.len() == 0 {
        Seq::empty()
    } else {
        "\n\u{1f6e0}\u{fe0f}  Mitigation Steps:\n"@ + concat_seqs(
            Seq::new(
                ms.len(),
                |i: int| "  "@ + text::dec_digits((i + 1) as nat) + ". "@ + ms[i] + "\n"@,
            ),
        )
    }
}

impl SecurityIssue {
    /// The full display rendering of an issue.
    pub open spec fn display_spec(i: SecurityIssue) -> Seq<char> {
        i.issue_type.emoji_spec() + " "@ + i.title@ + " ["@ + i.severity.as_str_spec() + "]"@
            + "\nStatus: "@ + i.status.emoji_spec() + " "@ + i.status.as_str_spec() + "\n"@
            + i.description@ + files_block_spec(i.affected_files.deep_view()) + steps_block_spec(
            i.mitigation_steps.deep_view(),
        )
    }

    /// Renders the issue for display.
    pub fn format_for_display(&self) -> (r: String)
        ensures
            r@ == SecurityIssue::display_spec(*self),
    {
        let mut out = self.issue_type.emoji().to_owned();
        out.append(" ");
        out.append(self.title.as_str());
        out.append(" [");
        out.append(self.severity.as_str());
        out.append("]");
        out.append("\nStatus: ");
        out.append(self.status.emoji());
        out.append(" ");
        out.append(self.status.as_str());
        out.append("\n");
        out.append(self.description.as_str());
        if self.affected_files.len() > 0 {
            out.append("\n\u{1f4c1} Affected Files:\n");
            let ghost fs = self.affected_files.deep_view().map_values(
                |f: Seq<char>| "  \u{2022} "@ + f + "\n"@,
            );
            let n: usize = self.affected_files.len();
            let mut i: usize = 0;
            while i < n
                invariant
                    n == self.affected_files@.len(),
                    i <= n,
                    fs == self.affected_files.deep_view().map_values(
                        |f: Seq<char>| "  \u{2022} "@ + f + "\n"@,
                    ),
                    out@ == old_prefix_files(*self) + concat_seqs(fs.take(i as int)),
                decreases n - i,
            {
                out.append("  \u{2022} ");
                out.append(self.affected_files[i].as_str());
                out.append("\n");
                proof {
                    assert(fs.take(i + 1).drop_last() =~= fs.take(i as int));
                    assert(self.affected_files.deep_view()[i as int]
                        == self.affected_files@[i as int]@);
                    assert(out@ =~= old_prefix_files(*self) + concat_seqs(fs.take(i + 1)));
                }
                i = i + 1;
            }
            proof {
                assert(fs.take(n as int) =~= fs);
            }
        }
        if self.mitigation_steps.len() > 0 {
            out.append("\n\u{1f6e0}\u{fe0f}  Mitigation Steps:\n");
            let ghost ms = Seq::new(
                self.mitigation_steps.deep_view().len(),
                |i: int| "  "@ + text::dec_digits((i + 1) as nat) + ". "@
                    + self.mitigation_steps.deep_view()[i] + "\n"@,
            );
            let n: usize = self.mitigation_steps.len();
            let ghost pre = out@;
            let mut i: usize = 0;
            while i < n
                invariant
                    n == self.mitigation_steps@.len(),
                    i <= n,
                    ms == Seq::new(
                        self.mitigation_steps.deep_view().len(),
                        |i: int| "  "@ + text::dec_digits((i + 1) as nat) + ". "@
                            + self.mitigation_steps.deep_view()[i] + "\n"@,
                    ),
                    out@ == pre + concat_seqs(ms.take(i as int)),
                decreases n - i,
            {
                out.append("  ");
                let num = text::u64_to_dec((i as u64) + 1);
                out.append(num.as_str());
                out.append(". ");
                out.append(self.mitigation_steps[i].as_str());
                out.append("\n");
                proof {
                    assert(ms.take(i + 1).drop_last() =~= ms.take(i as int));
                    assert(self.mitigation_steps.deep_view()[i as int]
                        == self.mitigation_steps@[i as int]@);
                    assert(out@ =~= pre + concat_seqs(ms.take(i + 1)));
                }
                i = i + 1;
            }
            proof {
                assert(ms.take(n as int) =~= ms);
            }
        }
        proof {
            assert(out@ =~= SecurityIssue::display_spec(*self));
        }
        out
    }
}

/// The rendered issue display up to and including the affected-files
/// heading.
pub open spec fn old_prefix_files(i: SecurityIssue) -> Seq<char> {
    i.issue_type.emoji_spec() + " "@ + i.title@ + " ["@ + i.severity.as_str_spec() + "]"@
        + "\nStatus: "@ + i.status.emoji_spec() + " "@ + i.status.as_str_spec() + "\n"@
        + i.description@ + "\n\u{1f4c1} Affected Files:\n"@
}

/// Number of issues in `s` whose severity is `lv`.
pub open spec fn count_sev(s: Seq<SecurityIssue>, lv: ThreatLevel) -> int
    decreases s.len(),
{
    if s.len() == 0 {
        0
    } else {
        count_sev(s.drop_last(), lv) + if s.last().severity == lv {
            1int
        } else {
            0int
        }
    }
}

/// Number of issues in `s` whose status is `Resolved`.
pub open spec fn count_resolved(s: Seq<SecurityIssue>) -> int
    decreases s.len(),
{
    if s.len() == 0 {
        0
    } else {
        count_resolved(s.drop_last()) + if s.last().status == IssueStatus::Resolved {
            1int
        } else {
            0int
        }
    }
}

/// Total severity penalty of the issue list, in hundredths of a point:
/// 25 points per critical, 15 per high, 8 per medium, 3 per low issue.
pub open spec fn penalty_centi(s: Seq<SecurityIssue>) -> int {
    2500 * count_sev(s, ThreatLevel::Critical) + 1500 * count_sev(s, ThreatLevel::High) + 800
        * count_sev(s, ThreatLevel::Medium) + 300 * count_sev(s, ThreatLevel::Low)
}

/// The security score of the issue list, in hundredths of a point: 100
/// points minus the severity penalties, floored at 0, plus a resolution
/// bonus of 10 points scaled by the resolved fraction, capped at 100.
pub open spec fn score_centi(s: Seq<SecurityIssue>) -> int {
    let base = if penalty_centi(s) >= 10000 {
        0int
    } else {
        10000 - penalty_centi(s)
    };
    let bonus = if s.len() > 0 {
        count_resolved(s) * 1000 / s.len() as int
    } else {
        0int
    };
    if base + bonus >= 10000 {
        10000int
    } else {
        base + bonus
    }
}

/// Derived per-severity counts, resolved count, and score of a report.
#[derive(Debug, Clone, Copy, PartialEq, Eq, Structural)]
pub struct ReportSummary {
    pub total_issues: usize,
    pub critical_issues: usize,
    pub high_issues: usize,
    pub medium_issues: usize,
    pub low_issues: usize,
    pub resolved_issues: usize,
    /// Security score in hundredths of a point (0..=10000).
    pub security_score: u32,
}

/// The summary `r` is the one recomputed from the issue list `s`.
pub open spec fn summary_matches(s: Seq<SecurityIssue>, r: ReportSummary) -> bool {
    &&& r.total_issues == s.len()
    &&& r.critical_issues == count_sev(s, ThreatLevel::Critical)
    &&& r.high_issues == count_sev(s, ThreatLevel::High)
    &&& r.medium_issues == count_sev(s, ThreatLevel::Medium)
    &&& r.low_issues == count_sev(s, ThreatLevel::Low)
    &&& r.resolved_issues == count_resolved(s)
    &&& r.security_score == score_centi(s)
}

impl Default for ReportSummary {
    /// The summary of an empty issue list: no issues, full score.
    fn default() -> (r: ReportSummary)
        ensures
            summary_matches(Seq::empty(), r),
            r.total_issues == 0,
            r.security_score == 10000,
    {
        ReportSummary {
            total_issues: 0,
            critical_issues: 0,
            high_issues: 0,
            medium_issues: 0,
            low_issues: 0,
            resolved_issues: 0,
            security_score: 10000,
        }
    }
}

/// Static system metadata attached to a report.
#[derive(Debug, Clone)]
pub struct SystemInfo {
    pub os: String,
    pub hostname: String,
    pub scan_scope: String,
    pub scanner_version: String,
}

impl SystemInfo {
    pub fn new(os: String, hostname: String, scan_scope: String, scanner_version: String) -> (r:
        SystemInfo)
        ensures
            r.os == os,
            r.hostname == hostname,
            r.scan_scope == scan_scope,
            r.scanner_version == scanner_version,
    {
        SystemInfo { os, hostname, scan_scope, scanner_version }
    }
}

impl Default for SystemInfo {
    /// Metadata for the local machine: the hostname is read from the
    /// host, the rest are fixed labels.
    fn default() -> (r: SystemInfo)
        ensures
            r.os@ == "unknown"@,
            r.scan_scope@ == "System"@,
            r.scanner_version@ == "1.0.0"@,
    {
        SystemInfo {
            os: "unknown".to_owned(),
            hostname: host::host_name(),
            scan_scope: "System".to_owned(),
            scanner_version: "1.0.0".to_owned(),
        }
    }
}

/// Index of the first issue in `s` with identifier `id`, or -1 if none.
pub open spec fn find_issue_idx(s: Seq<SecurityIssue>, id: Seq<char>) -> int
    decreases s.len(),
{
    if s.len() == 0 {
        -1
    } else if s[0].id@ == id {
        0
    } else {
        let r = find_issue_idx(s.drop_first(), id);
        if r == -1 {
            -1
        } else {
            r + 1
        }
    }
}

/// What `find_issue_idx` returns: either -1 and no issue matches, or the
/// position of the first match.
pub proof fn lemma_find_issue_idx(s: Seq<SecurityIssue>, id: Seq<char>)
    ensures
        find_issue_idx(s, id) == -1 ==> forall|k: int| 0 <= k < s.len() ==> s[k].id@ != id,
        find_issue_idx(s, id) != -1 ==> {
            let j = find_issue_idx(s, id);
            &&& 0 <= j < s.len()
            &&& s[j].id@ == id
            &&& forall|k: int| 0 <= k < j ==> s[k].id@ != id
        },
    decreases s.len(),
{
    if s.len() > 0 && s[0].id@ != id {
        let t = s.drop_first();
        lemma_find_issue_idx(t, id);
        assert(forall|k: int| 1 <= k < s.len() ==> s[k] == t[k - 1]);
    }
}

/// Finding by identifier looks only at the identifiers: two lists that
/// agree on them agree on the found position.
pub proof fn lemma_find_issue_idx_same_ids(s: Seq<SecurityIssue>, t: Seq<SecurityIssue>, id: Seq<
    char,
>)
    requires
        s.len() == t.len(),
        forall|k: int| 0 <= k < s.len() ==> s[k].id@ == t[k].id@,
    ensures
        find_issue_idx(s, id) == find_issue_idx(t, id),
    decreases s.len(),
{
    if s.len() > 0 && s[0].id@ != id {
        let s1 = s.drop_first();
        let t1 = t.drop_first();
        assert(forall|k: int| 0 <= k < s1.len() ==> s1[k] == s[k + 1] && t1[k] == t[k + 1]);
        lemma_find_issue_idx_same_ids(s1, t1, id);
    }
}

/// Resolving an issue is idempotent: after a resolve succeeds, the same
/// identifier finds the same, now terminal, issue, so a second resolve
/// reports failure and leaves the state — in particular the resolution
/// time — unchanged.
pub proof fn lemma_resolve_idempotent(
    issues0: Seq<SecurityIssue>,
    issues1: Seq<SecurityIssue>,
    updated: SecurityIssue,
    id: Seq<char>,
)
    requires
        find_issue_idx(issues0, id) != -1,
        updated.id@ == issues0[find_issue_idx(issues0, id)].id@,
        updated.status == IssueStatus::Resolved,
        issues1 == issues0.update(find_issue_idx(issues0, id), updated),
    ensures
        find_issue_idx(issues1, id) == find_issue_idx(issues0, id),
        issues1[find_issue_idx(issues1, id)].status.is_terminal_spec(),
{
    lemma_find_issue_idx(issues0, id);
    lemma_find_issue_idx_same_ids(issues0, issues1, id);
}

/// A point-in-time aggregate snapshot of the issue set: the issues, the
/// summary recomputed from them after every mutation, and system
/// metadata.
#[derive(Debug, Clone)]
pub struct SecurityReport {
    pub id: String,
    /// Generation time, in milliseconds since the Unix epoch.
    pub generated_at: u64,
    /// Scan duration, in milliseconds.
    pub scan_duration: u64,
    pub issues: Vec<SecurityIssue>,
    pub summary: ReportSummary,
    pub system_info: SystemInfo,
}

impl SecurityReport {
    /// The summary agrees with the issue list.
    pub open spec fn wf(self) -> bool {
        summary_matches(self.issues@, self.summary)
    }

    /// Builds an empty report generated at `now_ms`.
    pub fn new_at(now_ms: u64) -> (r: SecurityReport)
        ensures
            r.id@ == "report-"@ + text::dec_digits(now_ms as nat),
            r.generated_at == now_ms,
            r.scan_duration == 0,
            r.issues@.len() == 0,
            r.wf(),
    {
        let mut id = "report-".to_owned();
        let ms = text::u64_to_dec(now_ms);
        id.append(ms.as_str());
        SecurityReport {
            id,
            generated_at: now_ms,
            scan_duration: 0,
            issues: Vec::new(),
            summary: ReportSummary::default(),
            system_info: SystemInfo::default(),
        }
    }

    /// Builds an empty report stamped with the current wall-clock time.
    pub fn new() -> (r: SecurityReport)
        ensures
            r.id@ == "report-"@ + text::dec_digits(r.generated_at as nat),
            r.scan_duration == 0,
            r.issues@.len() == 0,
            r.wf(),
    {
        let now = host::now_millis();
        SecurityReport::new_at(now)
    }

    /// Recomputes the summary from the current issue list.
    fn update_summary(&mut self)
        ensures
            final(self).issues == old(self).issues,
            final(self).id == old(self).id,
            final(self).generated_at == old(self).generated_at,
            final(self).scan_duration == old(self).scan_duration,
            final(self).system_info == old(self).system_info,
            summary_matches(final(self).issues@, final(self).summary),
            final(self).wf(),
    {
        let n: usize = self.issues.len();
        let mut critical: usize = 0;
        let mut high: usize = 0;
        let mut medium: usize = 0;
        let mut low: usize = 0;
        let mut resolved: usize = 0;
        let mut i: usize = 0;
        while i < n
            invariant
                n == self.issues@.len(),
                i <= n,
                critical <= i && high <= i && medium <= i && low <= i && resolved <= i,
                critical as int == count_sev(self.issues@.take(i as int), ThreatLevel::Critical),
                high as int == count_sev(self.issues@.take(i as int), ThreatLevel::High),
                medium as int == count_sev(self.issues@.take(i as int), ThreatLevel::Medium),
                low as int == count_sev(self.issues@.take(i as int), ThreatLevel::Low),
                resolved as int == count_resolved(self.issues@.take(i as int)),
            decreases n - i,
        {
            proof {
                let t = self.issues@.take(i + 1);
                assert(t.drop_last() =~= self.issues@.take(i as int));
                assert(t.last() == self.issues@[i as int]);
            }
            match self.issues[i].severity {
                ThreatLevel::Critical => {
                    critical = critical + 1;
                },
                ThreatLevel::High => {
                    high = high + 1;
                },
                ThreatLevel::Medium => {
                    medium = medium + 1;
                },
                ThreatLevel::Low => {
                    low = low + 1;
                },
                ThreatLevel::NoThreat => {},
            }
            let is_resolved = match self.issues[i].status {
                IssueStatus::Resolved => true,
                _ => false,
            };
            if is_resolved {
                resolved = resolved + 1;
            }
            i = i + 1;
        }
        proof {
            assert(self.issues@.take(n as int) =~= self.issues@);
        }
        let penalty: u128 = 2500 * (critical as u128) + 1500 * (high as u128) + 800 * (medium
            as u128) + 300 * (low as u128);
        let base: u128 = if penalty >= 10000 {
            0
        } else {
            10000 - penalty
        };
        let bonus: u128 = if n > 0 {
            (resolved as u128) * 1000 / (n as u128)
        } else {
            0
        };
        let score: u32 = if base + bonus >= 10000 {
            10000
        } else {
            (base + bonus) as u32
        };
        self.summary = ReportSummary {
            total_issues: n,
            critical_issues: critical,
            high_issues: high,
            medium_issues: medium,
            low_issues: low,
            resolved_issues: resolved,
            security_score: score,
        };
    }

    /// Appends an issue and recomputes the summary.
    pub fn add_issue(&mut self, issue: SecurityIssue)
        ensures
            final(self).issues@ == old(self).issues@.push(issue),
            final(self).id == old(self).id,
            final(self).generated_at == old(self).generated_at,
            final(self).scan_duration == old(self).scan_duration,
            final(self).system_info == old(self).system_info,
            final(self).wf(),
    {
        self.issues.push(issue);
        self.update_summary();
    }

    /// Promotes a threat into an issue, appends it, and recomputes the
    /// summary.
    pub fn add_threat(&mut self, threat: &SecurityThreat)
        ensures
            final(self).issues@.len() == old(self).issues@.len() + 1,
            final(self).issues@.drop_last() == old(self).issues@,
            exists|now_ms: u64|
                issue_from_threat_matches(*threat, now_ms, final(self).issues@.last()),
            final(self).id == old(self).id,
            final(self).generated_at == old(self).generated_at,
            final(self).scan_duration == old(self).scan_duration,
            final(self).system_info == old(self).system_info,
            final(self).wf(),
    {
        let issue = SecurityIssue::from_threat(threat);
        self.add_issue(issue);
        proof {
            assert(final(self).issues@.drop_last() =~= old(self).issues@);
        }
    }

    /// Resolves the first issue with the given identifier at time
    /// `now_ms` and recomputes the summary. Reports `true` exactly when a
    /// non-terminal issue with that identifier was found; an issue
    /// already in a terminal status is left untouched.
    pub fn resolve_issue_at(&mut self, issue_id: &str, now_ms: u64) -> (r: bool)
        ensures
            resolve_outcome_matches(*old(self), *final(self), issue_id@, Some(now_ms), r),
    {
        proof {
            lemma_find_issue_idx(old(self).issues@, issue_id@);
        }
        let n: usize = self.issues.len();
        let mut i: usize = 0;
        while i < n
            invariant
                n == self.issues@.len(),
                i <= n,
                *self == *old(self),
                forall|k: int| 0 <= k < i ==> self.issues@[k].id@ != issue_id@,
            decreases n - i,
        {
            if text::str_eq(self.issues[i].id.as_str(), issue_id) {
                proof {
                    lemma_find_issue_idx(old(self).issues@, issue_id@);
                    assert(find_issue_idx(old(self).issues@, issue_id@) == i);
                }
                if self.issues[i].status.is_terminal() {
                    return false;
                }
                let mut issue = self.issues.remove(i);
                issue.resolve_at(now_ms);
                self.issues.insert(i, issue);
                proof {
                    assert(self.issues@ =~= old(self).issues@.update(i as int, issue));
                }
                self.update_summary();
                return true;
            }
            i = i + 1;
        }
        proof {
            lemma_find_issue_idx(old(self).issues@, issue_id@);
        }
        false
    }

    /// Resolves the first issue with the given identifier, stamping the
    /// current wall-clock time, and recomputes the summary.
    pub fn resolve_issue(&mut self, issue_id: &str) -> (r: bool)
        ensures
            resolve_outcome_matches(*old(self), *final(self), issue_id@, None, r),
    {
        let now = host::now_millis();
        let r = self.resolve_issue_at(issue_id, now);
        r
    }

    /// Marks the first issue with the given identifier a false positive
    /// at time `now_ms` and recomputes the summary. Reports `true`
    /// exactly when a non-terminal issue with that identifier was found.
    pub fn mark_false_positive_at(&mut self, issue_id: &str, now_ms: u64) -> (r: bool)
        ensures
            transition_outcome_matches(
                *old(self),
                *final(self),
                issue_id@,
                Some(now_ms),
                IssueStatus::FalsePositive,
                r,
            ),
    {
        proof {
            lemma_find_issue_idx(old(self).issues@, issue_id@);
        }
        let n: usize = self.issues.len();
        let mut i: usize = 0;
        while i < n
            invariant
                n == self.issues@.len(),
                i <= n,
                *self == *old(self),
                forall|k: int| 0 <= k < i ==> self.issues@[k].id@ != issue_id@,
            decreases n - i,
        {
            if text::str_eq(self.issues[i].id.as_str(), issue_id) {
                proof {
                    lemma_find_issue_idx(old(self).issues@, issue_id@);
                    assert(find_issue_idx(old(self).issues@, issue_id@) == i);
                }
                if self.issues[i].status.is_terminal() {
                    return false;
                }
                let mut issue = self.issues.remove(i);
                issue.mark_false_positive_at(now_ms);
                self.issues.insert(i, issue);
                proof {
                    assert(self.issues@ =~= old(self).issues@.update(i as int, issue));
                }
                self.update_summary();
                return true;
            }
            i = i + 1;
        }
        proof {
            lemma_find_issue_idx(old(self).issues@, issue_id@);
        }
        false
    }

    /// Marks the first issue with the given identifier a false positive,
    /// stamping the current wall-clock time.
    pub fn mark_false_positive(&mut self, issue_id: &str) -> (r: bool)
        ensures
            transition_outcome_matches(
                *old(self),
                *final(self),
                issue_id@,
                None,
                IssueStatus::FalsePositive,
                r,
            ),
    {
        let now = host::now_millis();
        let r = self.mark_false_positive_at(issue_id, now);
        r
    }

    /// Appends a mitigation step to the first issue with the given
    /// identifier; reports whether one was found.
    pub fn add_mitigation_step(&mut self, issue_id: &str, step: String) -> (r: bool)
        ensures
            r == (find_issue_idx(old(self).issues@, issue_id@) != -1),
            !r ==> *final(self) == *old(self),
            r ==> {
                let j = find_issue_idx(old(self).issues@, issue_id@);
                let updated = final(self).issues@[j];
                &&& final(self).issues@ == old(self).issues@.update(j, updated)
                &&& updated.mitigation_steps@ == old(self).issues@[j].mitigation_steps@.push(step)
                &&& updated.status == old(self).issues@[j].status
                &&& updated.id == old(self).issues@[j].id
                &&& updated.severity == old(self).issues@[j].severity
                &&& final(self).summary == old(self).summary
                &&& final(self).id == old(self).id
                &&& final(self).generated_at == old(self).generated_at
                &&& final(self).scan_duration == old(self).scan_duration
                &&& final(self).system_info == old(self).system_info
            },
    {
        proof {
            lemma_find_issue_idx(old(self).issues@, issue_id@);
        }
        let n: usize = self.issues.len();
        let mut i: usize = 0;
        while i < n
            invariant
                n == self.issues@.len(),
                i <= n,
                *self == *old(self),
                forall|k: int| 0 <= k < i ==> self.issues@[k].id@ != issue_id@,
            decreases n - i,
        {
            if text::str_eq(self.issues[i].id.as_str(), issue_id) {
                proof {
                    lemma_find_issue_idx(old(self).issues@, issue_id@);
                    assert(find_issue_idx(old(self).issues@, issue_id@) == i);
                }
                let mut issue = self.issues.remove(i);
                issue.add_mitigation_step(step);
                self.issues.insert(i, issue);
                proof {
                    assert(self.issues@ =~= old(self).issues@.update(i as int, issue));
                }
                return true;
            }
            i = i + 1;
        }
        proof {
            lemma_find_issue_idx(old(self).issues@, issue_id@);
        }
        false
    }

    /// The first issue with the given identifier, if any.
    pub fn get_issue_by_id(&self, issue_id: &str) -> (r: Option<&SecurityIssue>)
        ensures
            (r is Some) == (find_issue_idx(self.issues@, issue_id@) != -1),
            r is Some ==> *r->0 == self.issues@[find_issue_idx(self.issues@, issue_id@)],
    {
        proof {
            lemma_find_issue_idx(self.issues@, issue_id@);
        }
        let n: usize = self.issues.len();
        let mut i: usize = 0;
        while i < n
            invariant
                n == self.issues@.len(),
                i <= n,
                forall|k: int| 0 <= k < i ==> self.issues@[k].id@ != issue_id@,
            decreases n - i,
        {
            if text::str_eq(self.issues[i].id.as_str(), issue_id) {
                proof {
                    lemma_find_issue_idx(self.issues@, issue_id@);
                    assert(find_issue_idx(self.issues@, issue_id@) == i);
                }
                return Some(&self.issues[i]);
            }
            i = i + 1;
        }
        proof {
            lemma_find_issue_idx(self.issues@, issue_id@);
        }
        None
    }

    /// The issues still requiring attention: status `Active` or
    /// `Investigating`, in order.
    pub fn get_active_issues(&self) -> (r: Vec<&SecurityIssue>)
        ensures
            r@.map_values(|i: &SecurityIssue| *i) == filter_attention(self.issues@),
    {
        let mut out: Vec<&SecurityIssue> = Vec::new();
        let n: usize = self.issues.len();
        let mut i: usize = 0;
        while i < n
            invariant
                n == self.issues@.len(),
                i <= n,
                out@.map_values(|i: &SecurityIssue| *i) == filter_attention(
                    self.issues@.take(i as int),
                ),
            decreases n - i,
        {
            proof {
                assert(self.issues@.take(i + 1).drop_last() =~= self.issues@.take(i as int));
            }
            let needs_attention = match self.issues[i].status {
                IssueStatus::Active => true,
                IssueStatus::Investigating => true,
                _ => false,
            };
            if needs_attention {
                out.push(&self.issues[i]);
            }
            proof {
                assert(out@.map_values(|i: &SecurityIssue| *i) =~= filter_attention(
                    self.issues@.take(i + 1),
                ));
            }
            i = i + 1;
        }
        proof {
            assert(self.issues@.take(n as int) =~= self.issues@);
        }
        out
    }

    /// The multi-line rendering of the summary.
    pub fn format_summary(&self) -> (r: String)
        ensures
            r@ == format_summary_spec(self.summary),
    {
        let sc: u32 = self.summary.security_score;
        let mut out = if sc >= 9000 {
            "\u{1f7e2}".to_owned()
        } else if sc >= 7000 {
            "\u{1f7e1}".to_owned()
        } else {
            "\u{1f534}".to_owned()
        };
        out.append(" Security Score: ");
        let tenths: u64 = ((sc as u64) + 5) / 10;
        let whole = text::u64_to_dec(tenths / 10);
        out.append(whole.as_str());
        out.append(".");
        let frac = text::u64_to_dec(tenths % 10);
        out.append(frac.as_str());
        out.append("/100\n\u{1f4ca} Issues: ");
        let d = text::u64_to_dec(self.summary.total_issues as u64);
        out.append(d.as_str());
        out.append(" Total (");
        let d = text::u64_to_dec(self.summary.critical_issues as u64);
        out.append(d.as_str());
        out.append(" Critical, ");
        let d = text::u64_to_dec(self.summary.high_issues as u64);
        out.append(d.as_str());
        out.append(" High, ");
        let d = text::u64_to_dec(self.summary.medium_issues as u64);
        out.append(d.as_str());
        out.append(" Medium, ");
        let d = text::u64_to_dec(self.summary.low_issues as u64);
        out.append(d.as_str());
        out.append(" Low)\n\u{2705} Resolved: ");
        let d = text::u64_to_dec(self.summary.resolved_issues as u64);
        out.append(d.as_str());
        proof {
            assert(text::dec_digits(((self.summary.security_score + 5) / 10 % 10) as nat) =~= seq![
                text::digit_char(((self.summary.security_score + 5) / 10 % 10) as nat),
            ]);
            assert(out@ =~= format_summary_spec(self.summary));
        }
        out
    }
}

/// Issues whose status still requires attention, in order.
pub open spec fn filter_attention(s: Seq<SecurityIssue>) -> Seq<SecurityIssue>
    decreases s.len(),
{
    if s.len() == 0 {
        Seq::empty()
    } else if s.last().status == IssueStatus::Active || s.last().status
        == IssueStatus::Investigating {
        filter_attention(s.drop_last()).push(s.last())
    } else {
        filter_attention(s.drop_last())
    }
}

/// The rendered summary: a score lamp, the score with one decimal place
/// (rounded half up), the per-severity counts, and the resolved count.
pub open spec fn format_summary_spec(s: ReportSummary) -> Seq<char> {
    let lamp = if s.security_score >= 9000 {
        "\u{1f7e2}"@
    } else if s.security_score >= 7000 {
        "\u{1f7e1}"@
    } else {
        "\u{1f534}"@
    };
    let tenths = ((s.security_score + 5) / 10) as int;
    lamp + " Security Score: "@ + text::dec_digits((tenths / 10) as nat) + "."@ + seq![
        text::digit_char((tenths % 10) as nat),
    ] + "/100\n\u{1f4ca} Issues: "@ + text::dec_digits(s.total_issues as nat) + " Total ("@
        + text::dec_digits(s.critical_issues as nat) + " Critical, "@ + text::dec_digits(
        s.high_issues as nat,
    ) + " High, "@ + text::dec_digits(s.medium_issues as nat) + " Medium, "@ + text::dec_digits(
        s.low_issues as nat,
    ) + " Low)\n\u{2705} Resolved: "@ + text::dec_digits(s.resolved_issues as nat)
}

/// The outcome of a terminal-transition command aimed at `target`:
/// `r` is true exactly when a non-terminal issue carries the identifier;
/// in that case that issue — and only it — now has status `target` with
/// its resolution time set (to `stamp` when one is given), and the
/// summary is recomputed; otherwise nothing changed.
pub open spec fn transition_outcome_matches(
    pre: SecurityReport,
    post: SecurityReport,
    id: Seq<char>,
    stamp: Option<u64>,
    target: IssueStatus,
    r: bool,
) -> bool {
    let j = find_issue_idx(pre.issues@, id);
    &&& r == (j != -1 && !pre.issues@[j].status.is_terminal_spec())
    &&& !r ==> post == pre
    &&& r ==> {
        let updated = post.issues@[j];
        &&& post.issues@ == pre.issues@.update(j, updated)
        &&& updated.status == target
        &&& updated.resolved_at is Some
        &&& (stamp is Some ==> updated.resolved_at == stamp)
        &&& unchanged_but_status(pre.issues@[j], updated)
        &&& summary_matches(post.issues@, post.summary)
        &&& post.id == pre.id
        &&& post.generated_at == pre.generated_at
        &&& post.scan_duration == pre.scan_duration
        &&& post.system_info == pre.system_info
    }
}

/// The outcome of a resolve command: a terminal transition aimed at
/// `Resolved`.
pub open spec fn resolve_outcome_matches(
    pre: SecurityReport,
    post: SecurityReport,
    id: Seq<char>,
    stamp: Option<u64>,
    r: bool,
) -> bool {
    transition_outcome_matches(pre, post, id, stamp, IssueStatus::Resolved, r)
}

/// The issue `i` is the promotion of threat `t` at time `now_ms`.
pub open spec fn issue_from_threat_matches(t: SecurityThreat, now_ms: u64, i: SecurityIssue) -> bool {
    &&& i.issue_type == infer_issue_type(t.threat_type@)
    &&& i.id@ == issue_id_seq(i.issue_type, now_ms as nat)
    &&& i.title@ == t.threat_type@
    &&& i.description@ == t.description@
    &&& i.severity == t.threat_level
    &&& i.status == IssueStatus::Active
    &&& i.detected_at == now_ms
    &&& i.resolved_at is None
    &&& i.affected_files@ == t.affected_resources@
    &&& i.mitigation_steps@ == t.recommendations@
    &&& i.technical_details@.len() == 2
    &&& i.technical_details@[0].0@ == "confidence"@
    &&& i.technical_details@[0].1@ == confidence_detail_spec(t.confidence)
    &&& i.technical_details@[1].0@ == "threat_id"@
    &&& i.technical_details@[1].1@ == t.id@
}

} // verus!
