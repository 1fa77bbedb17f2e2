//! Serialization of a report to a structured JSON document with stable
//! field names, a parser for that document, and the proof that parsing an
//! exported document reproduces the report's content.
//!
//! The escape rules: `"` and `\` are escaped with a backslash, as are
//! newline, carriage return and tab; every other character stands for
//! itself.

use vstd::prelude::*;

use crate::security_report::IssueStatus;
use crate::security_report::IssueType;
use crate::security_report::ReportSummary;
use crate::security_report::SecurityIssue;
use crate::security_report::SecurityReport;
use crate::security_report::SystemInfo;
use crate::text;
use crate::threat_detector::ThreatLevel;

verus! {

/// The escaped form of one character.
pub open spec fn escape_char(c: char) -> Seq<char> {
    if c == '"' {
        seq!['\\', '"']
    } else if c == '\\' {
        seq!['\\', '\\']
    } else if c == '\n' {
        seq!['\\', 'n']
    } else if c == '\r' {
        seq!['\\', 'r']
    } else if c == '\t' {
        seq!['\\', 't']
    } else {
        seq![c]
    }
}

/// The escaped form of a string.
pub open spec fn escape_seq(s: Seq<char>) -> Seq<char>
    decreases s.len(),
{
    if s.len() == 0 {
        Seq::empty()
    } else {
        escape_char(s[0]) + escape_seq(s.drop_first())
    }
}

/// Escaping one more character at the end appends its escaped form.
pub proof fn lemma_escape_snoc(s: Seq<char>, c: char)
    ensures
        escape_seq(s.push(c)) == escape_seq(s) + escape_char(c),
    decreases s.len(),
{
    if s.len() == 0 {
        assert(s.push(c)[0] == c);
        assert(s.push(c).drop_first() =~= Seq::<char>::empty());
        assert(escape_seq(Seq::<char>::empty()) =~= Seq::<char>::empty());
        assert(escape_seq(s.push(c)) =~= escape_char(c));
        assert(escape_seq(s) + escape_char(c) =~= escape_char(c));
    } else {
        assert(s.push(c).drop_first() =~= s.drop_first().push(c));
        lemma_escape_snoc(s.drop_first(), c);
        assert(escape_seq(s.push(c)) =~= escape_seq(s) + escape_char(c));
    }
}

/// A string as it stands in the document: escaped, between quotes.
pub open spec fn quoted(s: Seq<char>) -> Seq<char> {
    seq!['"'] + escape_seq(s) + seq!['"']
}

/// The comma-separated quoted items of a string array.
pub open spec fn str_array_items(ss: Seq<Seq<char>>) -> Seq<char>
    decreases ss.len(),
{
    if ss.len() == 0 {
        Seq::empty()
    } else if ss.len() == 1 {
        quoted(ss[0])
    } else {
        quoted(ss[0]) + ","@ + str_array_items(ss.drop_first())
    }
}

/// A string array as it stands in the document.
pub open spec fn str_array_doc(ss: Seq<Seq<char>>) -> Seq<char> {
    "["@ + str_array_items(ss) + "]"@
}

/// Appending an item to a string array extends its document form.
pub proof fn lemma_str_array_items_snoc(ss: Seq<Seq<char>>, v: Seq<char>)
    ensures
        str_array_items(ss.push(v)) == if ss.len() == 0 {
            quoted(v)
        } else {
            str_array_items(ss) + ","@ + quoted(v)
        },
    decreases ss.len(),
{
    if ss.len() == 0 {
        assert(ss.push(v)[0] == v);
        assert(ss.push(v).len() == 1);
    } else {
        assert(ss.push(v).drop_first() =~= ss.drop_first().push(v));
        lemma_str_array_items_snoc(ss.drop_first(), v);
        if ss.len() == 1 {
            assert(str_array_items(ss.push(v)) =~= str_array_items(ss) + ","@ + quoted(v));
        } else {
            assert(str_array_items(ss.push(v)) =~= str_array_items(ss) + ","@ + quoted(v));
        }
    }
}

/// The comma-separated key/value pairs of the technical-details object.
pub open spec fn details_items(dd: Seq<(Seq<char>, Seq<char>)>) -> Seq<char>
    decreases dd.len(),
{
    if dd.len() == 0 {
        Seq::empty()
    } else if dd.len() == 1 {
        quoted(dd[0].0) + ":"@ + quoted(dd[0].1)
    } else {
        quoted(dd[0].0) + ":"@ + quoted(dd[0].1) + ","@ + details_items(dd.drop_first())
    }
}

/// The technical-details object as it stands in the document.
pub open spec fn details_doc(dd: Seq<(Seq<char>, Seq<char>)>) -> Seq<char> {
    "{"@ + details_items(dd) + "}"@
}

/// Appending a pair to the details extends their document form.
pub proof fn lemma_details_items_snoc(dd: Seq<(Seq<char>, Seq<char>)>, kv: (Seq<char>, Seq<char>))
    ensures
        details_items(dd.push(kv)) == if dd.len() == 0 {
            quoted(kv.0) + ":"@ + quoted(kv.1)
        } else {
            details_items(dd) + ","@ + quoted(kv.0) + ":"@ + quoted(kv.1)
        },
    decreases dd.len(),
{
    if dd.len() == 0 {
        assert(dd.push(kv)[0] == kv);
        assert(dd.push(kv).len() == 1);
    } else {
        assert(dd.push(kv).drop_first() =~= dd.drop_first().push(kv));
        lemma_details_items_snoc(dd.drop_first(), kv);
        assert(details_items(dd.push(kv)) =~= details_items(dd) + ","@ + quoted(kv.0) + ":"@
            + quoted(kv.1));
    }
}

/// The views of a detail list's keys and values.
pub open spec fn pairs_deep(td: Seq<(String, String)>) -> Seq<(Seq<char>, Seq<char>)> {
    td.map_values(|p: (String, String)| (p.0@, p.1@))
}

/// One issue as it stands in the document.
pub open spec fn issue_doc(i: SecurityIssue) -> Seq<char> {
    "{\"id\":"@ + quoted(i.id@) + ",\"issue_type\":"@ + quoted(i.issue_type.as_str_spec())
        + ",\"title\":"@ + quoted(i.title@) + ",\"description\":"@ + quoted(i.description@)
        + ",\"severity\":"@ + quoted(i.severity.as_str_spec()) + ",\"status\":"@ + quoted(
        i.status.as_str_spec(),
    ) + ",\"affected_files\":"@ + str_array_doc(i.affected_files.deep_view())
        + ",\"mitigation_steps\":"@ + str_array_doc(i.mitigation_steps.deep_view())
        + ",\"technical_details\":"@ + details_doc(pairs_deep(i.technical_details@)) + "}"@
}

/// The comma-separated issues of the issue array.
pub open spec fn issues_items(s: Seq<SecurityIssue>) -> Seq<char>
    decreases s.len(),
{
    if s.len() == 0 {
        Seq::empty()
    } else if s.len() == 1 {
        issue_doc(s[0])
    } else {
        issue_doc(s[0]) + ","@ + issues_items(s.drop_first())
    }
}

/// The issue array as it stands in the document.
pub open spec fn issues_doc(s: Seq<SecurityIssue>) -> Seq<char> {
    "["@ + issues_items(s) + "]"@
}

/// Appending an issue extends the array's document form.
#[verifier::rlimit(50)]
pub proof fn lemma_issues_items_snoc(s: Seq<SecurityIssue>, i: SecurityIssue)
    ensures
        issues_items(s.push(i)) == if s.len() == 0 {
            issue_doc(i)
        } else {
            issues_items(s) + ","@ + issue_doc(i)
        },
    decreases s.len(),
{
    if s.len() == 0 {
        assert(s.push(i)[0] == i);
        assert(s.push(i).len() == 1);
    } else {
        assert(s.push(i).drop_first() =~= s.drop_first().push(i));
        lemma_issues_items_snoc(s.drop_first(), i);
        assert(issues_items(s.push(i)) =~= issues_items(s) + ","@ + issue_doc(i));
    }
}

/// The summary as it stands in the document.
pub open spec fn summary_doc(s: ReportSummary) -> Seq<char> {
    "{\"total_issues\":"@ + text::dec_digits(s.total_issues as nat) + ",\"critical_issues\":"@
        + text::dec_digits(s.critical_issues as nat) + ",\"high_issues\":"@ + text::dec_digits(
        s.high_issues as nat,
    ) + ",\"medium_issues\":"@ + text::dec_digits(s.medium_issues as nat) + ",\"low_issues\":"@
        + text::dec_digits(s.low_issues as nat) + ",\"resolved_issues\":"@ + text::dec_digits(
        s.resolved_issues as nat,
    ) + ",\"security_score\":"@ + text::dec_digits(s.security_score as nat) + "}"@
}

/// The system metadata as it stands in the document.
pub open spec fn system_doc(si: SystemInfo) -> Seq<char> {
    "{\"os\":"@ + quoted(si.os@) + ",\"hostname\":"@ + quoted(si.hostname@) + ",\"scan_scope\":"@
        + quoted(si.scan_scope@) + ",\"scanner_version\":"@ + quoted(si.scanner_version@) + "}"@
}

/// The whole report as it stands in the document.
pub open spec fn report_doc(r: SecurityReport) -> Seq<char> {
    "{\"id\":"@ + quoted(r.id@) + ",\"generated_at\":"@ + text::dec_digits(r.generated_at as nat)
        + ",\"scan_duration\":"@ + text::dec_digits(r.scan_duration as nat) + ",\"issues\":"@
        + issues_doc(r.issues@) + ",\"summary\":"@ + summary_doc(r.summary) + ",\"system_info\":"@
        + system_doc(r.system_info) + "}"@
}

/// A decimal digit.
pub open spec fn is_digit(c: char) -> bool {
    48 <= c as u32 <= 57
}

/// The value of a decimal digit.
pub open spec fn digit_val(c: char) -> int {
    c as u32 - 48
}

/// The character named by an escape code, if the code is valid.
pub open spec fn unescape_char(c: char) -> Option<char> {
    if c == '"' {
        Some('"')
    } else if c == '\\' {
        Some('\\')
    } else if c == 'n' {
        Some('\n')
    } else if c == 'r' {
        Some('\r')
    } else if c == 't' {
        Some('\t')
    } else {
        None
    }
}

/// Reads the literal `lit` at position `i`; the position after it.
pub open spec fn p_lit(s: Seq<char>, i: int, lit: Seq<char>) -> Option<int> {
    if 0 <= i && i + lit.len() <= s.len() && (forall|j: int|
        0 <= j < lit.len() ==> s[i + j] == lit[j]) {
        Some(i + lit.len())
    } else {
        None
    }
}

/// Reads an escaped string body up to and over its closing quote: the
/// unescaped content and the position after the quote.
pub open spec fn p_str_body(s: Seq<char>, i: int) -> Option<(Seq<char>, int)>
    decreases s.len() - i,
{
    if i < 0 || i >= s.len() {
        None
    } else if s[i] == '"' {
        Some((Seq::empty(), i + 1))
    } else if s[i] == '\\' {
        if i + 1 < s.len() {
            match unescape_char(s[i + 1]) {
                Some(c) => match p_str_body(s, i + 2) {
                    Some((t, j)) => Some((seq![c] + t, j)),
                    None => None,
                },
                None => None,
            }
        } else {
            None
        }
    } else {
        match p_str_body(s, i + 1) {
            Some((t, j)) => Some((seq![s[i]] + t, j)),
            None => None,
        }
    }
}

/// Reads a quoted string at position `i`.
pub open spec fn p_string(s: Seq<char>, i: int) -> Option<(Seq<char>, int)> {
    if 0 <= i < s.len() && s[i] == '"' {
        p_str_body(s, i + 1)
    } else {
        None
    }
}

/// A parsed string body ends strictly after where it began, within `s`.
pub proof fn lemma_p_str_body_advances(s: Seq<char>, i: int)
    ensures
        p_str_body(s, i) matches Some(r) ==> i < r.1 <= s.len(),
    decreases s.len() - i,
{
    if 0 <= i < s.len() && s[i] != '"' {
        if s[i] == '\\' {
            if i + 1 < s.len() {
                lemma_p_str_body_advances(s, i + 2);
            }
        } else {
            lemma_p_str_body_advances(s, i + 1);
        }
    }
}

/// Reads a run of digits into a value, rejecting values beyond `u64`.
pub open spec fn p_dec_loop(s: Seq<char>, i: int, acc: int) -> Option<(int, int)>
    decreases s.len() - i,
{
    if 0 <= i < s.len() && is_digit(s[i]) {
        let acc2 = acc * 10 + digit_val(s[i]);
        if acc2 > 0xffff_ffff_ffff_ffff {
            None
        } else {
            p_dec_loop(s, i + 1, acc2)
        }
    } else {
        Some((acc, i))
    }
}

/// Reads a non-empty decimal number at position `i`.
pub open spec fn p_dec(s: Seq<char>, i: int) -> Option<(int, int)> {
    if 0 <= i < s.len() && is_digit(s[i]) {
        p_dec_loop(s, i, 0)
    } else {
        None
    }
}

/// Reads a string array: `[` already positioned at `i`.
pub open spec fn p_str_array(s: Seq<char>, i: int) -> Option<(Seq<Seq<char>>, int)> {
    if 0 <= i < s.len() && s[i] == '[' {
        if i + 1 < s.len() && s[i + 1] == ']' {
            Some((Seq::empty(), i + 2))
        } else {
            p_str_array_items(s, i + 1)
        }
    } else {
        None
    }
}

/// Reads the comma-separated items of a non-empty string array, up to and
/// over the closing bracket. The cursor only moves forward; the explicit
/// comparison with `i` makes that evident to the termination check.
pub open spec fn p_str_array_items(s: Seq<char>, i: int) -> Option<(Seq<Seq<char>>, int)>
    decreases s.len() - i,
{
    match p_string(s, i) {
        Some((v, j)) => {
            if j < s.len() && s[j] == ']' {
                Some((seq![v], j + 1))
            } else if j < s.len() && s[j] == ',' && i < j + 1 {
                match p_str_array_items(s, j + 1) {
                    Some((vs, k)) => Some((seq![v] + vs, k)),
                    None => None,
                }
            } else {
                None
            }
        },
        None => None,
    }
}

/// Reads the technical-details object at position `i`.
pub open spec fn p_details(s: Seq<char>, i: int) -> Option<(Seq<(Seq<char>, Seq<char>)>, int)> {
    if 0 <= i < s.len() && s[i] == '{' {
        if i + 1 < s.len() && s[i + 1] == '}' {
            Some((Seq::empty(), i + 2))
        } else {
            p_details_items(s, i + 1)
        }
    } else {
        None
    }
}

/// Reads the comma-separated pairs of a non-empty details object, up to
/// and over the closing brace.
pub open spec fn p_details_items(s: Seq<char>, i: int) -> Option<(Seq<(Seq<char>, Seq<char>)>, int)>
    decreases s.len() - i,
{
    match p_string(s, i) {
        Some((k, j)) => {
            if j < s.len() && s[j] == ':' {
                match p_string(s, j + 1) {
                    Some((v, j2)) => {
                        if j2 < s.len() && s[j2] == '}' {
                            Some((seq![(k, v)], j2 + 1))
                        } else if j2 < s.len() && s[j2] == ',' && i < j2 + 1 {
                            match p_details_items(s, j2 + 1) {
                                Some((ps, j3)) => Some((seq![(k, v)] + ps, j3)),
                                None => None,
                            }
                        } else {
                            None
                        }
                    },
                    None => None,
                }
            } else {
                None
            }
        },
        None => None,
    }
}

/// The severity named by a document token.
pub open spec fn severity_of_token(t: Seq<char>) -> Option<ThreatLevel> {
    if t == "None"@ {
        Some(ThreatLevel::NoThreat)
    } else if t == "Low"@ {
        Some(ThreatLevel::Low)
    } else if t == "Medium"@ {
        Some(ThreatLevel::Medium)
    } else if t == "High"@ {
        Some(ThreatLevel::High)
    } else if t == "Critical"@ {
        Some(ThreatLevel::Critical)
    } else {
        None
    }
}

/// The status named by a document token.
pub open spec fn status_of_token(t: Seq<char>) -> Option<IssueStatus> {
    if t == "Active"@ {
        Some(IssueStatus::Active)
    } else if t == "Investigating"@ {
        Some(IssueStatus::Investigating)
    } else if t == "Mitigated"@ {
        Some(IssueStatus::Mitigated)
    } else if t == "Resolved"@ {
        Some(IssueStatus::Resolved)
    } else if t == "False Positive"@ {
        Some(IssueStatus::FalsePositive)
    } else {
        None
    }
}

/// The issue category named by a document token.
pub open spec fn issue_type_of_token(t: Seq<char>) -> Option<IssueType> {
    if t == "Malware"@ {
        Some(IssueType::Malware)
    } else if t == "Clipboard Hijack"@ {
        Some(IssueType::ClipboardHijack)
    } else if t == "Network Anomaly"@ {
        Some(IssueType::NetworkAnomaly)
    } else if t == "File Integrity"@ {
        Some(IssueType::FileIntegrity)
    } else if t == "System Vulnerability"@ {
        Some(IssueType::SystemVulnerability)
    } else if t == "Unauthorized Access"@ {
        Some(IssueType::UnauthorizedAccess)
    } else if t == "Suspicious Process"@ {
        Some(IssueType::SuspiciousProcess)
    } else if t == "Data Exfiltration"@ {
        Some(IssueType::DataExfiltration)
    } else {
        None
    }
}

/// The abstract content of one issue as read from a document.
pub struct DocIssue {
    pub id: Seq<char>,
    pub issue_type: IssueType,
    pub title: Seq<char>,
    pub description: Seq<char>,
    pub severity: ThreatLevel,
    pub status: IssueStatus,
    pub affected_files: Seq<Seq<char>>,
    pub mitigation_steps: Seq<Seq<char>>,
    pub technical_details: Seq<(Seq<char>, Seq<char>)>,
}

/// The abstract content of the system metadata as read from a document.
pub struct DocSystem {
    pub os: Seq<char>,
    pub hostname: Seq<char>,
    pub scan_scope: Seq<char>,
    pub scanner_version: Seq<char>,
}

/// The abstract content of a whole document.
pub struct DocReport {
    pub id: Seq<char>,
    pub generated_at: int,
    pub scan_duration: int,
    pub issues: Seq<DocIssue>,
    pub summary: ReportSummary,
    pub system_info: DocSystem,
}

/// The document content of an issue.
pub open spec fn doc_issue_of(i: SecurityIssue) -> DocIssue {
    DocIssue {
        id: i.id@,
        issue_type: i.issue_type,
        title: i.title@,
        description: i.description@,
        severity: i.severity,
        status: i.status,
        affected_files: i.affected_files.deep_view(),
        mitigation_steps: i.mitigation_steps.deep_view(),
        technical_details: pairs_deep(i.technical_details@),
    }
}

/// The document content of a report.
pub open spec fn doc_report_of(r: SecurityReport) -> DocReport {
    DocReport {
        id: r.id@,
        generated_at: r.generated_at as int,
        scan_duration: r.scan_duration as int,
        issues: r.issues@.map_values(|i: SecurityIssue| doc_issue_of(i)),
        summary: r.summary,
        system_info: DocSystem {
            os: r.system_info.os@,
            hostname: r.system_info.hostname@,
            scan_scope: r.system_info.scan_scope@,
            scanner_version: r.system_info.scanner_version@,
        },
    }
}

/// Reads one issue object at position `i`, rejecting unknown category,
/// severity or status tokens.
#[verifier::opaque]
pub open spec fn p_issue(s: Seq<char>, i: int) -> Option<(DocIssue, int)> {
    match p_lit(s, i, "{\"id\":"@) {
        Some(i1) => match p_string(s, i1) {
            Some((id, i2)) => match p_lit(s, i2, ",\"issue_type\":"@) {
                Some(i3) => match p_string(s, i3) {
                    Some((ty_tok, i4)) => match issue_type_of_token(ty_tok) {
                        Some(issue_type) => match p_lit(s, i4, ",\"title\":"@) {
                            Some(i5) => match p_string(s, i5) {
                                Some((title, i6)) => match p_lit(s, i6, ",\"description\":"@) {
                                    Some(i7) => match p_string(s, i7) {
                                        Some((description, i8)) => match p_lit(
                                            s,
                                            i8,
                                            ",\"severity\":"@,
                                        ) {
                                            Some(i9) => match p_string(s, i9) {
                                                Some((sev_tok, i10)) => match severity_of_token(
                                                    sev_tok,
                                                ) {
                                                    Some(severity) => match p_lit(
                                                        s,
                                                        i10,
                                                        ",\"status\":"@,
                                                    ) {
                                                        Some(i11) => match p_string(s, i11) {
                                                            Some((st_tok, i12)) => match
                                                                status_of_token(st_tok) {
                                                                Some(status) => p_issue_tail(
                                                                    s,
                                                                    i12,
                                                                    id,
                                                                    issue_type,
                                                                    title,
                                                                    description,
                                                                    severity,
                                                                    status,
                                                                ),
                                                                None => None,
                                                            },
                                                            None => None,
                                                        },
                                                        None => None,
                                                    },
                                                    None => None,
                                                },
                                                None => None,
                                            },
                                            None => None,
                                        },
                                        None => None,
                                    },
                                    None => None,
                                },
                                None => None,
                            },
                            None => None,
                        },
                        None => None,
                    },
                    None => None,
                },
                None => None,
            },
            None => None,
        },
        None => None,
    }
}

/// Reads the list-valued tail of an issue object: the two string arrays,
/// the details object, and the closing brace.
#[verifier::opaque]
pub open spec fn p_issue_tail(
    s: Seq<char>,
    i: int,
    id: Seq<char>,
    issue_type: IssueType,
    title: Seq<char>,
    description: Seq<char>,
    severity: ThreatLevel,
    status: IssueStatus,
) -> Option<(DocIssue, int)> {
    match p_lit(s, i, ",\"affected_files\":"@) {
        Some(i1) => match p_str_array(s, i1) {
            Some((affected_files, i2)) => match p_lit(s, i2, ",\"mitigation_steps\":"@) {
                Some(i3) => match p_str_array(s, i3) {
                    Some((mitigation_steps, i4)) => match p_lit(s, i4, ",\"technical_details\":"@) {
                        Some(i5) => match p_details(s, i5) {
                            Some((technical_details, i6)) => match p_lit(s, i6, "}"@) {
                                Some(i7) => Some(
                                    (
                                        DocIssue {
                                            id,
                                            issue_type,
                                            title,
                                            description,
                                            severity,
                                            status,
                                            affected_files,
                                            mitigation_steps,
                                            technical_details,
                                        },
                                        i7,
                                    ),
                                ),
                                None => None,
                            },
                            None => None,
                        },
                        None => None,
                    },
                    None => None,
                },
                None => None,
            },
            None => None,
        },
        None => None,
    }
}

/// Reads the issue array at position `i`.
pub open spec fn p_issues(s: Seq<char>, i: int) -> Option<(Seq<DocIssue>, int)> {
    if 0 <= i < s.len() && s[i] == '[' {
        if i + 1 < s.len() && s[i + 1] == ']' {
            Some((Seq::empty(), i + 2))
        } else {
            p_issues_items(s, i + 1)
        }
    } else {
        None
    }
}

/// Reads the comma-separated issues of a non-empty issue array, up to and
/// over the closing bracket.
pub open spec fn p_issues_items(s: Seq<char>, i: int) -> Option<(Seq<DocIssue>, int)>
    decreases s.len() - i,
{
    match p_issue(s, i) {
        Some((v, j)) => {
            if j < s.len() && s[j] == ']' {
                Some((seq![v], j + 1))
            } else if j < s.len() && s[j] == ',' && i < j + 1 {
                match p_issues_items(s, j + 1) {
                    Some((vs, k)) => Some((seq![v] + vs, k)),
                    None => None,
                }
            } else {
                None
            }
        },
        None => None,
    }
}

/// Reads the summary object at position `i`, rejecting counts that do not
/// fit the summary's fields.
#[verifier::opaque]
pub open spec fn p_summary(s: Seq<char>, i: int) -> Option<(ReportSummary, int)> {
    match p_lit(s, i, "{\"total_issues\":"@) {
        Some(i1) => match p_dec(s, i1) {
            Some((total, i2)) => match p_lit(s, i2, ",\"critical_issues\":"@) {
                Some(i3) => match p_dec(s, i3) {
                    Some((critical, i4)) => match p_lit(s, i4, ",\"high_issues\":"@) {
                        Some(i5) => match p_dec(s, i5) {
                            Some((high, i6)) => match p_lit(s, i6, ",\"medium_issues\":"@) {
                                Some(i7) => match p_dec(s, i7) {
                                    Some((medium, i8)) => match p_lit(s, i8, ",\"low_issues\":"@) {
                                        Some(i9) => match p_dec(s, i9) {
                                            Some((low, i10)) => match p_lit(
                                                s,
                                                i10,
                                                ",\"resolved_issues\":"@,
                                            ) {
                                                Some(i11) => match p_dec(s, i11) {
                                                    Some((resolved, i12)) => match p_lit(
                                                        s,
                                                        i12,
                                                        ",\"security_score\":"@,
                                                    ) {
                                                        Some(i13) => match p_dec(s, i13) {
                                                            Some((score, i14)) => match p_lit(
                                                                s,
                                                                i14,
                                                                "}"@,
                                                            ) {
                                                                Some(i15) => if total
                                                                    <= usize::MAX && critical
                                                                    <= usize::MAX && high
                                                                    <= usize::MAX && medium
                                                                    <= usize::MAX && low
                                                                    <= usize::MAX && resolved
                                                                    <= usize::MAX && score
                                                                    <= u32::MAX {
                                                                    Some(
                                                                        (
                                                                            ReportSummary {
                                                                                total_issues: total as usize,
                                                                                critical_issues: critical as usize,
                                                                                high_issues: high as usize,
                                                                                medium_issues: medium as usize,
                                                                                low_issues: low as usize,
                                                                                resolved_issues: resolved as usize,
                                                                                security_score: score as u32,
                                                                            },
                                                                            i15,
                                                                        ),
                                                                    )
                                                                } else {
                                                                    None
                                                                },
                                                                None => None,
                                                            },
                                                            None => None,
                                                        },
                                                        None => None,
                                                    },
                                                    None => None,
                                                },
                                                None => None,
                                            },
                                            None => None,
                                        },
                                        None => None,
                                    },
                                    None => None,
                                },
                                None => None,
                            },
                            None => None,
                        },
                        None => None,
                    },
                    None => None,
                },
                None => None,
            },
            None => None,
        },
        None => None,
    }
}

/// Reads the system-metadata object at position `i`.
#[verifier::opaque]
pub open spec fn p_system(s: Seq<char>, i: int) -> Option<(DocSystem, int)> {
    match p_lit(s, i, "{\"os\":"@) {
        Some(i1) => match p_string(s, i1) {
            Some((os, i2)) => match p_lit(s, i2, ",\"hostname\":"@) {
                Some(i3) => match p_string(s, i3) {
                    Some((hostname, i4)) => match p_lit(s, i4, ",\"scan_scope\":"@) {
                        Some(i5) => match p_string(s, i5) {
                            Some((scan_scope, i6)) => match p_lit(s, i6, ",\"scanner_version\":"@) {
                                Some(i7) => match p_string(s, i7) {
                                    Some((scanner_version, i8)) => match p_lit(s, i8, "}"@) {
                                        Some(i9) => Some(
                                            (
                                                DocSystem {
                                                    os,
                                                    hostname,
                                                    scan_scope,
                                                    scanner_version,
                                                },
                                                i9,
                                            ),
                                        ),
                                        None => None,
                                    },
                                    None => None,
                                },
                                None => None,
                            },
                            None => None,
                        },
                        None => None,
                    },
                    None => None,
                },
                None => None,
            },
            None => None,
        },
        None => None,
    }
}

/// Reads a whole document, requiring that it is consumed exactly.
pub open spec fn p_report(s: Seq<char>) -> Option<DocReport> {
    match p_lit(s, 0, "{\"id\":"@) {
        Some(i1) => match p_string(s, i1) {
            Some((id, i2)) => match p_lit(s, i2, ",\"generated_at\":"@) {
                Some(i3) => match p_dec(s, i3) {
                    Some((generated_at, i4)) => match p_lit(s, i4, ",\"scan_duration\":"@) {
                        Some(i5) => match p_dec(s, i5) {
                            Some((scan_duration, i6)) => match p_lit(s, i6, ",\"issues\":"@) {
                                Some(i7) => match p_issues(s, i7) {
                                    Some((issues, i8)) => match p_lit(s, i8, ",\"summary\":"@) {
                                        Some(i9) => match p_summary(s, i9) {
                                            Some((summary, i10)) => match p_lit(
                                                s,
                                                i10,
                                                ",\"system_info\":"@,
                                            ) {
                                                Some(i11) => match p_system(s, i11) {
                                                    Some((system_info, i12)) => match p_lit(
                                                        s,
                                                        i12,
                                                        "}"@,
                                                    ) {
                                                        Some(i13) => if i13 == s.len() {
                                                            Some(
                                                                DocReport {
                                                                    id,
                                                                    generated_at,
                                                                    scan_duration,
                                                                    issues,
                                                                    summary,
                                                                    system_info,
                                                                },
                                                            )
                                                        } else {
                                                            None
                                                        },
                                                        None => None,
                                                    },
                                                    None => None,
                                                },
                                                None => None,
                                            },
                                            None => None,
                                        },
                                        None => None,
                                    },
                                    None => None,
                                },
                                None => None,
                            },
                            None => None,
                        },
                        None => None,
                    },
                    None => None,
                },
                None => None,
            },
            None => None,
        },
        None => None,
    }
}

/// Prepends a prefix to the content of a string-body parse result.
pub open spec fn prepend_str(prefix: Seq<char>, r: Option<(Seq<char>, int)>) -> Option<
    (Seq<char>, int),
> {
    match r {
        Some((t, j)) => Some((prefix + t, j)),
        None => None,
    }
}

/// Prepends a prefix to the content of an array-items parse result.
pub open spec fn prepend_strs(prefix: Seq<Seq<char>>, r: Option<(Seq<Seq<char>>, int)>) -> Option<
    (Seq<Seq<char>>, int),
> {
    match r {
        Some((t, j)) => Some((prefix + t, j)),
        None => None,
    }
}

/// Prepends a prefix to the content of a details-items parse result.
pub open spec fn prepend_pairs(
    prefix: Seq<(Seq<char>, Seq<char>)>,
    r: Option<(Seq<(Seq<char>, Seq<char>)>, int)>,
) -> Option<(Seq<(Seq<char>, Seq<char>)>, int)> {
    match r {
        Some((t, j)) => Some((prefix + t, j)),
        None => None,
    }
}

/// Prepends a prefix to the content of an issues-items parse result.
pub open spec fn prepend_issues(prefix: Seq<DocIssue>, r: Option<(Seq<DocIssue>, int)>) -> Option<
    (Seq<DocIssue>, int),
> {
    match r {
        Some((t, j)) => Some((prefix + t, j)),
        None => None,
    }
}

/// Reads the literal `lit` at position `i` of `s`.
fn parse_lit(s: &str, i: usize, lit: &str) -> (r: Option<usize>)
    ensures
        match r {
            Some(j) => p_lit(s@, i as int, lit@) == Some(j as int) && i <= j <= s@.len(),
            None => p_lit(s@, i as int, lit@) is None,
        },
{
    let n: usize = s.unicode_len();
    let m: usize = lit.unicode_len();
    if i > n || m > n - i {
        return None;
    }
    let mut j: usize = 0;
    while j < m
        invariant
            n == s@.len(),
            m == lit@.len(),
            i + m <= n,
            j <= m,
            forall|k: int| 0 <= k < j ==> s@[i + k] == lit@[k],
        decreases m - j,
    {
        if s.get_char(i + j) != lit.get_char(j) {
            return None;
        }
        j = j + 1;
    }
    Some(i + m)
}

/// Reads a quoted, escaped string at position `i` of `s`.
fn parse_string(s: &str, i: usize) -> (r: Option<(String, usize)>)
    ensures
        match r {
            Some(v) => p_string(s@, i as int) == Some((v.0@, v.1 as int)) && i < v.1 <= s@.len(),
            None => p_string(s@, i as int) is None,
        },
{
    let n: usize = s.unicode_len();
    if !(i < n && s.get_char(i) == '"') {
        return None;
    }
    let mut out = String::new();
    let mut cur: usize = i + 1;
    loop
        invariant
            n == s@.len(),
            i + 1 <= cur <= n,
            s@[i as int] == '"',
            p_str_body(s@, i + 1) == prepend_str(out@, p_str_body(s@, cur as int)),
        decreases n - cur,
    {
        if cur >= n {
            proof {
                lemma_p_str_body_advances(s@, i + 1);
            }
            return None;
        }
        let c = s.get_char(cur);
        if c == '"' {
            proof {
                assert(p_str_body(s@, cur as int) == Some(
                    (Seq::<char>::empty(), cur + 1 as int),
                ));
                assert(out@ + Seq::<char>::empty() =~= out@);
            }
            return Some((out, cur + 1));
        } else if c == '\\' {
            if cur + 1 >= n {
                return None;
            }
            let code = s.get_char(cur + 1);
            let unescaped: Option<char> = if code == '"' {
                Some('"')
            } else if code == '\\' {
                Some('\\')
            } else if code == 'n' {
                Some('\n')
            } else if code == 'r' {
                Some('\r')
            } else if code == 't' {
                Some('\t')
            } else {
                None
            };
            match unescaped {
                Some(u) => {
                    let ghost old_out = out@;
                    text::push_char(&mut out, u);
                    proof {
                        assert(p_str_body(s@, cur as int) == prepend_str(
                            seq![u],
                            p_str_body(s@, cur + 2),
                        ));
                        assert(old_out + seq![u] =~= out@);
                        assert forall|t: Seq<char>, j: int|
                            p_str_body(s@, cur + 2) == Some((t, j)) implies old_out + (seq![u] + t)
                            == out@ + t by {
                            assert(old_out + (seq![u] + t) =~= out@ + t);
                        }
                        lemma_p_str_body_advances(s@, cur + 2);
                    }
                    cur = cur + 2;
                },
                None => {
                    return None;
                },
            }
        } else {
            let ghost old_out = out@;
            text::push_char(&mut out, c);
            proof {
                assert(p_str_body(s@, cur as int) == prepend_str(
                    seq![c],
                    p_str_body(s@, cur + 1),
                ));
                assert(old_out + seq![c] =~= out@);
                assert forall|t: Seq<char>, j: int|
                    p_str_body(s@, cur + 1) == Some((t, j)) implies old_out + (seq![c] + t) == out@
                    + t by {
                    assert(old_out + (seq![c] + t) =~= out@ + t);
                }
                lemma_p_str_body_advances(s@, cur + 1);
            }
            cur = cur + 1;
        }
    }
}

/// Reads a non-empty decimal number at position `i` of `s`.
fn parse_dec(s: &str, i: usize) -> (r: Option<(u64, usize)>)
    ensures
        match r {
            Some(v) => p_dec(s@, i as int) == Some((v.0 as int, v.1 as int)) && i < v.1 <= s@.len(),
            None => p_dec(s@, i as int) is None,
        },
{
    let n: usize = s.unicode_len();
    if i >= n {
        return None;
    }
    let c0 = s.get_char(i);
    let u0: u32 = c0 as u32;
    if !(48 <= u0 && u0 <= 57) {
        return None;
    }
    let mut acc: u64 = 0;
    let mut cur: usize = i;
    loop
        invariant
            n == s@.len(),
            i < n,
            i <= cur <= n,
            cur > i || acc == 0,
            is_digit(s@[i as int]),
            p_dec_loop(s@, i as int, 0) == p_dec_loop(s@, cur as int, acc as int),
        decreases n - cur,
    {
        if cur >= n {
            return Some((acc, cur));
        }
        let c = s.get_char(cur);
        let u: u32 = c as u32;
        if !(48 <= u && u <= 57) {
            return Some((acc, cur));
        }
        let d: u64 = ((u - 48) as u64);
        if acc > (0xffff_ffff_ffff_ffffu64 - d) / 10 {
            proof {
                assert((acc as int) * 10 + (d as int) > 0xffff_ffff_ffff_ffff) by (nonlinear_arith)
                    requires
                        acc as int > (0xffff_ffff_ffff_ffff - d as int) / 10,
                        0 <= d as int <= 9,
                        acc as int >= 0,
                ;
            }
            return None;
        }
        proof {
            assert((acc as int) * 10 + (d as int) <= 0xffff_ffff_ffff_ffff) by (nonlinear_arith)
                requires
                    acc as int <= (0xffff_ffff_ffff_ffff - d as int) / 10,
                    0 <= d as int <= 9,
                    acc as int >= 0,
            ;
        }
        acc = acc * 10 + d;
        cur = cur + 1;
    }
}

/// Reads a string array at position `i` of `s`.
fn parse_str_array(s: &str, i: usize) -> (r: Option<(Vec<String>, usize)>)
    ensures
        match r {
            Some(v) => p_str_array(s@, i as int) == Some((v.0.deep_view(), v.1 as int)) && i < v.1
                <= s@.len(),
            None => p_str_array(s@, i as int) is None,
        },
{
    let n: usize = s.unicode_len();
    if !(i < n && s.get_char(i) == '[') {
        return None;
    }
    if i + 1 < n && s.get_char(i + 1) == ']' {
        let empty_vec: Vec<String> = Vec::new();
        proof {
            assert(empty_vec.deep_view() =~= Seq::<Seq<char>>::empty());
        }
        return Some((empty_vec, i + 2));
    }
    let mut acc: Vec<String> = Vec::new();
    let mut cur: usize = i + 1;
    loop
        invariant
            n == s@.len(),
            i + 1 <= cur <= n,
            s@[i as int] == '[',
            !(i + 1 < s@.len() && s@[i + 1] == ']'),
            p_str_array_items(s@, i + 1) == prepend_strs(
                acc.deep_view(),
                p_str_array_items(s@, cur as int),
            ),
        decreases n - cur,
    {
        let item = parse_string(s, cur);
        match item {
            Some((v, j)) => {
                if j < n && s.get_char(j) == ']' {
                    let ghost old_acc = acc.deep_view();
                    let ghost vv = v@;
                    acc.push(v);
                    proof {
                        assert(p_str_array_items(s@, cur as int) == Some(
                            (seq![vv], j + 1 as int),
                        ));
                        assert(old_acc + seq![vv] =~= acc.deep_view());
                    }
                    return Some((acc, j + 1));
                } else if j < n && s.get_char(j) == ',' {
                    let ghost old_acc = acc.deep_view();
                    let ghost vv = v@;
                    acc.push(v);
                    proof {
                        assert(p_str_array_items(s@, cur as int) == prepend_strs(
                            seq![vv],
                            p_str_array_items(s@, j + 1),
                        ));
                        assert(old_acc + seq![vv] =~= acc.deep_view());
                        assert forall|t: Seq<Seq<char>>, k: int|
                            p_str_array_items(s@, j + 1) == Some((t, k)) implies old_acc + (
                        seq![vv] + t) == acc.deep_view() + t by {
                            assert(old_acc + (seq![vv] + t) =~= acc.deep_view() + t);
                        }
                    }
                    cur = j + 1;
                } else {
                    return None;
                }
            },
            None => {
                return None;
            },
        }
    }
}

/// Reads a technical-details object at position `i` of `s`.
fn parse_details(s: &str, i: usize) -> (r: Option<(Vec<(String, String)>, usize)>)
    ensures
        match r {
            Some(v) => p_details(s@, i as int) == Some((pairs_deep(v.0@), v.1 as int)) && i < v.1
                <= s@.len(),
            None => p_details(s@, i as int) is None,
        },
{
    let n: usize = s.unicode_len();
    if !(i < n && s.get_char(i) == '{') {
        return None;
    }
    if i + 1 < n && s.get_char(i + 1) == '}' {
        let empty_vec: Vec<(String, String)> = Vec::new();
        proof {
            assert(pairs_deep(empty_vec@) =~= Seq::<(Seq<char>, Seq<char>)>::empty());
        }
        return Some((empty_vec, i + 2));
    }
    let mut acc: Vec<(String, String)> = Vec::new();
    let mut cur: usize = i + 1;
    loop
        invariant
            n == s@.len(),
            i + 1 <= cur <= n,
            s@[i as int] == '{',
            !(i + 1 < s@.len() && s@[i + 1] == '}'),
            p_details_items(s@, i + 1) == prepend_pairs(
                pairs_deep(acc@),
                p_details_items(s@, cur as int),
            ),
        decreases n - cur,
    {
        let key = parse_string(s, cur);
        match key {
            Some((k, j)) => {
                if !(j < n && s.get_char(j) == ':') {
                    return None;
                }
                let value = parse_string(s, j + 1);
                match value {
                    Some((v, j2)) => {
                        if j2 < n && s.get_char(j2) == '}' {
                            let ghost old_acc = pairs_deep(acc@);
                            let ghost kv = (k@, v@);
                            acc.push((k, v));
                            proof {
                                assert(p_details_items(s@, cur as int) == Some(
                                    (seq![kv], j2 + 1 as int),
                                ));
                                assert(old_acc + seq![kv] =~= pairs_deep(acc@));
                            }
                            return Some((acc, j2 + 1));
                        } else if j2 < n && s.get_char(j2) == ',' {
                            let ghost old_acc = pairs_deep(acc@);
                            let ghost kv = (k@, v@);
                            acc.push((k, v));
                            proof {
                                assert(p_details_items(s@, cur as int) == prepend_pairs(
                                    seq![kv],
                                    p_details_items(s@, j2 + 1),
                                ));
                                assert(old_acc + seq![kv] =~= pairs_deep(acc@));
                                assert forall|t: Seq<(Seq<char>, Seq<char>)>, k2: int|
                                    p_details_items(s@, j2 + 1) == Some((t, k2)) implies old_acc + (
                                seq![kv] + t) == pairs_deep(acc@) + t by {
                                    assert(old_acc + (seq![kv] + t) =~= pairs_deep(acc@) + t);
                                }
                            }
                            cur = j2 + 1;
                        } else {
                            return None;
                        }
                    },
                    None => {
                        return None;
                    },
                }
            },
            None => {
                return None;
            },
        }
    }
}

/// One issue as read back from a document.
#[derive(Debug, Clone)]
pub struct ParsedIssue {
    pub id: String,
    pub issue_type: IssueType,
    pub title: String,
    pub description: String,
    pub severity: ThreatLevel,
    pub status: IssueStatus,
    pub affected_files: Vec<String>,
    pub mitigation_steps: Vec<String>,
    pub technical_details: Vec<(String, String)>,
}

/// A whole report as read back from a document.
#[derive(Debug)]
pub struct ParsedReport {
    pub id: String,
    pub generated_at: u64,
    pub scan_duration: u64,
    pub issues: Vec<ParsedIssue>,
    pub summary: ReportSummary,
    pub system_info: SystemInfo,
}

/// The abstract content of a parsed issue.
pub open spec fn doc_of_parsed(p: ParsedIssue) -> DocIssue {
    DocIssue {
        id: p.id@,
        issue_type: p.issue_type,
        title: p.title@,
        description: p.description@,
        severity: p.severity,
        status: p.status,
        affected_files: p.affected_files.deep_view(),
        mitigation_steps: p.mitigation_steps.deep_view(),
        technical_details: pairs_deep(p.technical_details@),
    }
}

/// The abstract content of a parsed report.
pub open spec fn doc_of_parsed_report(p: ParsedReport) -> DocReport {
    DocReport {
        id: p.id@,
        generated_at: p.generated_at as int,
        scan_duration: p.scan_duration as int,
        issues: p.issues@.map_values(|i: ParsedIssue| doc_of_parsed(i)),
        summary: p.summary,
        system_info: DocSystem {
            os: p.system_info.os@,
            hostname: p.system_info.hostname@,
            scan_scope: p.system_info.scan_scope@,
            scanner_version: p.system_info.scanner_version@,
        },
    }
}

/// Maps a severity token to its level.
fn severity_from_token(t: &str) -> (r: Option<ThreatLevel>)
    ensures
        r == severity_of_token(t@),
{
    if text::str_eq(t, "None") {
        Some(ThreatLevel::NoThreat)
    } else if text::str_eq(t, "Low") {
        Some(ThreatLevel::Low)
    } else if text::str_eq(t, "Medium") {
        Some(ThreatLevel::Medium)
    } else if text::str_eq(t, "High") {
        Some(ThreatLevel::High)
    } else if text::str_eq(t, "Critical") {
        Some(ThreatLevel::Critical)
    } else {
        None
    }
}

/// Maps a status token to its status.
fn status_from_token(t: &str) -> (r: Option<IssueStatus>)
    ensures
        r == status_of_token(t@),
{
    if text::str_eq(t, "Active") {
        Some(IssueStatus::Active)
    } else if text::str_eq(t, "Investigating") {
        Some(IssueStatus::Investigating)
    } else if text::str_eq(t, "Mitigated") {
        Some(IssueStatus::Mitigated)
    } else if text::str_eq(t, "Resolved") {
        Some(IssueStatus::Resolved)
    } else if text::str_eq(t, "False Positive") {
        Some(IssueStatus::FalsePositive)
    } else {
        None
    }
}

/// Maps an issue-type token to its category.
fn issue_type_from_token(t: &str) -> (r: Option<IssueType>)
    ensures
        r == issue_type_of_token(t@),
{
    if text::str_eq(t, "Malware") {
        Some(IssueType::Malware)
    } else if text::str_eq(t, "Clipboard Hijack") {
        Some(IssueType::ClipboardHijack)
    } else if text::str_eq(t, "Network Anomaly") {
        Some(IssueType::NetworkAnomaly)
    } else if text::str_eq(t, "File Integrity") {
        Some(IssueType::FileIntegrity)
    } else if text::str_eq(t, "System Vulnerability") {
        Some(IssueType::SystemVulnerability)
    } else if text::str_eq(t, "Unauthorized Access") {
        Some(IssueType::UnauthorizedAccess)
    } else if text::str_eq(t, "Suspicious Process") {
        Some(IssueType::SuspiciousProcess)
    } else if text::str_eq(t, "Data Exfiltration") {
        Some(IssueType::DataExfiltration)
    } else {
        None
    }
}

/// Reads one issue object at position `i` of `s`.
#[verifier::rlimit(60)]
fn parse_issue(s: &str, i: usize) -> (r: Option<(ParsedIssue, usize)>)
    ensures
        match r {
            Some(v) => p_issue(s@, i as int) == Some((doc_of_parsed(v.0), v.1 as int)) && i < v.1
                <= s@.len(),
            None => p_issue(s@, i as int) is None,
        },
{
    proof {
        reveal(p_issue);
        reveal(p_issue_tail);
    }
    let i1 = match parse_lit(s, i, "{\"id\":") {
        Some(j) => j,
        None => {
            return None;
        },
    };
    let (id, i2) = match parse_string(s, i1) {
        Some(v) => v,
        None => {
            return None;
        },
    };
    let i3 = match parse_lit(s, i2, ",\"issue_type\":") {
        Some(j) => j,
        None => {
            return None;
        },
    };
    let (ty_tok, i4) = match parse_string(s, i3) {
        Some(v) => v,
        None => {
            return None;
        },
    };
    let issue_type = match issue_type_from_token(ty_tok.as_str()) {
        Some(t) => t,
        None => {
            return None;
        },
    };
    let i5 = match parse_lit(s, i4, ",\"title\":") {
        Some(j) => j,
        None => {
            return None;
        },
    };
    let (title, i6) = match parse_string(s, i5) {
        Some(v) => v,
        None => {
            return None;
        },
    };
    let i7 = match parse_lit(s, i6, ",\"description\":") {
        Some(j) => j,
        None => {
            return None;
        },
    };
    let (description, i8) = match parse_string(s, i7) {
        Some(v) => v,
        None => {
            return None;
        },
    };
    let i9 = match parse_lit(s, i8, ",\"severity\":") {
        Some(j) => j,
        None => {
            return None;
        },
    };
    let (sev_tok, i10) = match parse_string(s, i9) {
        Some(v) => v,
        None => {
            return None;
        },
    };
    let severity = match severity_from_token(sev_tok.as_str()) {
        Some(t) => t,
        None => {
            return None;
        },
    };
    let i11 = match parse_lit(s, i10, ",\"status\":") {
        Some(j) => j,
        None => {
            return None;
        },
    };
    let (st_tok, i12) = match parse_string(s, i11) {
        Some(v) => v,
        None => {
            return None;
        },
    };
    let status = match status_from_token(st_tok.as_str()) {
        Some(t) => t,
        None => {
            return None;
        },
    };
    let i13 = match parse_lit(s, i12, ",\"affected_files\":") {
        Some(j) => j,
        None => {
            return None;
        },
    };
    let (affected_files, i14) = match parse_str_array(s, i13) {
        Some(v) => v,
        None => {
            return None;
        },
    };
    let i15 = match parse_lit(s, i14, ",\"mitigation_steps\":") {
        Some(j) => j,
        None => {
            return None;
        },
    };
    let (mitigation_steps, i16) = match parse_str_array(s, i15) {
        Some(v) => v,
        None => {
            return None;
        },
    };
    let i17 = match parse_lit(s, i16, ",\"technical_details\":") {
        Some(j) => j,
        None => {
            return None;
        },
    };
    let (technical_details, i18) = match parse_details(s, i17) {
        Some(v) => v,
        None => {
            return None;
        },
    };
    let i19 = match parse_lit(s, i18, "}") {
        Some(j) => j,
        None => {
            return None;
        },
    };
    Some(
        (
            ParsedIssue {
                id,
                issue_type,
                title,
                description,
                severity,
                status,
                affected_files,
                mitigation_steps,
                technical_details,
            },
            i19,
        ),
    )
}

/// Reads the issue array at position `i` of `s`.
fn parse_issues(s: &str, i: usize) -> (r: Option<(Vec<ParsedIssue>, usize)>)
    ensures
        match r {
            Some(v) => p_issues(s@, i as int) == Some(
                (v.0@.map_values(|p: ParsedIssue| doc_of_parsed(p)), v.1 as int),
            ) && i < v.1 <= s@.len(),
            None => p_issues(s@, i as int) is None,
        },
{
    let n: usize = s.unicode_len();
    if !(i < n && s.get_char(i) == '[') {
        return None;
    }
    if i + 1 < n && s.get_char(i + 1) == ']' {
        let empty_vec: Vec<ParsedIssue> = Vec::new();
        proof {
            assert(empty_vec@.map_values(|p: ParsedIssue| doc_of_parsed(p)) =~= Seq::<
                DocIssue,
            >::empty());
        }
        return Some((empty_vec, i + 2));
    }
    let mut acc: Vec<ParsedIssue> = Vec::new();
    let mut cur: usize = i + 1;
    loop
        invariant
            n == s@.len(),
            i + 1 <= cur <= n,
            s@[i as int] == '[',
            !(i + 1 < s@.len() && s@[i + 1] == ']'),
            p_issues_items(s@, i + 1) == prepend_issues(
                acc@.map_values(|p: ParsedIssue| doc_of_parsed(p)),
                p_issues_items(s@, cur as int),
            ),
        decreases n - cur,
    {
        let item = parse_issue(s, cur);
        match item {
            Some((v, j)) => {
                if j < n && s.get_char(j) == ']' {
                    let ghost old_acc = acc@.map_values(|p: ParsedIssue| doc_of_parsed(p));
                    let ghost vv = doc_of_parsed(v);
                    acc.push(v);
                    proof {
                        assert(p_issues_items(s@, cur as int) == Some((seq![vv], j + 1 as int)));
                        assert(old_acc + seq![vv] =~= acc@.map_values(
                            |p: ParsedIssue| doc_of_parsed(p),
                        ));
                    }
                    return Some((acc, j + 1));
                } else if j < n && s.get_char(j) == ',' {
                    let ghost old_acc = acc@.map_values(|p: ParsedIssue| doc_of_parsed(p));
                    let ghost vv = doc_of_parsed(v);
                    acc.push(v);
                    proof {
                        assert(p_issues_items(s@, cur as int) == prepend_issues(
                            seq![vv],
                            p_issues_items(s@, j + 1),
                        ));
                        assert(old_acc + seq![vv] =~= acc@.map_values(
                            |p: ParsedIssue| doc_of_parsed(p),
                        ));
                        assert forall|t: Seq<DocIssue>, k: int|
                            p_issues_items(s@, j + 1) == Some((t, k)) implies old_acc + (seq![vv]
                            + t) == acc@.map_values(|p: ParsedIssue| doc_of_parsed(p)) + t by {
                            assert(old_acc + (seq![vv] + t) =~= acc@.map_values(
                                |p: ParsedIssue| doc_of_parsed(p),
                            ) + t);
                        }
                    }
                    cur = j + 1;
                } else {
                    return None;
                }
            },
            None => {
                return None;
            },
        }
    }
}

/// Reads the summary object at position `i` of `s`.
#[verifier::rlimit(60)]
fn parse_summary(s: &str, i: usize) -> (r: Option<(ReportSummary, usize)>)
    ensures
        match r {
            Some(v) => p_summary(s@, i as int) == Some((v.0, v.1 as int)) && i < v.1 <= s@.len(),
            None => p_summary(s@, i as int) is None,
        },
{
    proof {
        reveal(p_summary);
    }
    let i1 = match parse_lit(s, i, "{\"total_issues\":") {
        Some(j) => j,
        None => {
            return None;
        },
    };
    let (total, i2) = match parse_dec(s, i1) {
        Some(v) => v,
        None => {
            return None;
        },
    };
    let i3 = match parse_lit(s, i2, ",\"critical_issues\":") {
        Some(j) => j,
        None => {
            return None;
        },
    };
    let (critical, i4) = match parse_dec(s, i3) {
        Some(v) => v,
        None => {
            return None;
        },
    };
    let i5 = match parse_lit(s, i4, ",\"high_issues\":") {
        Some(j) => j,
        None => {
            return None;
        },
    };
    let (high, i6) = match parse_dec(s, i5) {
        Some(v) => v,
        None => {
            return None;
        },
    };
    let i7 = match parse_lit(s, i6, ",\"medium_issues\":") {
        Some(j) => j,
        None => {
            return None;
        },
    };
    let (medium, i8) = match parse_dec(s, i7) {
        Some(v) => v,
        None => {
            return None;
        },
    };
    let i9 = match parse_lit(s, i8, ",\"low_issues\":") {
        Some(j) => j,
        None => {
            return None;
        },
    };
    let (low, i10) = match parse_dec(s, i9) {
        Some(v) => v,
        None => {
            return None;
        },
    };
    let i11 = match parse_lit(s, i10, ",\"resolved_issues\":") {
        Some(j) => j,
        None => {
            return None;
        },
    };
    let (resolved, i12) = match parse_dec(s, i11) {
        Some(v) => v,
        None => {
            return None;
        },
    };
    let i13 = match parse_lit(s, i12, ",\"security_score\":") {
        Some(j) => j,
        None => {
            return None;
        },
    };
    let (score, i14) = match parse_dec(s, i13) {
        Some(v) => v,
        None => {
            return None;
        },
    };
    let i15 = match parse_lit(s, i14, "}") {
        Some(j) => j,
        None => {
            return None;
        },
    };
    if total <= (usize::MAX as u64) && critical <= (usize::MAX as u64) && high <= (usize::MAX
        as u64) && medium <= (usize::MAX as u64) && low <= (usize::MAX as u64) && resolved
        <= (usize::MAX as u64) && score <= (u32::MAX as u64) {
        Some(
            (
                ReportSummary {
                    total_issues: total as usize,
                    critical_issues: critical as usize,
                    high_issues: high as usize,
                    medium_issues: medium as usize,
                    low_issues: low as usize,
                    resolved_issues: resolved as usize,
                    security_score: score as u32,
                },
                i15,
            ),
        )
    } else {
        None
    }
}

/// Reads the system-metadata object at position `i` of `s`.
fn parse_system(s: &str, i: usize) -> (r: Option<(SystemInfo, usize)>)
    ensures
        match r {
            Some(v) => p_system(s@, i as int) == Some(
                (
                    DocSystem {
                        os: v.0.os@,
                        hostname: v.0.hostname@,
                        scan_scope: v.0.scan_scope@,
                        scanner_version: v.0.scanner_version@,
                    },
                    v.1 as int,
                ),
            ) && i < v.1 <= s@.len(),
            None => p_system(s@, i as int) is None,
        },
{
    proof {
        reveal(p_system);
    }
    let i1 = match parse_lit(s, i, "{\"os\":") {
        Some(j) => j,
        None => {
            return None;
        },
    };
    let (os, i2) = match parse_string(s, i1) {
        Some(v) => v,
        None => {
            return None;
        },
    };
    let i3 = match parse_lit(s, i2, ",\"hostname\":") {
        Some(j) => j,
        None => {
            return None;
        },
    };
    let (hostname, i4) = match parse_string(s, i3) {
        Some(v) => v,
        None => {
            return None;
        },
    };
    let i5 = match parse_lit(s, i4, ",\"scan_scope\":") {
        Some(j) => j,
        None => {
            return None;
        },
    };
    let (scan_scope, i6) = match parse_string(s, i5) {
        Some(v) => v,
        None => {
            return None;
        },
    };
    let i7 = match parse_lit(s, i6, ",\"scanner_version\":") {
        Some(j) => j,
        None => {
            return None;
        },
    };
    let (scanner_version, i8) = match parse_string(s, i7) {
        Some(v) => v,
        None => {
            return None;
        },
    };
    let i9 = match parse_lit(s, i8, "}") {
        Some(j) => j,
        None => {
            return None;
        },
    };
    Some((SystemInfo { os, hostname, scan_scope, scanner_version }, i9))
}

/// Reads a whole document; the input must be consumed exactly.
#[verifier::rlimit(60)]
pub fn parse_report(s: &str) -> (r: Option<ParsedReport>)
    ensures
        match r {
            Some(p) => p_report(s@) == Some(doc_of_parsed_report(p)),
            None => p_report(s@) is None,
        },
{
    let n: usize = s.unicode_len();
    let i1 = match parse_lit(s, 0, "{\"id\":") {
        Some(j) => j,
        None => {
            return None;
        },
    };
    let (id, i2) = match parse_string(s, i1) {
        Some(v) => v,
        None => {
            return None;
        },
    };
    let i3 = match parse_lit(s, i2, ",\"generated_at\":") {
        Some(j) => j,
        None => {
            return None;
        },
    };
    let (generated_at, i4) = match parse_dec(s, i3) {
        Some(v) => v,
        None => {
            return None;
        },
    };
    let i5 = match parse_lit(s, i4, ",\"scan_duration\":") {
        Some(j) => j,
        None => {
            return None;
        },
    };
    let (scan_duration, i6) = match parse_dec(s, i5) {
        Some(v) => v,
        None => {
            return None;
        },
    };
    let i7 = match parse_lit(s, i6, ",\"issues\":") {
        Some(j) => j,
        None => {
            return None;
        },
    };
    let (issues, i8) = match parse_issues(s, i7) {
        Some(v) => v,
        None => {
            return None;
        },
    };
    let i9 = match parse_lit(s, i8, ",\"summary\":") {
        Some(j) => j,
        None => {
            return None;
        },
    };
    let (summary, i10) = match parse_summary(s, i9) {
        Some(v) => v,
        None => {
            return None;
        },
    };
    let i11 = match parse_lit(s, i10, ",\"system_info\":") {
        Some(j) => j,
        None => {
            return None;
        },
    };
    let (system_info, i12) = match parse_system(s, i11) {
        Some(v) => v,
        None => {
            return None;
        },
    };
    let i13 = match parse_lit(s, i12, "}") {
        Some(j) => j,
        None => {
            return None;
        },
    };
    if i13 != n {
        return None;
    }
    Some(ParsedReport { id, generated_at, scan_duration, issues, summary, system_info })
}

impl SecurityReport {
    /// Serializes the report to its structured document.
    pub fn export_to_json(&self) -> (out: String)
        ensures
            out@ == report_doc(*self),
    {
        export_report(self)
    }
}

/// Appends the escaped form of `s` to `out`.
fn append_escaped(out: &mut String, s: &str)
    ensures
        final(out)@ == old(out)@ + escape_seq(s@),
{
    let n: usize = s.unicode_len();
    let mut i: usize = 0;
    proof {
        assert(out@ + escape_seq(s@.take(0)) =~= out@);
    }
    while i < n
        invariant
            i <= n,
            n == s@.len(),
            out@ == old(out)@ + escape_seq(s@.take(i as int)),
        decreases n - i,
    {
        let c = s.get_char(i);
        if c == '"' {
            out.append("\\\"");
        } else if c == '\\' {
            out.append("\\\\");
        } else if c == '\n' {
            out.append("\\n");
        } else if c == '\r' {
            out.append("\\r");
        } else if c == '\t' {
            out.append("\\t");
        } else {
            text::push_char(out, c);
        }
        proof {
            reveal_strlit("\\\"");
            reveal_strlit("\\\\");
            reveal_strlit("\\n");
            reveal_strlit("\\r");
            reveal_strlit("\\t");
            assert(s@.take(i + 1).drop_last() =~= s@.take(i as int));
            assert(s@.take(i + 1).last() == s@[i as int]);
            lemma_escape_snoc(s@.take(i as int), s@[i as int]);
            assert(s@.take(i as int).push(s@[i as int]) =~= s@.take(i + 1));
            assert(out@ =~= old(out)@ + escape_seq(s@.take(i + 1)));
        }
        i = i + 1;
    }
    proof {
        assert(s@.take(n as int) =~= s@);
    }
}

/// Appends `s` as a quoted, escaped document string to `out`.
fn append_quoted(out: &mut String, s: &str)
    ensures
        final(out)@ == old(out)@ + quoted(s@),
{
    out.append("\"");
    append_escaped(out, s);
    out.append("\"");
    proof {
        reveal_strlit("\"");
        assert("\""@ =~= seq!['"']);
        assert(final(out)@ =~= old(out)@ + quoted(s@));
    }
}

/// Appends a string array in document form to `out`.
fn append_str_array(out: &mut String, ss: &Vec<String>)
    ensures
        final(out)@ == old(out)@ + str_array_doc(ss.deep_view()),
{
    out.append("[");
    let n: usize = ss.len();
    let mut i: usize = 0;
    proof {
        reveal_strlit("[");
        assert(ss.deep_view().take(0) =~= Seq::<Seq<char>>::empty());
    }
    while i < n
        invariant
            i <= n,
            n == ss@.len(),
            out@ == old(out)@ + "["@ + str_array_items(ss.deep_view().take(i as int)),
        decreases n - i,
    {
        if i > 0 {
            out.append(",");
        }
        append_quoted(out, ss[i].as_str());
        proof {
            reveal_strlit(",");
            let dv = ss.deep_view();
            assert(dv.take(i as int).push(dv[i as int]) =~= dv.take(i + 1));
            lemma_str_array_items_snoc(dv.take(i as int), dv[i as int]);
            assert(dv[i as int] == ss@[i as int]@);
            assert(out@ =~= old(out)@ + "["@ + str_array_items(dv.take(i + 1)));
        }
        i = i + 1;
    }
    out.append("]");
    proof {
        assert(ss.deep_view().take(n as int) =~= ss.deep_view());
        assert(final(out)@ =~= old(out)@ + str_array_doc(ss.deep_view()));
    }
}

/// Appends the technical details in document form to `out`.
fn append_details(out: &mut String, dd: &Vec<(String, String)>)
    ensures
        final(out)@ == old(out)@ + details_doc(pairs_deep(dd@)),
{
    out.append("{");
    let n: usize = dd.len();
    let mut i: usize = 0;
    proof {
        reveal_strlit("{");
        assert(pairs_deep(dd@).take(0) =~= Seq::<(Seq<char>, Seq<char>)>::empty());
        assert(pairs_deep(dd@.take(0)) =~= pairs_deep(dd@).take(0));
    }
    while i < n
        invariant
            i <= n,
            n == dd@.len(),
            out@ == old(out)@ + "{"@ + details_items(pairs_deep(dd@).take(i as int)),
        decreases n - i,
    {
        if i > 0 {
            out.append(",");
        }
        append_quoted(out, dd[i].0.as_str());
        out.append(":");
        append_quoted(out, dd[i].1.as_str());
        proof {
            reveal_strlit(",");
            reveal_strlit(":");
            let dv = pairs_deep(dd@);
            assert(dv.take(i as int).push(dv[i as int]) =~= dv.take(i + 1));
            lemma_details_items_snoc(dv.take(i as int), dv[i as int]);
            assert(dv[i as int].0 == dd@[i as int].0@ && dv[i as int].1 == dd@[i as int].1@);
            assert(out@ =~= old(out)@ + "{"@ + details_items(dv.take(i + 1)));
        }
        i = i + 1;
    }
    out.append("}");
    proof {
        assert(pairs_deep(dd@).take(n as int) =~= pairs_deep(dd@));
        assert(final(out)@ =~= old(out)@ + details_doc(pairs_deep(dd@)));
    }
}

/// Appends one issue in document form to `out`.
#[verifier::rlimit(60)]
fn append_issue(out: &mut String, i: &SecurityIssue)
    ensures
        final(out)@ == old(out)@ + issue_doc(*i),
{
    out.append("{\"id\":");
    append_quoted(out, i.id.as_str());
    out.append(",\"issue_type\":");
    append_quoted(out, i.issue_type.as_str());
    out.append(",\"title\":");
    append_quoted(out, i.title.as_str());
    out.append(",\"description\":");
    append_quoted(out, i.description.as_str());
    out.append(",\"severity\":");
    append_quoted(out, i.severity.as_str());
    out.append(",\"status\":");
    append_quoted(out, i.status.as_str());
    out.append(",\"affected_files\":");
    append_str_array(out, &i.affected_files);
    out.append(",\"mitigation_steps\":");
    append_str_array(out, &i.mitigation_steps);
    out.append(",\"technical_details\":");
    append_details(out, &i.technical_details);
    out.append("}");
    proof {
        assert(final(out)@ =~= old(out)@ + issue_doc(*i));
    }
}

/// Appends the issue array in document form to `out`.
#[verifier::rlimit(60)]
fn append_issues(out: &mut String, issues: &Vec<SecurityIssue>)
    ensures
        final(out)@ == old(out)@ + issues_doc(issues@),
{
    out.append("[");
    let n: usize = issues.len();
    let mut i: usize = 0;
    proof {
        reveal_strlit("[");
        assert(issues@.take(0) =~= Seq::<SecurityIssue>::empty());
    }
    while i < n
        invariant
            i <= n,
            n == issues@.len(),
            out@ == old(out)@ + "["@ + issues_items(issues@.take(i as int)),
        decreases n - i,
    {
        if i > 0 {
            out.append(",");
        }
        append_issue(out, &issues[i]);
        proof {
            reveal_strlit(",");
            assert(issues@.take(i as int).push(issues@[i as int]) =~= issues@.take(i + 1));
            lemma_issues_items_snoc(issues@.take(i as int), issues@[i as int]);
            assert(out@ =~= old(out)@ + "["@ + issues_items(issues@.take(i + 1)));
        }
        i = i + 1;
    }
    out.append("]");
    proof {
        assert(issues@.take(n as int) =~= issues@);
        assert(final(out)@ =~= old(out)@ + issues_doc(issues@));
    }
}

/// Appends the summary in document form to `out`.
fn append_summary(out: &mut String, s: &ReportSummary)
    ensures
        final(out)@ == old(out)@ + summary_doc(*s),
{
    out.append("{\"total_issues\":");
    let d = text::u64_to_dec(s.total_issues as u64);
    out.append(d.as_str());
    out.append(",\"critical_issues\":");
    let d = text::u64_to_dec(s.critical_issues as u64);
    out.append(d.as_str());
    out.append(",\"high_issues\":");
    let d = text::u64_to_dec(s.high_issues as u64);
    out.append(d.as_str());
    out.append(",\"medium_issues\":");
    let d = text::u64_to_dec(s.medium_issues as u64);
    out.append(d.as_str());
    out.append(",\"low_issues\":");
    let d = text::u64_to_dec(s.low_issues as u64);
    out.append(d.as_str());
    out.append(",\"resolved_issues\":");
    let d = text::u64_to_dec(s.resolved_issues as u64);
    out.append(d.as_str());
    out.append(",\"security_score\":");
    let d = text::u64_to_dec(s.security_score as u64);
    out.append(d.as_str());
    out.append("}");
    proof {
        assert(final(out)@ =~= old(out)@ + summary_doc(*s));
    }
}

/// Appends the system metadata in document form to `out`.
fn append_system(out: &mut String, si: &SystemInfo)
    ensures
        final(out)@ == old(out)@ + system_doc(*si),
{
    out.append("{\"os\":");
    append_quoted(out, si.os.as_str());
    out.append(",\"hostname\":");
    append_quoted(out, si.hostname.as_str());
    out.append(",\"scan_scope\":");
    append_quoted(out, si.scan_scope.as_str());
    out.append(",\"scanner_version\":");
    append_quoted(out, si.scanner_version.as_str());
    out.append("}");
    proof {
        assert(final(out)@ =~= old(out)@ + system_doc(*si));
    }
}

/// Renders the whole report as its structured document.
pub fn export_report(r: &SecurityReport) -> (out: String)
    ensures
        out@ == report_doc(*r),
{
    let mut out = "{\"id\":".to_owned();
    append_quoted(&mut out, r.id.as_str());
    out.append(",\"generated_at\":");
    let d = text::u64_to_dec(r.generated_at);
    out.append(d.as_str());
    out.append(",\"scan_duration\":");
    let d = text::u64_to_dec(r.scan_duration);
    out.append(d.as_str());
    out.append(",\"issues\":");
    append_issues(&mut out, &r.issues);
    out.append(",\"summary\":");
    append_summary(&mut out, &r.summary);
    out.append(",\"system_info\":");
    append_system(&mut out, &r.system_info);
    out.append("}");
    proof {
        assert(out@ =~= report_doc(*r));
    }
    out
}

/// Ten to the `k`.
pub open spec fn pow10(k: nat) -> int
    decreases k,
{
    if k == 0 {
        1
    } else {
        10 * pow10((k - 1) as nat)
    }
}

/// The value of a digit sequence, most significant digit first.
pub open spec fn val_digits(ds: Seq<char>) -> int
    decreases ds.len(),
{
    if ds.len() == 0 {
        0
    } else {
        val_digits(ds.drop_last()) * 10 + digit_val(ds.last())
    }
}

/// Powers of ten are at least one.
pub proof fn lemma_pow10_pos(k: nat)
    ensures
        pow10(k) >= 1,
    decreases k,
{
    if k > 0 {
        lemma_pow10_pos((k - 1) as nat);
    }
}

/// The character of a digit value is a digit character and reads back as
/// the same value.
pub proof fn lemma_digit_char_roundtrip(d: nat)
    requires
        d < 10,
    ensures
        is_digit(text::digit_char(d)),
        digit_val(text::digit_char(d)) == d,
{
    assert(48 + d <= 57);
    assert((((48 + d) as u32) as char) as u32 == 48 + d);
}

/// The decimal rendering of `v` consists of digits and reads back as `v`.
pub proof fn lemma_dec_digits_value(v: nat)
    ensures
        text::dec_digits(v).len() >= 1,
        forall|j: int|
            0 <= j < text::dec_digits(v).len() ==> is_digit(#[trigger] text::dec_digits(v)[j]),
        val_digits(text::dec_digits(v)) == v,
    decreases v,
{
    if v < 10 {
        lemma_digit_char_roundtrip(v);
        assert(text::dec_digits(v) =~= seq![text::digit_char(v)]);
        assert(text::dec_digits(v).drop_last() =~= Seq::<char>::empty());
        assert(text::dec_digits(v).last() == text::digit_char(v));
        assert(val_digits(Seq::<char>::empty()) == 0);
        assert(val_digits(text::dec_digits(v)) == v);
    } else {
        lemma_dec_digits_value(v / 10);
        lemma_digit_char_roundtrip(v % 10);
        let ds = text::dec_digits(v);
        assert(ds == text::dec_digits(v / 10).push(text::digit_char(v % 10)));
        assert(ds.drop_last() =~= text::dec_digits(v / 10));
        assert(ds.last() == text::digit_char(v % 10));
        assert(digit_val(ds.last()) == v % 10);
        assert(val_digits(ds) == (v / 10) * 10 + v % 10);
        assert forall|j: int| 0 <= j < ds.len() implies is_digit(#[trigger] ds[j]) by {
            if j < ds.len() - 1 {
                assert(ds[j] == text::dec_digits(v / 10)[j]);
            } else {
                assert(ds[j] == text::digit_char(v % 10));
            }
        }
    }
}

/// Digit-sequence values are non-negative and below the matching power of
/// ten.
pub proof fn lemma_val_digits_bounds(ds: Seq<char>)
    requires
        forall|j: int| 0 <= j < ds.len() ==> is_digit(#[trigger] ds[j]),
    ensures
        0 <= val_digits(ds) < pow10(ds.len()),
    decreases ds.len(),
{
    if ds.len() == 0 {
    } else {
        lemma_val_digits_bounds(ds.drop_last());
        let prefix = val_digits(ds.drop_last());
        let d = digit_val(ds.last());
        assert(is_digit(ds[ds.len() - 1]));
        assert(0 <= d <= 9);
        assert(prefix * 10 + d < pow10(ds.len())) by (nonlinear_arith)
            requires
                0 <= prefix < pow10((ds.len() - 1) as nat),
                0 <= d <= 9,
                pow10(ds.len() as nat) == 10 * pow10((ds.len() - 1) as nat),
        ;
    }
}

/// Splitting the leading digit off a digit sequence.
pub proof fn lemma_val_digits_front(ds: Seq<char>)
    requires
        ds.len() > 0,
    ensures
        val_digits(ds) == digit_val(ds[0]) * pow10((ds.len() - 1) as nat) + val_digits(
            ds.drop_first(),
        ),
    decreases ds.len(),
{
    if ds.len() == 1 {
        assert(ds.drop_last() =~= Seq::<char>::empty());
        assert(ds.drop_first() =~= Seq::<char>::empty());
        assert(ds.last() == ds[0]);
    } else {
        let dl = ds.drop_last();
        lemma_val_digits_front(dl);
        assert(dl[0] == ds[0]);
        assert(ds.drop_first().drop_last() =~= dl.drop_first());
        assert(ds.drop_first().last() == ds.last());
        let p = pow10((dl.len() - 1) as nat);
        let d0 = digit_val(ds[0]);
        assert(val_digits(ds) == (d0 * p + val_digits(dl.drop_first())) * 10 + digit_val(
            ds.last(),
        ));
        assert((d0 * p + val_digits(dl.drop_first())) * 10 == d0 * (10 * p) + val_digits(
            dl.drop_first(),
        ) * 10) by (nonlinear_arith);
        assert(pow10((ds.len() - 1) as nat) == 10 * p);
        assert(val_digits(ds.drop_first()) == val_digits(dl.drop_first()) * 10 + digit_val(
            ds.last(),
        ));
    }
}

/// Reading a digit run: from position `i` up to the first non-digit at
/// `j`, the loop accumulates the run's value onto `acc`.
pub proof fn lemma_p_dec_loop_at(s: Seq<char>, i: int, j: int, acc: int)
    requires
        0 <= i <= j < s.len(),
        forall|k: int| i <= k < j ==> is_digit(#[trigger] s[k]),
        !is_digit(s[j]),
        acc >= 0,
        acc * pow10((j - i) as nat) + val_digits(s.subrange(i, j)) <= 0xffff_ffff_ffff_ffff,
    ensures
        p_dec_loop(s, i, acc) == Some(
            (acc * pow10((j - i) as nat) + val_digits(s.subrange(i, j)), j),
        ),
    decreases j - i,
{
    let ds = s.subrange(i, j);
    assert(forall|k: int| 0 <= k < ds.len() ==> is_digit(#[trigger] ds[k]));
    lemma_val_digits_bounds(ds);
    if i == j {
        assert(ds =~= Seq::<char>::empty());
        assert(acc * pow10(0) == acc) by (nonlinear_arith)
            requires
                pow10(0) == 1,
        ;
    } else {
        let d = digit_val(s[i]);
        let acc2 = acc * 10 + d;
        let m = (j - i) as nat;
        lemma_val_digits_front(ds);
        assert(ds[0] == s[i]);
        assert(ds.drop_first() =~= s.subrange(i + 1, j));
        lemma_val_digits_bounds(ds.drop_first());
        lemma_pow10_pos((m - 1) as nat);
        assert(pow10(m) == 10 * pow10((m - 1) as nat));
        assert(acc * pow10(m) + val_digits(ds) == acc2 * pow10((m - 1) as nat) + val_digits(
            ds.drop_first(),
        )) by (nonlinear_arith)
            requires
                pow10(m) == 10 * pow10((m - 1) as nat),
                val_digits(ds) == digit_val(ds[0]) * pow10((m - 1) as nat) + val_digits(
                    ds.drop_first(),
                ),
                acc2 == acc * 10 + digit_val(ds[0]),
                d == digit_val(ds[0]),
        ;
        assert(acc2 <= acc2 * pow10((m - 1) as nat) + val_digits(ds.drop_first()))
            by (nonlinear_arith)
            requires
                acc2 >= 0,
                pow10((m - 1) as nat) >= 1,
                val_digits(ds.drop_first()) >= 0,
        ;
        assert(is_digit(s[i]) && 0 <= d <= 9);
        lemma_p_dec_loop_at(s, i + 1, j, acc2);
    }
}

/// Reading the decimal rendering of `v` yields `v` and stops at the
/// following non-digit.
pub proof fn lemma_p_dec_at(s: Seq<char>, i: int, v: nat)
    requires
        0 <= i,
        i + text::dec_digits(v).len() < s.len(),
        s.subrange(i, i + text::dec_digits(v).len()) == text::dec_digits(v),
        !is_digit(s[i + text::dec_digits(v).len()]),
        v <= 0xffff_ffff_ffff_ffff,
    ensures
        p_dec(s, i) == Some((v as int, i + text::dec_digits(v).len())),
{
    let ds = text::dec_digits(v);
    let j = i + ds.len();
    lemma_dec_digits_value(v);
    assert(forall|k: int| i <= k < j ==> s[k] == ds[k - i]);
    assert(forall|k: int| i <= k < j ==> is_digit(#[trigger] s[k]));
    assert(s.subrange(i, j) =~= ds);
    lemma_pow10_pos((j - i) as nat);
    assert(0 * pow10((j - i) as nat) == 0) by (nonlinear_arith);
    lemma_p_dec_loop_at(s, i, j, 0);
    assert(is_digit(s[i]));
}

/// Reading the literal `lit` where it stands succeeds.
pub proof fn lemma_p_lit_at(s: Seq<char>, i: int, lit: Seq<char>)
    requires
        0 <= i,
        i + lit.len() <= s.len(),
        s.subrange(i, i + lit.len()) == lit,
    ensures
        p_lit(s, i, lit) == Some(i + lit.len()),
{
    assert(forall|j: int| 0 <= j < lit.len() ==> s[i + j] == lit[j]);
}

/// One character of a subrange equals the matching character of the
/// surrounding sequence.
pub proof fn lemma_subrange_index(s: Seq<char>, i: int, sub: Seq<char>, k: int)
    requires
        0 <= i,
        0 <= k < sub.len(),
        i + sub.len() <= s.len(),
        s.subrange(i, i + sub.len()) == sub,
    ensures
        s[i + k] == sub[k],
{
    assert(s.subrange(i, i + sub.len())[k] == s[i + k]);
}

/// Reading an escaped string body where it stands recovers the original
/// string.
pub proof fn lemma_p_str_body_at(s: Seq<char>, i: int, t: Seq<char>)
    requires
        0 <= i,
        i + escape_seq(t).len() + 1 <= s.len(),
        s.subrange(i, i + escape_seq(t).len()) == escape_seq(t),
        s[i + escape_seq(t).len()] == '"',
    ensures
        p_str_body(s, i) == Some((t, i + escape_seq(t).len() + 1)),
    decreases t.len(),
{
    let esc = escape_seq(t);
    if t.len() == 0 {
        assert(esc =~= Seq::<char>::empty());
    } else {
        let c = t[0];
        let t1 = t.drop_first();
        let ec = escape_char(c);
        let esc1 = escape_seq(t1);
        assert(esc == ec + esc1);
        if c == '"' || c == '\\' || c == '\n' || c == '\r' || c == '\t' {
            assert(ec.len() == 2 && ec[0] == '\\' && unescape_char(ec[1]) == Some(c));
            lemma_subrange_index(s, i, esc, 0);
            assert(s[i] == '\\');
            lemma_subrange_index(s, i, esc, 1);
            assert(s[i + 1] == ec[1]);
            assert forall|j: int| 0 <= j < esc1.len() implies s[i + 2 + j] == esc1[j] by {
                lemma_subrange_index(s, i, esc, 2 + j);
                assert(esc[2 + j] == esc1[j]);
            }
            assert(s.subrange(i + 2, i + 2 + esc1.len()) =~= esc1);
            assert(s[i + 2 + esc1.len()] == '"');
            lemma_p_str_body_at(s, i + 2, t1);
            assert(seq![c] + t1 =~= t);
        } else {
            assert(ec =~= seq![c]);
            lemma_subrange_index(s, i, esc, 0);
            assert(s[i] == c);
            assert(s[i] != '"' && s[i] != '\\');
            assert forall|j: int| 0 <= j < esc1.len() implies s[i + 1 + j] == esc1[j] by {
                lemma_subrange_index(s, i, esc, 1 + j);
                assert(esc[1 + j] == esc1[j]);
            }
            assert(s.subrange(i + 1, i + 1 + esc1.len()) =~= esc1);
            assert(s[i + 1 + esc1.len()] == '"');
            lemma_p_str_body_at(s, i + 1, t1);
            assert(seq![s[i]] + t1 =~= t);
        }
    }
}

/// Reading a quoted string where it stands recovers the original string.
pub proof fn lemma_p_string_at(s: Seq<char>, i: int, t: Seq<char>)
    requires
        0 <= i,
        i + quoted(t).len() <= s.len(),
        s.subrange(i, i + quoted(t).len()) == quoted(t),
    ensures
        p_string(s, i) == Some((t, i + quoted(t).len())),
{
    let q = quoted(t);
    let esc = escape_seq(t);
    lemma_subrange_index(s, i, q, 0);
    assert(q[0] == '"');
    assert(s[i] == '"');
    assert forall|j: int| 0 <= j < esc.len() implies s[i + 1 + j] == esc[j] by {
        lemma_subrange_index(s, i, q, 1 + j);
        assert(q[1 + j] == esc[j]);
    }
    assert(s.subrange(i + 1, i + 1 + esc.len()) =~= esc);
    lemma_subrange_index(s, i, q, 1 + esc.len() as int);
    assert(q[1 + esc.len() as int] == '"');
    assert(s[i + 1 + esc.len()] == '"');
    lemma_p_str_body_at(s, i + 1, t);
}

/// A chunk of a sequence known at an offset inside a larger known chunk.
pub proof fn lemma_chunk_at(s: Seq<char>, i: int, whole: Seq<char>, off: int, comp: Seq<char>)
    requires
        0 <= i,
        i + whole.len() <= s.len(),
        s.subrange(i, i + whole.len()) == whole,
        0 <= off,
        off + comp.len() <= whole.len(),
        comp == whole.subrange(off, off + comp.len()),
    ensures
        s.subrange(i + off, i + off + comp.len()) == comp,
{
    assert forall|j: int| 0 <= j < comp.len() implies s[i + off + j] == comp[j] by {
        lemma_subrange_index(s, i, whole, off + j);
        assert(whole.subrange(off, off + comp.len())[j] == whole[off + j]);
    }
    assert(s.subrange(i + off, i + off + comp.len()) =~= comp);
}

/// One character of a sequence known at an offset inside a known chunk.
pub proof fn lemma_char_at(s: Seq<char>, i: int, whole: Seq<char>, off: int)
    requires
        0 <= i,
        i + whole.len() <= s.len(),
        s.subrange(i, i + whole.len()) == whole,
        0 <= off < whole.len(),
    ensures
        s[i + off] == whole[off],
{
    lemma_subrange_index(s, i, whole, off);
}

/// A chunk known to hold a concatenation splits into its two halves.
pub proof fn lemma_split_chunk(s: Seq<char>, p: int, a: Seq<char>, b: Seq<char>)
    requires
        0 <= p,
        p + a.len() + b.len() <= s.len(),
        s.subrange(p, p + a.len() + b.len()) == a + b,
    ensures
        s.subrange(p, p + a.len()) == a,
        s.subrange(p + a.len(), p + a.len() + b.len()) == b,
{
    let ab = a + b;
    assert forall|j: int| 0 <= j < a.len() implies s[p + j] == a[j] by {
        lemma_subrange_index(s, p, ab, j);
        assert(ab[j] == a[j]);
    }
    assert(s.subrange(p, p + a.len()) =~= a);
    assert forall|j: int| 0 <= j < b.len() implies s[p + a.len() + j] == b[j] by {
        lemma_subrange_index(s, p, ab, a.len() + j);
        assert(ab[a.len() + j] == b[j]);
    }
    assert(s.subrange(p + a.len(), p + a.len() + b.len()) =~= b);
}

/// Reading a string array where it stands recovers the strings.
pub proof fn lemma_p_str_array_at(s: Seq<char>, i: int, ss: Seq<Seq<char>>)
    requires
        0 <= i,
        i + str_array_doc(ss).len() <= s.len(),
        s.subrange(i, i + str_array_doc(ss).len()) == str_array_doc(ss),
    ensures
        p_str_array(s, i) == Some((ss, i + str_array_doc(ss).len())),
{
    let d = str_array_doc(ss);
    let items = str_array_items(ss);
    reveal_strlit("[");
    reveal_strlit("]");
    assert(d == "["@ + items + "]"@);
    lemma_char_at(s, i, d, 0);
    assert(s[i] == '[');
    if ss.len() == 0 {
        assert(items =~= Seq::<char>::empty());
        lemma_char_at(s, i, d, 1);
        assert(s[i + 1] == ']');
    } else {
        assert(items[0] == quoted(ss[0])[0]);
        assert(quoted(ss[0])[0] == '"');
        lemma_char_at(s, i, d, 1);
        assert(s[i + 1] == '"');
        assert(s[i + 1] != ']');
        assert(items =~= d.subrange(1, 1 + items.len() as int));
        lemma_chunk_at(s, i, d, 1, items);
        lemma_char_at(s, i, d, 1 + items.len() as int);
        assert(d[1 + items.len() as int] == ']');
        lemma_p_str_array_items_at(s, i + 1, ss);
    }
}

/// Reading the items of a non-empty string array where they stand, with
/// the closing bracket just after them, recovers the strings.
pub proof fn lemma_p_str_array_items_at(s: Seq<char>, i: int, ss: Seq<Seq<char>>)
    requires
        ss.len() > 0,
        0 <= i,
        i + str_array_items(ss).len() + 1 <= s.len(),
        s.subrange(i, i + str_array_items(ss).len()) == str_array_items(ss),
        s[i + str_array_items(ss).len()] == ']',
    ensures
        p_str_array_items(s, i) == Some((ss, i + str_array_items(ss).len() + 1)),
    decreases ss.len(),
{
    let items = str_array_items(ss);
    let q = quoted(ss[0]);
    if ss.len() == 1 {
        assert(items == q);
        lemma_p_string_at(s, i, ss[0]);
        assert(seq![ss[0]] =~= ss);
    } else {
        let rest = str_array_items(ss.drop_first());
        assert(items == q + ","@ + rest);
        reveal_strlit(",");
        assert(q =~= items.subrange(0, q.len() as int));
        lemma_chunk_at(s, i, items, 0, q);
        lemma_p_string_at(s, i, ss[0]);
        let j = i + q.len();
        lemma_char_at(s, i, items, q.len() as int);
        assert(items[q.len() as int] == ',');
        assert(s[j] == ',');
        assert(rest =~= items.subrange(q.len() as int + 1, items.len() as int));
        lemma_chunk_at(s, i, items, q.len() as int + 1, rest);
        assert(s[j + 1 + rest.len()] == ']');
        lemma_p_str_array_items_at(s, j + 1, ss.drop_first());
        assert(seq![ss[0]] + ss.drop_first() =~= ss);
    }
}

/// Reading a details object where it stands recovers the pairs.
pub proof fn lemma_p_details_at(s: Seq<char>, i: int, dd: Seq<(Seq<char>, Seq<char>)>)
    requires
        0 <= i,
        i + details_doc(dd).len() <= s.len(),
        s.subrange(i, i + details_doc(dd).len()) == details_doc(dd),
    ensures
        p_details(s, i) == Some((dd, i + details_doc(dd).len())),
{
    let d = details_doc(dd);
    let items = details_items(dd);
    reveal_strlit("{");
    reveal_strlit("}");
    assert(d == "{"@ + items + "}"@);
    lemma_char_at(s, i, d, 0);
    assert(s[i] == '{');
    if dd.len() == 0 {
        assert(items =~= Seq::<char>::empty());
        lemma_char_at(s, i, d, 1);
        assert(s[i + 1] == '}');
    } else {
        assert(items[0] == quoted(dd[0].0)[0]);
        assert(quoted(dd[0].0)[0] == '"');
        lemma_char_at(s, i, d, 1);
        assert(s[i + 1] == '"');
        assert(s[i + 1] != '}');
        assert(items =~= d.subrange(1, 1 + items.len() as int));
        lemma_chunk_at(s, i, d, 1, items);
        lemma_char_at(s, i, d, 1 + items.len() as int);
        assert(d[1 + items.len() as int] == '}');
        lemma_p_details_items_at(s, i + 1, dd);
    }
}

/// Reading the pairs of a non-empty details object where they stand, with
/// the closing brace just after them, recovers the pairs.
pub proof fn lemma_p_details_items_at(s: Seq<char>, i: int, dd: Seq<(Seq<char>, Seq<char>)>)
    requires
        dd.len() > 0,
        0 <= i,
        i + details_items(dd).len() + 1 <= s.len(),
        s.subrange(i, i + details_items(dd).len()) == details_items(dd),
        s[i + details_items(dd).len()] == '}',
    ensures
        p_details_items(s, i) == Some((dd, i + details_items(dd).len() + 1)),
    decreases dd.len(),
{
    let items = details_items(dd);
    let qk = quoted(dd[0].0);
    let qv = quoted(dd[0].1);
    reveal_strlit(":");
    reveal_strlit(",");
    let pair = qk + ":"@ + qv;
    assert(qk =~= items.subrange(0, qk.len() as int));
    lemma_chunk_at(s, i, items, 0, qk);
    lemma_p_string_at(s, i, dd[0].0);
    let j = i + qk.len();
    lemma_char_at(s, i, items, qk.len() as int);
    assert(items[qk.len() as int] == ':');
    assert(s[j] == ':');
    assert(qv =~= items.subrange(qk.len() as int + 1, qk.len() + 1 + qv.len() as int));
    lemma_chunk_at(s, i, items, qk.len() as int + 1, qv);
    lemma_p_string_at(s, j + 1, dd[0].1);
    let j2 = j + 1 + qv.len();
    if dd.len() == 1 {
        assert(items == pair);
        assert(s[j2] == '}');
        assert(seq![(dd[0].0, dd[0].1)] =~= dd);
    } else {
        let rest = details_items(dd.drop_first());
        assert(items == pair + ","@ + rest);
        lemma_char_at(s, i, items, pair.len() as int);
        assert(items[pair.len() as int] == ',');
        assert(s[j2] == ',');
        assert(s[j2] != '}');
        assert(rest =~= items.subrange(pair.len() as int + 1, items.len() as int));
        lemma_chunk_at(s, i, items, pair.len() as int + 1, rest);
        assert(s[j2 + 1 + rest.len()] == '}');
        lemma_p_details_items_at(s, j2 + 1, dd.drop_first());
        assert(seq![(dd[0].0, dd[0].1)] + dd.drop_first() =~= dd);
    }
}

/// The severity tokens are pairwise distinct, so a rendered severity
/// reads back as itself.
pub proof fn lemma_severity_token_inverse(lv: ThreatLevel)
    ensures
        severity_of_token(lv.as_str_spec()) == Some(lv),
{
    reveal_strlit("None");
    reveal_strlit("Low");
    reveal_strlit("Medium");
    reveal_strlit("High");
    reveal_strlit("Critical");
    assert("None"@.len() == 4 && "Low"@.len() == 3 && "Medium"@.len() == 6 && "High"@.len() == 4
        && "Critical"@.len() == 8);
    assert("High"@ != "None"@) by {
        assert("High"@[0] == 'H' && "None"@[0] == 'N');
    }
}

/// The status tokens are pairwise distinct, so a rendered status reads
/// back as itself.
pub proof fn lemma_status_token_inverse(st: IssueStatus)
    ensures
        status_of_token(st.as_str_spec()) == Some(st),
{
    reveal_strlit("Active");
    reveal_strlit("Investigating");
    reveal_strlit("Mitigated");
    reveal_strlit("Resolved");
    reveal_strlit("False Positive");
    assert("Active"@.len() == 6 && "Investigating"@.len() == 13 && "Mitigated"@.len() == 9
        && "Resolved"@.len() == 8 && "False Positive"@.len() == 14);
}

/// The category tokens are pairwise distinct, so a rendered category
/// reads back as itself.
pub proof fn lemma_issue_type_token_inverse(ty: IssueType)
    ensures
        issue_type_of_token(ty.as_str_spec()) == Some(ty),
{
    reveal_strlit("Malware");
    reveal_strlit("Clipboard Hijack");
    reveal_strlit("Network Anomaly");
    reveal_strlit("File Integrity");
    reveal_strlit("System Vulnerability");
    reveal_strlit("Unauthorized Access");
    reveal_strlit("Suspicious Process");
    reveal_strlit("Data Exfiltration");
    assert("Malware"@.len() == 7 && "Clipboard Hijack"@.len() == 16 && "Network Anomaly"@.len()
        == 15 && "File Integrity"@.len() == 14 && "System Vulnerability"@.len() == 20
        && "Unauthorized Access"@.len() == 19 && "Suspicious Process"@.len() == 18
        && "Data Exfiltration"@.len() == 17);
}

/// Reading one issue where it stands recovers its content.
#[verifier::rlimit(100)]
pub proof fn lemma_p_issue_at(s: Seq<char>, i: int, iss: SecurityIssue)
    requires
        0 <= i,
        i + issue_doc(iss).len() <= s.len(),
        s.subrange(i, i + issue_doc(iss).len()) == issue_doc(iss),
    ensures
        p_issue(s, i) == Some((doc_issue_of(iss), i + issue_doc(iss).len())),
{
    reveal(p_issue);
    reveal(p_issue_tail);
    let d = issue_doc(iss);
    let a1 = "{\"id\":"@;
    let a2 = quoted(iss.id@);
    let a3 = ",\"issue_type\":"@;
    let a4 = quoted(iss.issue_type.as_str_spec());
    let a5 = ",\"title\":"@;
    let a6 = quoted(iss.title@);
    let a7 = ",\"description\":"@;
    let a8 = quoted(iss.description@);
    let a9 = ",\"severity\":"@;
    let a10 = quoted(iss.severity.as_str_spec());
    let a11 = ",\"status\":"@;
    let a12 = quoted(iss.status.as_str_spec());
    let a13 = ",\"affected_files\":"@;
    let a14 = str_array_doc(iss.affected_files.deep_view());
    let a15 = ",\"mitigation_steps\":"@;
    let a16 = str_array_doc(iss.mitigation_steps.deep_view());
    let a17 = ",\"technical_details\":"@;
    let a18 = details_doc(pairs_deep(iss.technical_details@));
    let a19 = "}"@;
    let c1 = a1;
    let c2 = c1 + a2;
    let c3 = c2 + a3;
    let c4 = c3 + a4;
    let c5 = c4 + a5;
    let c6 = c5 + a6;
    let c7 = c6 + a7;
    let c8 = c7 + a8;
    let c9 = c8 + a9;
    let c10 = c9 + a10;
    let c11 = c10 + a11;
    let c12 = c11 + a12;
    let c13 = c12 + a13;
    let c14 = c13 + a14;
    let c15 = c14 + a15;
    let c16 = c15 + a16;
    let c17 = c16 + a17;
    let c18 = c17 + a18;
    assert(d == c18 + a19);
    lemma_split_chunk(s, i, c18, a19);
    lemma_split_chunk(s, i, c17, a18);
    lemma_split_chunk(s, i, c16, a17);
    lemma_split_chunk(s, i, c15, a16);
    lemma_split_chunk(s, i, c14, a15);
    lemma_split_chunk(s, i, c13, a14);
    lemma_split_chunk(s, i, c12, a13);
    lemma_split_chunk(s, i, c11, a12);
    lemma_split_chunk(s, i, c10, a11);
    lemma_split_chunk(s, i, c9, a10);
    lemma_split_chunk(s, i, c8, a9);
    lemma_split_chunk(s, i, c7, a8);
    lemma_split_chunk(s, i, c6, a7);
    lemma_split_chunk(s, i, c5, a6);
    lemma_split_chunk(s, i, c4, a5);
    lemma_split_chunk(s, i, c3, a4);
    lemma_split_chunk(s, i, c2, a3);
    lemma_split_chunk(s, i, c1, a2);
    lemma_p_lit_at(s, i, a1);
    lemma_p_string_at(s, i + c1.len(), iss.id@);
    lemma_p_lit_at(s, i + c2.len(), a3);
    lemma_p_string_at(s, i + c3.len(), iss.issue_type.as_str_spec());
    lemma_issue_type_token_inverse(iss.issue_type);
    lemma_p_lit_at(s, i + c4.len(), a5);
    lemma_p_string_at(s, i + c5.len(), iss.title@);
    lemma_p_lit_at(s, i + c6.len(), a7);
    lemma_p_string_at(s, i + c7.len(), iss.description@);
    lemma_p_lit_at(s, i + c8.len(), a9);
    lemma_p_string_at(s, i + c9.len(), iss.severity.as_str_spec());
    lemma_severity_token_inverse(iss.severity);
    lemma_p_lit_at(s, i + c10.len(), a11);
    lemma_p_string_at(s, i + c11.len(), iss.status.as_str_spec());
    lemma_status_token_inverse(iss.status);
    lemma_p_lit_at(s, i + c12.len(), a13);
    lemma_p_str_array_at(s, i + c13.len(), iss.affected_files.deep_view());
    lemma_p_lit_at(s, i + c14.len(), a15);
    lemma_p_str_array_at(s, i + c15.len(), iss.mitigation_steps.deep_view());
    lemma_p_lit_at(s, i + c16.len(), a17);
    lemma_p_details_at(s, i + c17.len(), pairs_deep(iss.technical_details@));
    lemma_p_lit_at(s, i + c18.len(), a19);
}

/// Reading the issue array where it stands recovers the issues' content.
#[verifier::rlimit(100)]
pub proof fn lemma_p_issues_at(s: Seq<char>, i: int, issues: Seq<SecurityIssue>)
    requires
        0 <= i,
        i + issues_doc(issues).len() <= s.len(),
        s.subrange(i, i + issues_doc(issues).len()) == issues_doc(issues),
    ensures
        p_issues(s, i) == Some(
            (issues.map_values(|x: SecurityIssue| doc_issue_of(x)), i + issues_doc(issues).len()),
        ),
{
    let d = issues_doc(issues);
    let items = issues_items(issues);
    reveal_strlit("[");
    reveal_strlit("]");
    assert(d == "["@ + items + "]"@);
    lemma_char_at(s, i, d, 0);
    assert(s[i] == '[');
    if issues.len() == 0 {
        assert(items =~= Seq::<char>::empty());
        lemma_char_at(s, i, d, 1);
        assert(s[i + 1] == ']');
        assert(issues.map_values(|x: SecurityIssue| doc_issue_of(x)) =~= Seq::<
            DocIssue,
        >::empty());
    } else {
        assert(items[0] == issue_doc(issues[0])[0]);
        reveal_strlit("{\"id\":");
        assert(issue_doc(issues[0])[0] == '{');
        lemma_char_at(s, i, d, 1);
        assert(s[i + 1] == '{');
        assert(s[i + 1] != ']');
        assert(items =~= d.subrange(1, 1 + items.len() as int));
        lemma_chunk_at(s, i, d, 1, items);
        lemma_char_at(s, i, d, 1 + items.len() as int);
        assert(d[1 + items.len() as int] == ']');
        lemma_p_issues_items_at(s, i + 1, issues);
    }
}

/// Reading the items of a non-empty issue array where they stand, with
/// the closing bracket just after them, recovers the issues' content.
#[verifier::rlimit(100)]
pub proof fn lemma_p_issues_items_at(s: Seq<char>, i: int, issues: Seq<SecurityIssue>)
    requires
        issues.len() > 0,
        0 <= i,
        i + issues_items(issues).len() + 1 <= s.len(),
        s.subrange(i, i + issues_items(issues).len()) == issues_items(issues),
        s[i + issues_items(issues).len()] == ']',
    ensures
        p_issues_items(s, i) == Some(
            (
                issues.map_values(|x: SecurityIssue| doc_issue_of(x)),
                i + issues_items(issues).len() + 1,
            ),
        ),
    decreases issues.len(),
{
    let items = issues_items(issues);
    let d0 = issue_doc(issues[0]);
    if issues.len() == 1 {
        assert(items == d0);
        lemma_p_issue_at(s, i, issues[0]);
        assert(seq![doc_issue_of(issues[0])] =~= issues.map_values(
            |x: SecurityIssue| doc_issue_of(x),
        ));
    } else {
        let rest = issues_items(issues.drop_first());
        assert(items == d0 + ","@ + rest);
        reveal_strlit(",");
        assert(d0 =~= items.subrange(0, d0.len() as int));
        lemma_chunk_at(s, i, items, 0, d0);
        lemma_p_issue_at(s, i, issues[0]);
        let j = i + d0.len();
        lemma_char_at(s, i, items, d0.len() as int);
        assert(items[d0.len() as int] == ',');
        assert(s[j] == ',');
        assert(rest =~= items.subrange(d0.len() as int + 1, items.len() as int));
        lemma_chunk_at(s, i, items, d0.len() as int + 1, rest);
        assert(s[j + 1 + rest.len()] == ']');
        lemma_p_issues_items_at(s, j + 1, issues.drop_first());
        assert(seq![doc_issue_of(issues[0])] + issues.drop_first().map_values(
            |x: SecurityIssue| doc_issue_of(x),
        ) =~= issues.map_values(|x: SecurityIssue| doc_issue_of(x)));
    }
}

/// Reading the summary where it stands recovers it.
#[verifier::rlimit(100)]
pub proof fn lemma_p_summary_at(s: Seq<char>, i: int, sm: ReportSummary)
    requires
        0 <= i,
        i + summary_doc(sm).len() <= s.len(),
        s.subrange(i, i + summary_doc(sm).len()) == summary_doc(sm),
    ensures
        p_summary(s, i) == Some((sm, i + summary_doc(sm).len())),
{
    reveal(p_summary);
    let d = summary_doc(sm);
    let a1 = "{\"total_issues\":"@;
    let a2 = text::dec_digits(sm.total_issues as nat);
    let a3 = ",\"critical_issues\":"@;
    let a4 = text::dec_digits(sm.critical_issues as nat);
    let a5 = ",\"high_issues\":"@;
    let a6 = text::dec_digits(sm.high_issues as nat);
    let a7 = ",\"medium_issues\":"@;
    let a8 = text::dec_digits(sm.medium_issues as nat);
    let a9 = ",\"low_issues\":"@;
    let a10 = text::dec_digits(sm.low_issues as nat);
    let a11 = ",\"resolved_issues\":"@;
    let a12 = text::dec_digits(sm.resolved_issues as nat);
    let a13 = ",\"security_score\":"@;
    let a14 = text::dec_digits(sm.security_score as nat);
    let a15 = "}"@;
    let c1 = a1;
    let c2 = c1 + a2;
    let c3 = c2 + a3;
    let c4 = c3 + a4;
    let c5 = c4 + a5;
    let c6 = c5 + a6;
    let c7 = c6 + a7;
    let c8 = c7 + a8;
    let c9 = c8 + a9;
    let c10 = c9 + a10;
    let c11 = c10 + a11;
    let c12 = c11 + a12;
    let c13 = c12 + a13;
    let c14 = c13 + a14;
    assert(d == c14 + a15);
    lemma_split_chunk(s, i, c14, a15);
    lemma_split_chunk(s, i, c13, a14);
    lemma_split_chunk(s, i, c12, a13);
    lemma_split_chunk(s, i, c11, a12);
    lemma_split_chunk(s, i, c10, a11);
    lemma_split_chunk(s, i, c9, a10);
    lemma_split_chunk(s, i, c8, a9);
    lemma_split_chunk(s, i, c7, a8);
    lemma_split_chunk(s, i, c6, a7);
    lemma_split_chunk(s, i, c5, a6);
    lemma_split_chunk(s, i, c4, a5);
    lemma_split_chunk(s, i, c3, a4);
    lemma_split_chunk(s, i, c2, a3);
    lemma_split_chunk(s, i, c1, a2);
    reveal_strlit(",\"critical_issues\":");
    reveal_strlit(",\"high_issues\":");
    reveal_strlit(",\"medium_issues\":");
    reveal_strlit(",\"low_issues\":");
    reveal_strlit(",\"resolved_issues\":");
    reveal_strlit(",\"security_score\":");
    reveal_strlit("}");
    lemma_p_lit_at(s, i, a1);
    lemma_subrange_index(s, i + c2.len(), a3, 0);
    lemma_p_dec_at(s, i + c1.len(), sm.total_issues as nat);
    lemma_p_lit_at(s, i + c2.len(), a3);
    lemma_subrange_index(s, i + c4.len(), a5, 0);
    lemma_p_dec_at(s, i + c3.len(), sm.critical_issues as nat);
    lemma_p_lit_at(s, i + c4.len(), a5);
    lemma_subrange_index(s, i + c6.len(), a7, 0);
    lemma_p_dec_at(s, i + c5.len(), sm.high_issues as nat);
    lemma_p_lit_at(s, i + c6.len(), a7);
    lemma_subrange_index(s, i + c8.len(), a9, 0);
    lemma_p_dec_at(s, i + c7.len(), sm.medium_issues as nat);
    lemma_p_lit_at(s, i + c8.len(), a9);
    lemma_subrange_index(s, i + c10.len(), a11, 0);
    lemma_p_dec_at(s, i + c9.len(), sm.low_issues as nat);
    lemma_p_lit_at(s, i + c10.len(), a11);
    lemma_subrange_index(s, i + c12.len(), a13, 0);
    lemma_p_dec_at(s, i + c11.len(), sm.resolved_issues as nat);
    lemma_p_lit_at(s, i + c12.len(), a13);
    lemma_subrange_index(s, i + c14.len(), a15, 0);
    lemma_p_dec_at(s, i + c13.len(), sm.security_score as nat);
    lemma_p_lit_at(s, i + c14.len(), a15);
}

/// Reading the system metadata where it stands recovers it.
#[verifier::rlimit(100)]
pub proof fn lemma_p_system_at(s: Seq<char>, i: int, os: Seq<char>, hostname: Seq<char>, scan_scope: Seq<char>, scanner_version: Seq<char>)
    requires
        0 <= i,
        ({
            let d = "{\"os\":"@ + quoted(os) + ",\"hostname\":"@ + quoted(hostname)
                + ",\"scan_scope\":"@ + quoted(scan_scope) + ",\"scanner_version\":"@ + quoted(
                scanner_version,
            ) + "}"@;
            &&& i + d.len() <= s.len()
            &&& s.subrange(i, i + d.len()) == d
        }),
    ensures
        ({
            let d = "{\"os\":"@ + quoted(os) + ",\"hostname\":"@ + quoted(hostname)
                + ",\"scan_scope\":"@ + quoted(scan_scope) + ",\"scanner_version\":"@ + quoted(
                scanner_version,
            ) + "}"@;
            p_system(s, i) == Some(
                (DocSystem { os, hostname, scan_scope, scanner_version }, i + d.len()),
            )
        }),
{
    reveal(p_system);
    let a1 = "{\"os\":"@;
    let a2 = quoted(os);
    let a3 = ",\"hostname\":"@;
    let a4 = quoted(hostname);
    let a5 = ",\"scan_scope\":"@;
    let a6 = quoted(scan_scope);
    let a7 = ",\"scanner_version\":"@;
    let a8 = quoted(scanner_version);
    let a9 = "}"@;
    let c1 = a1;
    let c2 = c1 + a2;
    let c3 = c2 + a3;
    let c4 = c3 + a4;
    let c5 = c4 + a5;
    let c6 = c5 + a6;
    let c7 = c6 + a7;
    let c8 = c7 + a8;
    lemma_split_chunk(s, i, c8, a9);
    lemma_split_chunk(s, i, c7, a8);
    lemma_split_chunk(s, i, c6, a7);
    lemma_split_chunk(s, i, c5, a6);
    lemma_split_chunk(s, i, c4, a5);
    lemma_split_chunk(s, i, c3, a4);
    lemma_split_chunk(s, i, c2, a3);
    lemma_split_chunk(s, i, c1, a2);
    lemma_p_lit_at(s, i, a1);
    lemma_p_string_at(s, i + c1.len(), os);
    lemma_p_lit_at(s, i + c2.len(), a3);
    lemma_p_string_at(s, i + c3.len(), hostname);
    lemma_p_lit_at(s, i + c4.len(), a5);
    lemma_p_string_at(s, i + c5.len(), scan_scope);
    lemma_p_lit_at(s, i + c6.len(), a7);
    lemma_p_string_at(s, i + c7.len(), scanner_version);
    lemma_p_lit_at(s, i + c8.len(), a9);
}

/// Round trip: parsing an exported report document reproduces the
/// report's content — its identifier, times, every issue (identifier,
/// category, title, description, severity, status, files, steps and
/// details), the summary counts and score, and the system metadata.
#[verifier::rlimit(100)]
pub proof fn lemma_report_round_trip(r: SecurityReport)
    ensures
        p_report(report_doc(r)) == Some(doc_report_of(r)),
{
    let s = report_doc(r);
    let a1 = "{\"id\":"@;
    let a2 = quoted(r.id@);
    let a3 = ",\"generated_at\":"@;
    let a4 = text::dec_digits(r.generated_at as nat);
    let a5 = ",\"scan_duration\":"@;
    let a6 = text::dec_digits(r.scan_duration as nat);
    let a7 = ",\"issues\":"@;
    let a8 = issues_doc(r.issues@);
    let a9 = ",\"summary\":"@;
    let a10 = summary_doc(r.summary);
    let a11 = ",\"system_info\":"@;
    let a12 = system_doc(r.system_info);
    let a13 = "}"@;
    let c1 = a1;
    let c2 = c1 + a2;
    let c3 = c2 + a3;
    let c4 = c3 + a4;
    let c5 = c4 + a5;
    let c6 = c5 + a6;
    let c7 = c6 + a7;
    let c8 = c7 + a8;
    let c9 = c8 + a9;
    let c10 = c9 + a10;
    let c11 = c10 + a11;
    let c12 = c11 + a12;
    assert(s == c12 + a13);
    assert(s.subrange(0, s.len() as int) =~= s);
    lemma_split_chunk(s, 0, c12, a13);
    lemma_split_chunk(s, 0, c11, a12);
    lemma_split_chunk(s, 0, c10, a11);
    lemma_split_chunk(s, 0, c9, a10);
    lemma_split_chunk(s, 0, c8, a9);
    lemma_split_chunk(s, 0, c7, a8);
    lemma_split_chunk(s, 0, c6, a7);
    lemma_split_chunk(s, 0, c5, a6);
    lemma_split_chunk(s, 0, c4, a5);
    lemma_split_chunk(s, 0, c3, a4);
    lemma_split_chunk(s, 0, c2, a3);
    lemma_split_chunk(s, 0, c1, a2);
    reveal_strlit(",\"scan_duration\":");
    reveal_strlit(",\"issues\":");
    lemma_p_lit_at(s, 0, a1);
    lemma_p_string_at(s, c1.len() as int, r.id@);
    lemma_p_lit_at(s, c2.len() as int, a3);
    lemma_subrange_index(s, c4.len() as int, a5, 0);
    lemma_p_dec_at(s, c3.len() as int, r.generated_at as nat);
    lemma_p_lit_at(s, c4.len() as int, a5);
    lemma_subrange_index(s, c6.len() as int, a7, 0);
    lemma_p_dec_at(s, c5.len() as int, r.scan_duration as nat);
    lemma_p_lit_at(s, c6.len() as int, a7);
    lemma_p_issues_at(s, c7.len() as int, r.issues@);
    lemma_p_lit_at(s, c8.len() as int, a9);
    lemma_p_summary_at(s, c9.len() as int, r.summary);
    lemma_p_lit_at(s, c10.len() as int, a11);
    lemma_p_system_at(
        s,
        c11.len() as int,
        r.system_info.os@,
        r.system_info.hostname@,
        r.system_info.scan_scope@,
        r.system_info.scanner_version@,
    );
    lemma_p_lit_at(s, c12.len() as int, a13);
    assert(r.issues@.map_values(|x: SecurityIssue| doc_issue_of(x)) =~= r.issues@.map_values(
        |i: SecurityIssue| doc_issue_of(i),
    ));
}

/// The properties the round trip guarantees for the summary and the
/// issue identifiers: parsing an exported document yields exactly the
/// report's summary and, in order, its issues' identifiers.
pub proof fn lemma_round_trip_summary_and_ids(r: SecurityReport)
    ensures
        p_report(report_doc(r)) is Some,
        p_report(report_doc(r))->0.summary == r.summary,
        p_report(report_doc(r))->0.issues.len() == r.issues@.len(),
        forall|k: int|
            0 <= k < r.issues@.len() ==> #[trigger] p_report(report_doc(r))->0.issues[k].id
                == r.issues@[k].id@,
{
    lemma_report_round_trip(r);
}

} // verus!
