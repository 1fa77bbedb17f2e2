//! Clipboard monitoring: a bounded rolling history of observed clipboard
//! changes, and the heuristics that classify suspicious activity.
//!
//! Times are wall-clock milliseconds handed in by the caller (the
//! `*_at` functions) or read from the host clock.

use std::collections::VecDeque;
use vstd::prelude::*;

use crate::host;
use crate::text;
use crate::threat_detector::SecurityThreat;
use crate::threat_detector::ThreatLevel;

verus! {

/// Maximum number of clipboard changes kept in the rolling history.
pub const MAX_CLIPBOARD_HISTORY: usize = 100;

/// Two changes closer together than this many milliseconds form a rapid
/// pair.
pub const RAPID_CHANGE_THRESHOLD_MS: u64 = 500;

/// More rapid pairs than this make the activity suspicious.
pub const MAX_RAPID_CHANGES: usize = 5;

/// Kind of content observed on the clipboard.
#[derive(Debug, Clone, Copy, PartialEq, Eq, Structural)]
pub enum ClipboardContentType {
    Text,
    Image,
    File,
    Unknown,
}

/// One observed clipboard change: when it happened, a fingerprint of the
/// content, its length, and its kind.
#[derive(Debug, Clone, Copy, PartialEq, Eq, Structural)]
pub struct ClipboardChange {
    /// Milliseconds since the Unix epoch.
    pub timestamp: u64,
    pub content_hash: u64,
    pub content_length: usize,
    pub content_type: ClipboardContentType,
}

/// The outcome of analysing a history snapshot. Recomputed on every query,
/// never stored.
#[derive(Debug, Clone)]
pub struct ClipboardAnalysis {
    pub is_suspicious: bool,
    pub rapid_changes: usize,
    pub unusual_patterns: Vec<String>,
    pub threat_level: ThreatLevel,
    pub recommendations: Vec<String>,
}

/// Start of the sixty-second window that rapid-pair counting looks at.
pub open spec fn recent_cutoff(now_ms: u64) -> int {
    if now_ms >= 60000 {
        now_ms - 60000
    } else {
        0
    }
}

/// Milliseconds from `prev` to `cur`, zero if `cur` is not after `prev`.
pub open spec fn gap_ms(prev: ClipboardChange, cur: ClipboardChange) -> int {
    if cur.timestamp >= prev.timestamp {
        cur.timestamp - prev.timestamp
    } else {
        0
    }
}

/// A consecutive pair counts as rapid when the later event falls inside
/// the sixty-second window and the two are closer than the threshold.
pub open spec fn is_rapid_pair(prev: ClipboardChange, cur: ClipboardChange, now_ms: u64) -> bool {
    cur.timestamp > recent_cutoff(now_ms) && gap_ms(prev, cur) < RAPID_CHANGE_THRESHOLD_MS
}

/// Number of rapid consecutive pairs in `h` as seen at time `now_ms`.
pub open spec fn rapid_count(h: Seq<ClipboardChange>, now_ms: u64) -> int
    decreases h.len(),
{
    if h.len() < 2 {
        0
    } else {
        rapid_count(h.drop_last(), now_ms) + if is_rapid_pair(h[h.len() - 2], h.last(), now_ms) {
            1int
        } else {
            0int
        }
    }
}

/// A history of at most one event has no rapid pair.
pub proof fn lemma_rapid_count_single(h: Seq<ClipboardChange>, now_ms: u64)
    requires
        h.len() <= 1,
    ensures
        rapid_count(h, now_ms) == 0,
{
}

/// Two events at least the threshold apart form no rapid pair.
pub proof fn lemma_rapid_count_spaced(h: Seq<ClipboardChange>, now_ms: u64)
    requires
        h.len() == 2,
        h[0].timestamp + RAPID_CHANGE_THRESHOLD_MS <= h[1].timestamp,
    ensures
        rapid_count(h, now_ms) == 0,
{
    assert(h.drop_last().len() == 1);
    lemma_rapid_count_single(h.drop_last(), now_ms);
}

/// The most recent `n` events of `h` (all of `h` when it is shorter).
pub open spec fn last_n(h: Seq<ClipboardChange>, n: int) -> Seq<ClipboardChange> {
    if h.len() <= n {
        h
    } else {
        h.skip(h.len() - n)
    }
}

/// Sum of the content lengths in `s`.
pub open spec fn sum_len(s: Seq<ClipboardChange>) -> int
    decreases s.len(),
{
    if s.len() == 0 {
        0
    } else {
        sum_len(s.drop_last()) + s.last().content_length
    }
}

/// Largest content length in `s`, zero when `s` is empty.
pub open spec fn max_len(s: Seq<ClipboardChange>) -> int
    decreases s.len(),
{
    if s.len() == 0 {
        0
    } else if s.last().content_length >= max_len(s.drop_last()) {
        s.last().content_length as int
    } else {
        max_len(s.drop_last())
    }
}

/// Number of events in `s` whose fingerprint is `x`.
pub open spec fn count_hash(s: Seq<ClipboardChange>, x: u64) -> int
    decreases s.len(),
{
    if s.len() == 0 {
        0
    } else {
        count_hash(s.drop_last(), x) + if s.last().content_hash == x {
            1int
        } else {
            0int
        }
    }
}

/// Number of events in `s` whose content kind is `File`.
pub open spec fn count_file(s: Seq<ClipboardChange>) -> int
    decreases s.len(),
{
    if s.len() == 0 {
        0
    } else {
        count_file(s.drop_last()) + if s.last().content_type == ClipboardContentType::File {
            1int
        } else {
            0int
        }
    }
}

/// An event with fingerprint `x` occurs in `s` whenever its count is
/// positive.
pub proof fn lemma_count_hash_pos(s: Seq<ClipboardChange>, x: u64)
    requires
        count_hash(s, x) > 0,
    ensures
        exists|j: int| 0 <= j < s.len() && s[j].content_hash == x,
    decreases s.len(),
{
    if s.last().content_hash == x {
        assert(s[s.len() - 1].content_hash == x);
    } else {
        lemma_count_hash_pos(s.drop_last(), x);
        let j = choose|j: int| 0 <= j < s.drop_last().len() && s.drop_last()[j].content_hash == x;
        assert(s[j].content_hash == x);
    }
}

/// The single largest of the most recent ten events is more than ten times
/// the mean length over the whole history and above an absolute floor.
pub open spec fn large_content_flag(h: Seq<ClipboardChange>) -> bool {
    h.len() > 0 && max_len(last_n(h, 10)) > (sum_len(h) / h.len() as int) * 10 && max_len(
        last_n(h, 10),
    ) > 10000
}

/// Some fingerprint recurs more than five times among the most recent
/// twenty events.
pub open spec fn repetitive_flag(h: Seq<ClipboardChange>) -> bool {
    exists|x: u64| count_hash(last_n(h, 20), x) > 5
}

/// More than half of the most recent twenty events are file content,
/// gated on having more than ten samples.
pub open spec fn file_skew_flag(h: Seq<ClipboardChange>) -> bool {
    last_n(h, 20).len() > 10 && count_file(last_n(h, 20)) > last_n(h, 20).len() as int / 2
}

/// The ordered pattern tags of a history snapshot.
pub open spec fn patterns_spec(h: Seq<ClipboardChange>) -> Seq<Seq<char>> {
    (if large_content_flag(h) {
        seq!["large_content_changes"@]
    } else {
        Seq::empty()
    }) + (if repetitive_flag(h) {
        seq!["repetitive_content"@]
    } else {
        Seq::empty()
    }) + (if file_skew_flag(h) {
        seq!["excessive_file_clipboard_usage"@]
    } else {
        Seq::empty()
    })
}

/// The severity derived from a history snapshot at time `now_ms`.
pub open spec fn analysis_level(h: Seq<ClipboardChange>, now_ms: u64) -> ThreatLevel {
    if rapid_count(h, now_ms) > 2 * MAX_RAPID_CHANGES {
        ThreatLevel::High
    } else if rapid_count(h, now_ms) > MAX_RAPID_CHANGES {
        ThreatLevel::Medium
    } else if patterns_spec(h).len() > 0 {
        ThreatLevel::Low
    } else {
        ThreatLevel::NoThreat
    }
}

/// The recommendations derived from a history snapshot at time `now_ms`.
pub open spec fn recommendations_spec(h: Seq<ClipboardChange>, now_ms: u64) -> Seq<Seq<char>> {
    (if rapid_count(h, now_ms) > MAX_RAPID_CHANGES {
        seq![
            "Consider checking running processes for clipboard manipulation software"@,
            "Verify recent application installations"@,
        ]
    } else {
        Seq::empty()
    }) + (if large_content_flag(h) {
        seq!["Monitor for applications that might be injecting large amounts of data"@]
    } else {
        Seq::empty()
    })
}

/// The analysis `r` is what a snapshot of `m` taken at time `now_ms`
/// yields: no findings while disabled or empty, otherwise the rapid-pair
/// count, pattern tags, severity and recommendations of the heuristics.
pub open spec fn analysis_matches(m: ClipboardMonitor, now_ms: u64, r: ClipboardAnalysis) -> bool {
    if !m.enabled || m.history@.len() == 0 {
        &&& !r.is_suspicious
        &&& r.rapid_changes == 0
        &&& r.unusual_patterns@.len() == 0
        &&& r.threat_level == ThreatLevel::NoThreat
        &&& r.recommendations@.len() == 0
    } else {
        &&& r.rapid_changes as int == rapid_count(m.history@, now_ms)
        &&& r.unusual_patterns.deep_view() == patterns_spec(m.history@)
        &&& r.is_suspicious == (rapid_count(m.history@, now_ms) > MAX_RAPID_CHANGES
            || patterns_spec(m.history@).len() > 0)
        &&& r.threat_level == analysis_level(m.history@, now_ms)
        &&& r.recommendations.deep_view() == recommendations_spec(m.history@, now_ms)
    }
}

/// A snapshot of `m` taken at `now_ms` is suspicious: the monitor is
/// enabled, has history, and the heuristics fire.
pub open spec fn suspicious_spec(m: ClipboardMonitor, now_ms: u64) -> bool {
    m.enabled && m.history@.len() > 0 && (rapid_count(m.history@, now_ms) > MAX_RAPID_CHANGES
        || patterns_spec(m.history@).len() > 0)
}

/// The description of a clipboard threat derived at `now_ms`.
pub open spec fn threat_desc_spec(h: Seq<ClipboardChange>, now_ms: u64) -> Seq<char> {
    if rapid_count(h, now_ms) > MAX_RAPID_CHANGES {
        "Detected "@ + text::dec_digits(rapid_count(h, now_ms) as nat)
            + " rapid clipboard changes, which may indicate clipboard hijacking malware"@
    } else {
        "Detected unusual clipboard patterns: "@ + text::join_seqs(patterns_spec(h), ", "@)
    }
}

/// The threat `t` is the one a suspicious snapshot of `m` taken at
/// `now_ms` generates.
pub open spec fn threat_matches(m: ClipboardMonitor, now_ms: u64, t: SecurityThreat) -> bool {
    &&& t.id@ == "clipboard-"@ + text::dec_digits(now_ms as nat)
    &&& t.threat_type@ == "Clipboard Hijacking"@
    &&& t.description@ == threat_desc_spec(m.history@, now_ms)
    &&& t.threat_level == analysis_level(m.history@, now_ms)
    &&& t.confidence == (if rapid_count(m.history@, now_ms) > 2 * MAX_RAPID_CHANGES {
        900u32
    } else {
        600u32
    })
    &&& t.affected_resources.deep_view() == seq!["System Clipboard"@]
    &&& t.recommendations.deep_view() == recommendations_spec(m.history@, now_ms)
    &&& t.detected_at == now_ms
    &&& t.wf()
}

/// What `check_for_threats` may return for a snapshot taken at `now_ms`:
/// a threat exactly when the snapshot is suspicious.
pub open spec fn check_matches(m: ClipboardMonitor, now_ms: u64, r: Option<SecurityThreat>) -> bool {
    &&& (r is Some) == suspicious_spec(m, now_ms)
    &&& r is Some ==> threat_matches(m, now_ms, r->0)
}

/// Number of events whose timestamp lies within the five minutes before
/// `now_ms`.
pub open spec fn count_recent(h: Seq<ClipboardChange>, now_ms: u64) -> int
    decreases h.len(),
{
    if h.len() == 0 {
        0
    } else {
        count_recent(h.drop_last(), now_ms) + if now_ms < h.last().timestamp + 300000 {
            1int
        } else {
            0int
        }
    }
}

/// The one-line activity summary of a snapshot of `m` taken at `now_ms`.
pub open spec fn activity_summary_spec(m: ClipboardMonitor, now_ms: u64) -> Seq<char> {
    if m.history@.len() == 0 {
        "No clipboard activity recorded"@
    } else {
        "\u{1f4cb} Clipboard Activity: "@ + text::dec_digits(
            count_recent(m.history@, now_ms) as nat,
        ) + " changes in last 5 minutes. Rapid changes: "@ + text::dec_digits(
            (if m.enabled {
                rapid_count(m.history@, now_ms)
            } else {
                0int
            }) as nat,
        ) + ". Status: "@ + (if suspicious_spec(m, now_ms) {
            "\u{26a0}\u{fe0f} SUSPICIOUS"@
        } else {
            "\u{2705} Normal"@
        })
    }
}

/// Bounded rolling history of clipboard changes with an enable switch.
pub struct ClipboardMonitor {
    pub history: VecDeque<ClipboardChange>,
    pub enabled: bool,
    pub last_content_hash: Option<u64>,
}

impl ClipboardMonitor {
    /// The history never exceeds its capacity.
    pub open spec fn wf(self) -> bool {
        self.history@.len() <= MAX_CLIPBOARD_HISTORY
    }

    pub fn new() -> (r: ClipboardMonitor)
        ensures
            r.history@.len() == 0,
            r.enabled,
            r.last_content_hash is None,
            r.wf(),
    {
        ClipboardMonitor {
            history: VecDeque::with_capacity(MAX_CLIPBOARD_HISTORY),
            enabled: true,
            last_content_hash: None,
        }
    }

    pub fn enable(&mut self)
        ensures
            final(self).enabled,
            final(self).history == old(self).history,
            final(self).last_content_hash == old(self).last_content_hash,
    {
        self.enabled = true;
    }

    pub fn disable(&mut self)
        ensures
            !final(self).enabled,
            final(self).history == old(self).history,
            final(self).last_content_hash == old(self).last_content_hash,
    {
        self.enabled = false;
    }

    pub fn is_enabled(&self) -> (r: bool)
        ensures
            r == self.enabled,
    {
        self.enabled
    }

    /// Read-only ordered view of the current history, oldest first.
    pub fn history(&self) -> (r: &VecDeque<ClipboardChange>)
        ensures
            r@ == self.history@,
    {
        &self.history
    }

    /// Records a clipboard change observed at `now_ms`. A no-op while the
    /// monitor is disabled; evicts the oldest event first when the history
    /// is at capacity.
    pub fn record_change_at(
        &mut self,
        content_hash: u64,
        content_length: usize,
        content_type: ClipboardContentType,
        now_ms: u64,
    )
        requires
            old(self).wf(),
        ensures
            !old(self).enabled ==> *final(self) == *old(self),
            old(self).enabled ==> {
                let ev = ClipboardChange { timestamp: now_ms, content_hash, content_length, content_type };
                &&& final(self).history@ == (if old(self).history@.len() >= MAX_CLIPBOARD_HISTORY {
                    old(self).history@.drop_first()
                } else {
                    old(self).history@
                }).push(ev)
                &&& final(self).last_content_hash == Some(content_hash)
                &&& final(self).enabled
            },
            final(self).wf(),
    {
        if !self.enabled {
            return ;
        }
        let change = ClipboardChange { timestamp: now_ms, content_hash, content_length, content_type };
        if self.history.len() >= MAX_CLIPBOARD_HISTORY {
            let _evicted = self.history.pop_front();
        }
        self.history.push_back(change);
        self.last_content_hash = Some(content_hash);
        proof {
            if old(self).enabled && old(self).history@.len() >= MAX_CLIPBOARD_HISTORY {
                assert(old(self).history@.subrange(1, old(self).history@.len() as int)
                    =~= old(self).history@.drop_first());
            }
        }
    }

    /// Records a clipboard change stamped with the current wall-clock
    /// time. Everything but the exact timestamp is pinned.
    pub fn record_change(
        &mut self,
        content_hash: u64,
        content_length: usize,
        content_type: ClipboardContentType,
    )
        requires
            old(self).wf(),
        ensures
            !old(self).enabled ==> *final(self) == *old(self),
            old(self).enabled ==> {
                let h = final(self).history@;
                &&& h.len() > 0
                &&& h.drop_last() == (if old(self).history@.len() >= MAX_CLIPBOARD_HISTORY {
                    old(self).history@.drop_first()
                } else {
                    old(self).history@
                })
                &&& h.last().content_hash == content_hash
                &&& h.last().content_length == content_length
                &&& h.last().content_type == content_type
                &&& final(self).last_content_hash == Some(content_hash)
                &&& final(self).enabled
            },
            final(self).wf(),
    {
        let now = host::now_millis();
        self.record_change_at(content_hash, content_length, content_type, now);
        proof {
            if old(self).enabled {
                assert(final(self).history@.drop_last() =~= (
                if old(self).history@.len() >= MAX_CLIPBOARD_HISTORY {
                    old(self).history@.drop_first()
                } else {
                    old(self).history@
                }));
            }
        }
    }

    /// Counts the rapid consecutive pairs in the history as seen at time
    /// `now_ms`.
    pub fn count_rapid_changes(&self, now_ms: u64) -> (r: usize)
        ensures
            r as int == rapid_count(self.history@, now_ms),
    {
        let n: usize = self.history.len();
        if n < 2 {
            proof {
                lemma_rapid_count_single(self.history@, now_ms);
            }
            return 0;
        }
        let cutoff: u64 = if now_ms >= 60000 {
            now_ms - 60000
        } else {
            0
        };
        let mut count: usize = 0;
        let mut i: usize = 1;
        proof {
            assert(self.history@.take(1).len() == 1);
        }
        while i < n
            invariant
                n == self.history@.len(),
                1 <= i <= n,
                count < i,
                cutoff as int == recent_cutoff(now_ms),
                count as int == rapid_count(self.history@.take(i as int), now_ms),
            decreases n - i,
        {
            let prev = self.history[i - 1];
            let cur = self.history[i];
            let gap: u64 = if cur.timestamp >= prev.timestamp {
                cur.timestamp - prev.timestamp
            } else {
                0
            };
            proof {
                let t = self.history@.take(i + 1);
                assert(t.drop_last() =~= self.history@.take(i as int));
                assert(t.last() == cur);
                assert(t[t.len() - 2] == prev);
            }
            if cur.timestamp > cutoff && gap < RAPID_CHANGE_THRESHOLD_MS {
                count = count + 1;
            }
            i = i + 1;
        }
        proof {
            assert(self.history@.take(n as int) =~= self.history@);
        }
        count
    }

    /// Detects unusual patterns in the history: a size outlier among the
    /// most recent ten events, a fingerprint repeated more than five times
    /// among the most recent twenty, and a skew towards file content.
    pub fn detect_unusual_patterns(&self) -> (r: Vec<String>)
        ensures
            r.deep_view() == patterns_spec(self.history@),
    {
        let mut patterns: Vec<String> = Vec::new();
        let n: usize = self.history.len();
        if n == 0 {
            proof {
                assert(patterns.deep_view() =~~= patterns_spec(self.history@));
            }
            return patterns;
        }
        let large = self.has_large_content(n);
        let repetitive = self.has_repetitive_content(n);
        let file_skew = self.has_file_skew(n);
        if large {
            patterns.push("large_content_changes".to_owned());
        }
        if repetitive {
            patterns.push("repetitive_content".to_owned());
        }
        if file_skew {
            patterns.push("excessive_file_clipboard_usage".to_owned());
        }
        proof {
            assert(patterns.deep_view() =~~= patterns_spec(self.history@));
        }
        patterns
    }

    /// Size-outlier test over the most recent ten events, against the mean
    /// length of the whole (non-empty) history.
    fn has_large_content(&self, n: usize) -> (r: bool)
        requires
            n == self.history@.len(),
            n > 0,
        ensures
            r == large_content_flag(self.history@),
    {
        let mut sum: u128 = 0;
        let mut i: usize = 0;
        while i < n
            invariant
                n == self.history@.len(),
                i <= n,
                sum as int == sum_len(self.history@.take(i as int)),
                sum <= (i as u128) * 0x1_0000_0000_0000_0000,
            decreases n - i,
        {
            proof {
                let t = self.history@.take(i + 1);
                assert(t.drop_last() =~= self.history@.take(i as int));
                assert(t.last() == self.history@[i as int]);
            }
            sum = sum + (self.history[i].content_length as u128);
            i = i + 1;
        }
        proof {
            assert(self.history@.take(n as int) =~= self.history@);
        }
        let avg: u128 = sum / (n as u128);
        proof {
            assert(avg <= 0x1_0000_0000_0000_0000) by (nonlinear_arith)
                requires
                    avg == sum / (n as u128),
                    sum <= (n as u128) * 0x1_0000_0000_0000_0000,
                    n > 0,
            ;
        }
        let start: usize = if n <= 10 {
            0
        } else {
            n - 10
        };
        let ghost w = last_n(self.history@, 10);
        proof {
            assert(w =~= self.history@.skip(start as int));
        }
        let mut largest: usize = 0;
        let mut j: usize = start;
        while j < n
            invariant
                n == self.history@.len(),
                start <= j <= n,
                w == self.history@.skip(start as int),
                largest as int == max_len(self.history@.skip(start as int).take(
                    j - start as int,
                )),
            decreases n - j,
        {
            proof {
                let s = self.history@.skip(start as int);
                let t = s.take(j - start + 1);
                assert(t.drop_last() =~= s.take(j - start as int));
                assert(t.last() == self.history@[j as int]);
            }
            let len_j: usize = self.history[j].content_length;
            if len_j > largest {
                largest = len_j;
            }
            j = j + 1;
        }
        proof {
            let s = self.history@.skip(start as int);
            assert(s.take(s.len() as int) =~= s);
            assert(max_len(w) == largest as int);
        }
        (largest as u128) > avg * 10 && largest > 10000
    }

    /// Repetition test: some fingerprint occurs more than five times among
    /// the most recent twenty events.
    fn has_repetitive_content(&self, n: usize) -> (r: bool)
        requires
            n == self.history@.len(),
        ensures
            r == repetitive_flag(self.history@),
    {
        let start: usize = if n <= 20 {
            0
        } else {
            n - 20
        };
        let ghost w = last_n(self.history@, 20);
        proof {
            assert(w =~= self.history@.skip(start as int));
        }
        let m: usize = n - start;
        let mut i: usize = 0;
        while i < m
            invariant
                n == self.history@.len(),
                start == (if n <= 20 { 0int } else { n - 20 }),
                m == n - start,
                i <= m,
                w == self.history@.skip(start as int),
                w == last_n(self.history@, 20),
                w.len() == m,
                forall|k: int| 0 <= k < i ==> count_hash(w, w[k].content_hash) <= 5,
            decreases m - i,
        {
            let x: u64 = self.history[start + i].content_hash;
            proof {
                assert(w[i as int] == self.history@[start + i]);
            }
            let mut cnt: usize = 0;
            let mut j: usize = 0;
            while j < m
                invariant
                    n == self.history@.len(),
                    start == (if n <= 20 { 0int } else { n - 20 }),
                    m == n - start,
                    j <= m,
                    cnt <= j,
                    w == self.history@.skip(start as int),
                    w.len() == m,
                    cnt as int == count_hash(w.take(j as int), x),
                decreases m - j,
            {
                proof {
                    let t = w.take(j + 1);
                    assert(t.drop_last() =~= w.take(j as int));
                    assert(t.last() == w[j as int]);
                    assert(w[j as int] == self.history@[start + j]);
                }
                if self.history[start + j].content_hash == x {
                    cnt = cnt + 1;
                }
                j = j + 1;
            }
            proof {
                assert(w.take(m as int) =~= w);
            }
            if cnt > 5 {
                proof {
                    assert(count_hash(last_n(self.history@, 20), x) > 5);
                }
                return true;
            }
            i = i + 1;
        }
        proof {
            assert forall|x: u64| count_hash(last_n(self.history@, 20), x) <= 5 by {
                if count_hash(w, x) > 5 {
                    lemma_count_hash_pos(w, x);
                }
            }
        }
        false
    }

    /// Analyses the history as seen at time `now_ms`. While the monitor
    /// is disabled or has no history the analysis is empty.
    pub fn analyze_activity_at(&self, now_ms: u64) -> (r: ClipboardAnalysis)
        ensures
            analysis_matches(*self, now_ms, r),
    {
        let n: usize = self.history.len();
        if !self.enabled || n == 0 {
            return ClipboardAnalysis {
                is_suspicious: false,
                rapid_changes: 0,
                unusual_patterns: Vec::new(),
                threat_level: ThreatLevel::NoThreat,
                recommendations: Vec::new(),
            };
        }
        let rapid_changes = self.count_rapid_changes(now_ms);
        let unusual_patterns = self.detect_unusual_patterns();
        let is_suspicious = rapid_changes > MAX_RAPID_CHANGES || unusual_patterns.len() > 0;
        let threat_level = if rapid_changes > MAX_RAPID_CHANGES * 2 {
            ThreatLevel::High
        } else if rapid_changes > MAX_RAPID_CHANGES {
            ThreatLevel::Medium
        } else if unusual_patterns.len() > 0 {
            ThreatLevel::Low
        } else {
            ThreatLevel::NoThreat
        };
        let mut recommendations: Vec<String> = Vec::new();
        if rapid_changes > MAX_RAPID_CHANGES {
            recommendations.push(
                "Consider checking running processes for clipboard manipulation software".to_owned(),
            );
            recommendations.push("Verify recent application installations".to_owned());
        }
        if self.has_large_content(n) {
            recommendations.push(
                "Monitor for applications that might be injecting large amounts of data".to_owned(),
            );
        }
        proof {
            assert(recommendations.deep_view() =~~= recommendations_spec(
                self.history@,
                now_ms,
            ));
        }
        ClipboardAnalysis { is_suspicious, rapid_changes, unusual_patterns, threat_level, recommendations }
    }

    /// Analyses the history as seen at the current wall-clock time.
    pub fn analyze_activity(&self) -> (r: ClipboardAnalysis)
        ensures
            exists|now_ms: u64| analysis_matches(*self, now_ms, r),
            (self.enabled && self.history@.len() > 0) ==> r.unusual_patterns.deep_view()
                == patterns_spec(self.history@),
    {
        let now = host::now_millis();
        let r = self.analyze_activity_at(now);
        proof {
            assert(analysis_matches(*self, now, r));
        }
        r
    }

    /// Turns a suspicious snapshot taken at `now_ms` into a threat record;
    /// `None` when the activity is not suspicious.
    pub fn check_for_threats_at(&self, now_ms: u64) -> (r: Option<SecurityThreat>)
        ensures
            check_matches(*self, now_ms, r),
    {
        let analysis = self.analyze_activity_at(now_ms);
        if !analysis.is_suspicious {
            return None;
        }
        let description = if analysis.rapid_changes > MAX_RAPID_CHANGES {
            let mut d = "Detected ".to_owned();
            let cnt = text::u64_to_dec(analysis.rapid_changes as u64);
            d.append(cnt.as_str());
            d.append(" rapid clipboard changes, which may indicate clipboard hijacking malware");
            d
        } else {
            let mut d = "Detected unusual clipboard patterns: ".to_owned();
            let joined = text::join_with(&analysis.unusual_patterns, ", ");
            d.append(joined.as_str());
            d
        };
        let mut id = "clipboard-".to_owned();
        let ms = text::u64_to_dec(now_ms);
        id.append(ms.as_str());
        let mut affected_resources: Vec<String> = Vec::new();
        affected_resources.push("System Clipboard".to_owned());
        let confidence: u32 = if analysis.rapid_changes > MAX_RAPID_CHANGES * 2 {
            900
        } else {
            600
        };
        let threat = SecurityThreat {
            id,
            threat_type: "Clipboard Hijacking".to_owned(),
            description,
            threat_level: analysis.threat_level,
            confidence,
            affected_resources,
            recommendations: analysis.recommendations,
            detected_at: now_ms,
        };
        proof {
            assert(threat.affected_resources.deep_view() =~~= seq!["System Clipboard"@]);
            assert(threat.description@ == threat_desc_spec(self.history@, now_ms));
        }
        Some(threat)
    }

    /// Turns a suspicious snapshot taken at the current wall-clock time
    /// into a threat record.
    pub fn check_for_threats(&self) -> (r: Option<SecurityThreat>)
        ensures
            exists|now_ms: u64| check_matches(*self, now_ms, r),
    {
        let now = host::now_millis();
        let r = self.check_for_threats_at(now);
        proof {
            assert(check_matches(*self, now, r));
        }
        r
    }

    /// One line summarising recent activity as seen at time `now_ms`.
    pub fn get_activity_summary_at(&self, now_ms: u64) -> (r: String)
        ensures
            r@ == activity_summary_spec(*self, now_ms),
    {
        let n: usize = self.history.len();
        if n == 0 {
            return "No clipboard activity recorded".to_owned();
        }
        let mut recent: usize = 0;
        let mut i: usize = 0;
        while i < n
            invariant
                n == self.history@.len(),
                i <= n,
                recent <= i,
                recent as int == count_recent(self.history@.take(i as int), now_ms),
            decreases n - i,
        {
            proof {
                let t = self.history@.take(i + 1);
                assert(t.drop_last() =~= self.history@.take(i as int));
                assert(t.last() == self.history@[i as int]);
            }
            let c = self.history[i];
            if now_ms >= c.timestamp {
                if now_ms - c.timestamp < 300000 {
                    recent = recent + 1;
                }
            } else {
                recent = recent + 1;
            }
            i = i + 1;
        }
        proof {
            assert(self.history@.take(n as int) =~= self.history@);
        }
        let analysis = self.analyze_activity_at(now_ms);
        let mut out = "\u{1f4cb} Clipboard Activity: ".to_owned();
        let d1 = text::u64_to_dec(recent as u64);
        out.append(d1.as_str());
        out.append(" changes in last 5 minutes. Rapid changes: ");
        let d2 = text::u64_to_dec(analysis.rapid_changes as u64);
        out.append(d2.as_str());
        out.append(". Status: ");
        if analysis.is_suspicious {
            out.append("\u{26a0}\u{fe0f} SUSPICIOUS");
        } else {
            out.append("\u{2705} Normal");
        }
        out
    }

    /// One line summarising recent activity at the current wall-clock
    /// time.
    pub fn get_activity_summary(&self) -> (r: String)
        ensures
            exists|now_ms: u64| r@ == activity_summary_spec(*self, now_ms),
    {
        let now = host::now_millis();
        let r = self.get_activity_summary_at(now);
        proof {
            assert(r@ == activity_summary_spec(*self, now));
        }
        r
    }

    /// Kind-skew test: more than half of the most recent twenty events are
    /// file content, gated on more than ten samples.
    fn has_file_skew(&self, n: usize) -> (r: bool)
        requires
            n == self.history@.len(),
        ensures
            r == file_skew_flag(self.history@),
    {
        let start: usize = if n <= 20 {
            0
        } else {
            n - 20
        };
        let ghost w = last_n(self.history@, 20);
        proof {
            assert(w =~= self.history@.skip(start as int));
        }
        let m: usize = n - start;
        let mut cnt: usize = 0;
        let mut j: usize = 0;
        while j < m
            invariant
                n == self.history@.len(),
                start == (if n <= 20 { 0int } else { n - 20 }),
                m == n - start,
                j <= m,
                cnt <= j,
                w == self.history@.skip(start as int),
                w.len() == m,
                cnt as int == count_file(w.take(j as int)),
            decreases m - j,
        {
            proof {
                let t = w.take(j + 1);
                assert(t.drop_last() =~= w.take(j as int));
                assert(t.last() == w[j as int]);
                assert(w[j as int] == self.history@[start + j]);
            }
            let is_file = match self.history[start + j].content_type {
                ClipboardContentType::File => true,
                _ => false,
            };
            if is_file {
                cnt = cnt + 1;
            }
            j = j + 1;
        }
        proof {
            assert(w.take(m as int) =~= w);
        }
        m > 10 && cnt > m / 2
    }
}

} // verus!
