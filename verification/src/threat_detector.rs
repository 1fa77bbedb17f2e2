//! Core threat types: severity levels, detected threats, and the store that
//! partitions them into active and resolved sets.

use vstd::prelude::*;

use crate::host;
use crate::text;

verus! {

/// Severity of a detected threat, totally ordered from `None` (benign)
/// up to `Critical`.
#[derive(Debug, Clone, Copy, PartialEq, Eq, Structural)]
pub enum ThreatLevel {
    NoThreat,
    Low,
    Medium,
    High,
    Critical,
}

impl ThreatLevel {
    /// Position of this level in the total order `None < Low < Medium <
    /// High < Critical`.
    pub open spec fn rank_spec(self) -> int {
        match self {
            ThreatLevel::NoThreat => 0,
            ThreatLevel::Low => 1,
            ThreatLevel::Medium => 2,
            ThreatLevel::High => 3,
            ThreatLevel::Critical => 4,
        }
    }

    /// Numeric rank realising the total order on severity levels.
    pub fn rank(&self) -> (r: u8)
        ensures
            r as int == self.rank_spec(),
    {
        match self {
            ThreatLevel::NoThreat => 0,
            ThreatLevel::Low => 1,
            ThreatLevel::Medium => 2,
            ThreatLevel::High => 3,
            ThreatLevel::Critical => 4,
        }
    }

    /// The display name of this level.
    pub open spec fn as_str_spec(self) -> Seq<char> {
        match self {
            ThreatLevel::NoThreat => "None"@,
            ThreatLevel::Low => "Low"@,
            ThreatLevel::Medium => "Medium"@,
            ThreatLevel::High => "High"@,
            ThreatLevel::Critical => "Critical"@,
        }
    }

    pub fn as_str(&self) -> (r: &'static str)
        ensures
            r@ == self.as_str_spec(),
    {
        match self {
            ThreatLevel::NoThreat => "None",
            ThreatLevel::Low => "Low",
            ThreatLevel::Medium => "Medium",
            ThreatLevel::High => "High",
            ThreatLevel::Critical => "Critical",
        }
    }

    /// The status glyph shown next to this level.
    pub open spec fn emoji_spec(self) -> Seq<char> {
        match self {
            ThreatLevel::NoThreat => "\u{2705}"@,
            ThreatLevel::Low => "\u{1f7e8}"@,
            ThreatLevel::Medium => "\u{1f7e7}"@,
            ThreatLevel::High => "\u{1f534}"@,
            ThreatLevel::Critical => "\u{1f6a8}"@,
        }
    }

    pub fn emoji(&self) -> (r: &'static str)
        ensures
            r@ == self.emoji_spec(),
    {
        match self {
            ThreatLevel::NoThreat => "\u{2705}",
            ThreatLevel::Low => "\u{1f7e8}",
            ThreatLevel::Medium => "\u{1f7e7}",
            ThreatLevel::High => "\u{1f534}",
            ThreatLevel::Critical => "\u{1f6a8}",
        }
    }
}

/// An input rejected at the ingestion boundary.
#[derive(Debug, Clone, Copy, PartialEq, Eq, Structural)]
pub enum ValidationError {
    /// A confidence value outside the accepted range (0..=1000
    /// thousandths).
    ConfidenceOutOfRange,
}

/// The identifier derived for a threat of the given category detected at
/// the given time: the category's slug, a hyphen, and the time in decimal.
pub open spec fn threat_id_seq(threat_type: Seq<char>, now_ms: nat) -> Seq<char> {
    text::slug_seq(threat_type) + "-"@ + text::dec_digits(now_ms)
}

/// A detected security concern.
#[derive(Debug, Clone)]
pub struct SecurityThreat {
    pub id: String,
    pub threat_type: String,
    pub description: String,
    pub threat_level: ThreatLevel,
    /// Confidence in the detection, in thousandths of certainty (0..=1000).
    pub confidence: u32,
    pub affected_resources: Vec<String>,
    pub recommendations: Vec<String>,
    /// Detection time, in milliseconds since the Unix epoch.
    pub detected_at: u64,
}

impl SecurityThreat {
    /// The confidence is within range.
    pub open spec fn wf(self) -> bool {
        self.confidence <= 1000
    }

    /// Builds a threat detected at `now_ms` with empty resource and
    /// recommendation lists.
    pub fn new_at(
        threat_type: String,
        description: String,
        threat_level: ThreatLevel,
        confidence: u32,
        now_ms: u64,
    ) -> (r: SecurityThreat)
        requires
            confidence <= 1000,
        ensures
            r.id@ == threat_id_seq(threat_type@, now_ms as nat),
            r.threat_type == threat_type,
            r.description == description,
            r.threat_level == threat_level,
            r.confidence == confidence,
            r.affected_resources@ =~= Seq::<String>::empty(),
            r.recommendations@ =~= Seq::<String>::empty(),
            r.detected_at == now_ms,
            r.wf(),
    {
        let mut id = text::to_slug(threat_type.as_str());
        id.append("-");
        let ms = text::u64_to_dec(now_ms);
        id.append(ms.as_str());
        SecurityThreat {
            id,
            threat_type,
            description,
            threat_level,
            confidence,
            affected_resources: Vec::new(),
            recommendations: Vec::new(),
            detected_at: now_ms,
        }
    }

    /// Builds a threat stamped with the current wall-clock time.
    pub fn new(
        threat_type: String,
        description: String,
        threat_level: ThreatLevel,
        confidence: u32,
    ) -> (r: SecurityThreat)
        requires
            confidence <= 1000,
        ensures
            r.threat_type == threat_type,
            r.description == description,
            r.threat_level == threat_level,
            r.confidence == confidence,
            r.affected_resources@ =~= Seq::<String>::empty(),
            r.recommendations@ =~= Seq::<String>::empty(),
            r.id@ == threat_id_seq(threat_type@, r.detected_at as nat),
            r.wf(),
    {
        let now = host::now_millis();
        SecurityThreat::new_at(threat_type, description, threat_level, confidence, now)
    }

    pub fn add_affected_resource(&mut self, resource: String)
        ensures
            final(self).affected_resources@ == old(self).affected_resources@.push(resource),
            final(self).id == old(self).id,
            final(self).threat_type == old(self).threat_type,
            final(self).description == old(self).description,
            final(self).threat_level == old(self).threat_level,
            final(self).confidence == old(self).confidence,
            final(self).recommendations == old(self).recommendations,
            final(self).detected_at == old(self).detected_at,
    {
        self.affected_resources.push(resource);
    }

    /// The block of bulleted recommendation lines shown under a threat,
    /// empty when there are no recommendations.
    pub open spec fn recommendations_block_spec(rs: Seq<Seq<char>>) -> Seq<char> {
        if rs.len() == 0 {
            Seq::empty()
        } else {
            "\u{1f4a1} Recommendations:\n"@ + text::join_seqs(
                rs.map_values(|r: Seq<char>| "  \u{2022} "@ + r),
                "\n"@,
            )
        }
    }

    /// The full display rendering of a threat: glyph, category, level,
    /// confidence as a whole percentage (rounded half up), description,
    /// and the recommendation block.
    pub open spec fn display_spec(t: SecurityThreat) -> Seq<char> {
        t.threat_level.emoji_spec() + " "@ + t.threat_type@ + " ["@ + t.threat_level.as_str_spec()
            + "] Confidence: "@ + text::dec_digits((((t.confidence as int) + 5) / 10) as nat)
            + "%\n"@ + t.description@ + "\n"@ + SecurityThreat::recommendations_block_spec(
            t.recommendations.deep_view(),
        )
    }

    /// Renders the threat for display.
    pub fn format_for_display(&self) -> (r: String)
        ensures
            r@ == SecurityThreat::display_spec(*self),
    {
        let mut out = self.threat_level.emoji().to_owned();
        out.append(" ");
        out.append(self.threat_type.as_str());
        out.append(" [");
        out.append(self.threat_level.as_str());
        out.append("] Confidence: ");
        let pct = text::u64_to_dec(((self.confidence as u64) + 5) / 10);
        out.append(pct.as_str());
        out.append("%\n");
        out.append(self.description.as_str());
        out.append("\n");
        if self.recommendations.len() > 0 {
            let mut items: Vec<String> = Vec::new();
            let n: usize = self.recommendations.len();
            let mut i: usize = 0;
            while i < n
                invariant
                    n == self.recommendations@.len(),
                    i <= n,
                    items@.len() == i,
                    forall|k: int|
                        0 <= k < i ==> items@[k]@ == "  \u{2022} "@
                            + self.recommendations@[k]@,
                decreases n - i,
            {
                let mut line = "  \u{2022} ".to_owned();
                line.append(self.recommendations[i].as_str());
                items.push(line);
                i = i + 1;
            }
            proof {
                let dv = self.recommendations.deep_view();
                assert forall|k: int| 0 <= k < n implies items.deep_view()[k] == dv.map_values(
                    |r: Seq<char>| "  \u{2022} "@ + r,
                )[k] by {
                    assert(items.deep_view()[k] == items@[k]@);
                    assert(dv[k] == self.recommendations@[k]@);
                }
                assert(items.deep_view() =~= dv.map_values(|r: Seq<char>| "  \u{2022} "@ + r));
            }
            out.append("\u{1f4a1} Recommendations:\n");
            let joined = text::join_with(&items, "\n");
            out.append(joined.as_str());
        }
        proof {
            assert(out@ =~= SecurityThreat::display_spec(*self));
        }
        out
    }

    pub fn add_recommendation(&mut self, recommendation: String)
        ensures
            final(self).recommendations@ == old(self).recommendations@.push(recommendation),
            final(self).id == old(self).id,
            final(self).threat_type == old(self).threat_type,
            final(self).description == old(self).description,
            final(self).threat_level == old(self).threat_level,
            final(self).confidence == old(self).confidence,
            final(self).affected_resources == old(self).affected_resources,
            final(self).detected_at == old(self).detected_at,
    {
        self.recommendations.push(recommendation);
    }
}

/// Number of threats in `s` whose level is `lv`.
pub open spec fn count_level(s: Seq<SecurityThreat>, lv: ThreatLevel) -> int
    decreases s.len(),
{
    if s.len() == 0 {
        0
    } else {
        count_level(s.drop_last(), lv) + if s.last().threat_level == lv {
            1int
        } else {
            0int
        }
    }
}

/// Threats in `s` whose level is `lv`, in order.
pub open spec fn filter_level(s: Seq<SecurityThreat>, lv: ThreatLevel) -> Seq<SecurityThreat>
    decreases s.len(),
{
    if s.len() == 0 {
        Seq::empty()
    } else if s.last().threat_level == lv {
        filter_level(s.drop_last(), lv).push(s.last())
    } else {
        filter_level(s.drop_last(), lv)
    }
}

/// Filtering by level keeps exactly `count_level` threats.
pub proof fn lemma_filter_level_len(s: Seq<SecurityThreat>, lv: ThreatLevel)
    ensures
        filter_level(s, lv).len() == count_level(s, lv),
        0 <= count_level(s, lv) <= s.len(),
    decreases s.len(),
{
    if s.len() > 0 {
        lemma_filter_level_len(s.drop_last(), lv);
    }
}

/// Index of the first threat in `s` with identifier `id`, or -1 if none.
pub open spec fn find_threat_idx(s: Seq<SecurityThreat>, id: Seq<char>) -> int
    decreases s.len(),
{
    if s.len() == 0 {
        -1
    } else if s[0].id@ == id {
        0
    } else {
        let r = find_threat_idx(s.drop_first(), id);
        if r == -1 {
            -1
        } else {
            r + 1
        }
    }
}

/// What `find_threat_idx` returns: either -1 and no threat matches, or the
/// position of the first match.
pub proof fn lemma_find_threat_idx(s: Seq<SecurityThreat>, id: Seq<char>)
    ensures
        find_threat_idx(s, id) == -1 ==> forall|k: int| 0 <= k < s.len() ==> s[k].id@ != id,
        find_threat_idx(s, id) != -1 ==> {
            let j = find_threat_idx(s, id);
            &&& 0 <= j < s.len()
            &&& s[j].id@ == id
            &&& forall|k: int| 0 <= k < j ==> s[k].id@ != id
        },
    decreases s.len(),
{
    if s.len() > 0 && s[0].id@ != id {
        let t = s.drop_first();
        lemma_find_threat_idx(t, id);
        assert(forall|k: int| 1 <= k < s.len() ==> s[k] == t[k - 1]);
    }
}

/// The store of detected threats, partitioned into the set still active
/// and the set already resolved. A threat is never in both at once: a
/// resolve moves it from one to the other.
pub struct ThreatDetector {
    pub active_threats: Vec<SecurityThreat>,
    pub resolved_threats: Vec<SecurityThreat>,
}

impl ThreatDetector {
    pub fn new() -> (r: ThreatDetector)
        ensures
            r.active_threats@.len() == 0,
            r.resolved_threats@.len() == 0,
    {
        ThreatDetector { active_threats: Vec::new(), resolved_threats: Vec::new() }
    }

    /// Inserts a threat into the active set.
    pub fn add_threat(&mut self, threat: SecurityThreat)
        ensures
            final(self).active_threats@ == old(self).active_threats@.push(threat),
            final(self).resolved_threats == old(self).resolved_threats,
    {
        self.active_threats.push(threat);
    }

    /// Ingestion boundary: validates the confidence and, if it is in
    /// range, records a new active threat built from the given values and
    /// returns its identifier.
    pub fn submit_threat(
        &mut self,
        category: String,
        description: String,
        severity: ThreatLevel,
        confidence: u32,
        affected: Vec<String>,
        recommendations: Vec<String>,
    ) -> (r: Result<String, ValidationError>)
        ensures
            confidence > 1000 ==> r == Result::<String, ValidationError>::Err(
                ValidationError::ConfidenceOutOfRange,
            ) && *final(self) == *old(self),
            confidence <= 1000 ==> {
                let t = final(self).active_threats@.last();
                &&& r is Ok
                &&& final(self).active_threats@ == old(self).active_threats@.push(t)
                &&& t.threat_type == category
                &&& t.description == description
                &&& t.threat_level == severity
                &&& t.confidence == confidence
                &&& t.affected_resources == affected
                &&& t.recommendations == recommendations
                &&& t.id@ == threat_id_seq(category@, t.detected_at as nat)
                &&& r->Ok_0@ == t.id@
                &&& t.wf()
            },
            final(self).resolved_threats == old(self).resolved_threats,
    {
        if confidence > 1000 {
            return Err(ValidationError::ConfidenceOutOfRange);
        }
        let mut threat = SecurityThreat::new(category, description, severity, confidence);
        threat.affected_resources = affected;
        threat.recommendations = recommendations;
        let id = threat.id.clone();
        self.active_threats.push(threat);
        Ok(id)
    }

    /// Moves the first active threat with the given identifier to the
    /// resolved set; reports whether one was found.
    pub fn resolve_threat(&mut self, threat_id: &str) -> (r: bool)
        ensures
            r == (find_threat_idx(old(self).active_threats@, threat_id@) != -1),
            !r ==> *final(self) == *old(self),
            r ==> {
                let j = find_threat_idx(old(self).active_threats@, threat_id@);
                &&& final(self).active_threats@ == old(self).active_threats@.remove(j)
                &&& final(self).resolved_threats@ == old(self).resolved_threats@.push(
                    old(self).active_threats@[j],
                )
            },
    {
        proof {
            lemma_find_threat_idx(old(self).active_threats@, threat_id@);
        }
        let n: usize = self.active_threats.len();
        let mut i: usize = 0;
        while i < n
            invariant
                n == self.active_threats@.len(),
                i <= n,
                *self == *old(self),
                forall|k: int| 0 <= k < i ==> self.active_threats@[k].id@ != threat_id@,
            decreases n - i,
        {
            if text::str_eq(self.active_threats[i].id.as_str(), threat_id) {
                proof {
                    lemma_find_threat_idx(old(self).active_threats@, threat_id@);
                    assert(find_threat_idx(old(self).active_threats@, threat_id@) == i);
                }
                let t = self.active_threats.remove(i);
                self.resolved_threats.push(t);
                return true;
            }
            i = i + 1;
        }
        proof {
            lemma_find_threat_idx(old(self).active_threats@, threat_id@);
        }
        false
    }

    /// Read-only view of the active set.
    pub fn get_active_threats(&self) -> (r: &Vec<SecurityThreat>)
        ensures
            r@ == self.active_threats@,
    {
        &self.active_threats
    }

    /// The active threats whose level is exactly `level`, in order.
    pub fn get_threats_by_level(&self, level: ThreatLevel) -> (r: Vec<&SecurityThreat>)
        ensures
            r@.map_values(|t: &SecurityThreat| *t) == filter_level(self.active_threats@, level),
    {
        let mut out: Vec<&SecurityThreat> = Vec::new();
        let n: usize = self.active_threats.len();
        let mut i: usize = 0;
        while i < n
            invariant
                n == self.active_threats@.len(),
                i <= n,
                out@.map_values(|t: &SecurityThreat| *t) == filter_level(
                    self.active_threats@.take(i as int),
                    level,
                ),
            decreases n - i,
        {
            let t = &self.active_threats[i];
            proof {
                assert(self.active_threats@.take(i + 1).drop_last() =~= self.active_threats@.take(
                    i as int,
                ));
            }
            if t.threat_level.rank() == level.rank() {
                proof {
                    assert(t.threat_level == level);
                }
                out.push(t);
            }
            proof {
                assert(out@.map_values(|t: &SecurityThreat| *t) =~= filter_level(
                    self.active_threats@.take(i + 1),
                    level,
                ));
            }
            i = i + 1;
        }
        proof {
            assert(self.active_threats@.take(n as int) =~= self.active_threats@);
        }
        out
    }

    /// The maximum severity among active threats, `NoThreat` when the
    /// active set is empty.
    pub fn get_highest_threat_level(&self) -> (r: ThreatLevel)
        ensures
            forall|k: int|
                0 <= k < self.active_threats@.len() ==> self.active_threats@[
                    k
                ].threat_level.rank_spec() <= r.rank_spec(),
            self.active_threats@.len() == 0 ==> r == ThreatLevel::NoThreat,
            self.active_threats@.len() > 0 ==> exists|k: int|
                0 <= k < self.active_threats@.len() && self.active_threats@[k].threat_level == r,
    {
        let mut best = ThreatLevel::NoThreat;
        let n: usize = self.active_threats.len();
        let mut i: usize = 0;
        while i < n
            invariant
                n == self.active_threats@.len(),
                i <= n,
                forall|k: int|
                    0 <= k < i ==> self.active_threats@[k].threat_level.rank_spec()
                        <= best.rank_spec(),
                i == 0 ==> best == ThreatLevel::NoThreat,
                i > 0 ==> exists|k: int|
                    0 <= k < i && self.active_threats@[k].threat_level == best,
            decreases n - i,
        {
            let t = &self.active_threats[i];
            if t.threat_level.rank() > best.rank() {
                best = t.threat_level;
            }
            i = i + 1;
        }
        best
    }

    /// The non-zero per-level count fragments of the one-line threat
    /// summary, worst level first.
    pub open spec fn summary_parts(s: Seq<SecurityThreat>) -> Seq<Seq<char>> {
        let c = count_level(s, ThreatLevel::Critical);
        let h = count_level(s, ThreatLevel::High);
        let m = count_level(s, ThreatLevel::Medium);
        let l = count_level(s, ThreatLevel::Low);
        (if c > 0 {
            seq!["\u{1f6a8} "@ + text::dec_digits(c as nat) + " Critical"@]
        } else {
            Seq::empty()
        }) + (if h > 0 {
            seq!["\u{1f534} "@ + text::dec_digits(h as nat) + " High"@]
        } else {
            Seq::empty()
        }) + (if m > 0 {
            seq!["\u{1f7e7} "@ + text::dec_digits(m as nat) + " Medium"@]
        } else {
            Seq::empty()
        }) + (if l > 0 {
            seq!["\u{1f7e8} "@ + text::dec_digits(l as nat) + " Low"@]
        } else {
            Seq::empty()
        })
    }

    /// The one-line summary of the active set.
    pub open spec fn summary_spec(s: Seq<SecurityThreat>) -> Seq<char> {
        if s.len() == 0 {
            "\u{2705} No active security threats detected"@
        } else {
            "\u{26a0}\u{fe0f} Active Threats: "@ + text::join_seqs(
                ThreatDetector::summary_parts(s),
                ", "@,
            )
        }
    }

    /// One line summarising the active set: per-level counts, or an
    /// all-clear note when nothing is active.
    pub fn get_threat_summary(&self) -> (r: String)
        ensures
            r@ == ThreatDetector::summary_spec(self.active_threats@),
    {
        if self.active_threats.len() == 0 {
            return "\u{2705} No active security threats detected".to_owned();
        }
        let critical = self.get_threats_by_level(ThreatLevel::Critical).len();
        let high = self.get_threats_by_level(ThreatLevel::High).len();
        let medium = self.get_threats_by_level(ThreatLevel::Medium).len();
        let low = self.get_threats_by_level(ThreatLevel::Low).len();
        proof {
            lemma_filter_level_len(self.active_threats@, ThreatLevel::Critical);
            lemma_filter_level_len(self.active_threats@, ThreatLevel::High);
            lemma_filter_level_len(self.active_threats@, ThreatLevel::Medium);
            lemma_filter_level_len(self.active_threats@, ThreatLevel::Low);
        }
        let mut parts: Vec<String> = Vec::new();
        if critical > 0 {
            let mut p = "\u{1f6a8} ".to_owned();
            let d = text::u64_to_dec(critical as u64);
            p.append(d.as_str());
            p.append(" Critical");
            parts.push(p);
        }
        if high > 0 {
            let mut p = "\u{1f534} ".to_owned();
            let d = text::u64_to_dec(high as u64);
            p.append(d.as_str());
            p.append(" High");
            parts.push(p);
        }
        if medium > 0 {
            let mut p = "\u{1f7e7} ".to_owned();
            let d = text::u64_to_dec(medium as u64);
            p.append(d.as_str());
            p.append(" Medium");
            parts.push(p);
        }
        if low > 0 {
            let mut p = "\u{1f7e8} ".to_owned();
            let d = text::u64_to_dec(low as u64);
            p.append(d.as_str());
            p.append(" Low");
            parts.push(p);
        }
        proof {
            assert(parts.deep_view() =~~= ThreatDetector::summary_parts(self.active_threats@));
        }
        let mut out = "\u{26a0}\u{fe0f} Active Threats: ".to_owned();
        let joined = text::join_with(&parts, ", ");
        out.append(joined.as_str());
        out
    }

    /// Drains every active threat into the resolved set.
    pub fn clear_all_threats(&mut self)
        ensures
            final(self).active_threats@.len() == 0,
            final(self).resolved_threats@ == old(self).resolved_threats@
                + old(self).active_threats@,
    {
        self.resolved_threats.append(&mut self.active_threats);
    }
}

} // verus!
