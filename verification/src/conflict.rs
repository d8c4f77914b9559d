//! Conflicts between what documentation claims and what code implements:
//! their kinds, severities and the strategies that resolve them.
use vstd::prelude::*;
use crate::claims::{count_where, lemma_count_where_bound, lemma_count_where_push, lists_counts, ClaimPriority, ClaimType};

verus! {

/// The kind of a conflict between documentation and code.
#[derive(Debug, Clone, Copy, PartialEq, Eq, Structural, Hash)]
pub enum ConflictType {
    ClaimedButNotImplemented,
    ImplementedButNotClaimed,
    ImplementationMismatch,
    TechnologyMismatch,
    SecurityMismatch,
    PerformanceMismatch,
}

/// How serious a conflict is.
#[derive(Debug, Clone, Copy, PartialEq, Eq, Structural, Hash)]
pub enum ConflictSeverity {
    Critical,
    High,
    Medium,
    Low,
}

/// How a conflict is resolved.
#[derive(Debug, Clone, Copy, PartialEq, Eq, Structural)]
pub enum ResolutionStrategy {
    PreferCode,
    PreferDocumentation,
    Merge,
    FlagAsInconsistent,
}

/// What a conflict analysis looked at and found.
pub struct ConflictAnalysisMetadata {
    pub claims_analyzed: usize,
    pub implementations_analyzed: usize,
    pub analysis_time_ms: u64,
    pub matching_pairs_found: usize,
    pub unmatched_claims: usize,
    pub unmatched_implementations: usize,
}

/// Which side wins which kind of conflict.
#[derive(Debug, Clone, Copy, PartialEq, Eq, Structural)]
pub struct ResolutionPreferences {
    pub prefer_code_for_security: bool,
    pub prefer_code_for_performance: bool,
    pub prefer_documentation_for_features: bool,
    pub always_merge_technology_info: bool,
    pub flag_critical_mismatches: bool,
}

impl ResolutionPreferences {
    /// The preferences of the default configuration.
    pub fn standard() -> (r: Self)
        ensures
            r.prefer_code_for_security,
            r.prefer_code_for_performance,
            !r.prefer_documentation_for_features,
            r.always_merge_technology_info,
            r.flag_critical_mismatches,
    {
        ResolutionPreferences {
            prefer_code_for_security: true,
            prefer_code_for_performance: true,
            prefer_documentation_for_features: false,
            always_merge_technology_info: true,
            flag_critical_mismatches: true,
        }
    }
}

/// The severity one step up, `Critical` staying `Critical`.
pub open spec fn raised(s: ConflictSeverity) -> ConflictSeverity {
    match s {
        ConflictSeverity::Low => ConflictSeverity::Medium,
        ConflictSeverity::Medium => ConflictSeverity::High,
        ConflictSeverity::High => ConflictSeverity::Critical,
        ConflictSeverity::Critical => ConflictSeverity::Critical,
    }
}

/// The severity that matches a claim priority.
pub open spec fn severity_of_priority(p: ClaimPriority) -> ConflictSeverity {
    match p {
        ClaimPriority::Critical => ConflictSeverity::Critical,
        ClaimPriority::High => ConflictSeverity::High,
        ClaimPriority::Medium => ConflictSeverity::Medium,
        ClaimPriority::Low => ConflictSeverity::Low,
    }
}

/// The severity of a claim that the code does not implement: that of its
/// priority, one step higher for a confident security or API claim.
pub open spec fn unimplemented_claim_severity(p: ClaimPriority, t: ClaimType, confident: bool) -> ConflictSeverity {
    if confident && (t == ClaimType::Security || t == ClaimType::Api) {
        raised(severity_of_priority(p))
    } else {
        severity_of_priority(p)
    }
}

/// The strategy that a conflict ends with: the preferences override the
/// strategy it was given for security, performance and technology
/// conflicts, and flag critical ones.
pub open spec fn final_strategy(
    t: ConflictType,
    severity: ConflictSeverity,
    given: ResolutionStrategy,
    prefs: ResolutionPreferences,
) -> ResolutionStrategy {
    if t == ConflictType::SecurityMismatch && prefs.prefer_code_for_security {
        ResolutionStrategy::PreferCode
    } else if t == ConflictType::PerformanceMismatch && prefs.prefer_code_for_performance {
        ResolutionStrategy::PreferCode
    } else if t == ConflictType::TechnologyMismatch && prefs.always_merge_technology_info {
        ResolutionStrategy::Merge
    } else if severity == ConflictSeverity::Critical && prefs.flag_critical_mismatches {
        ResolutionStrategy::FlagAsInconsistent
    } else {
        given
    }
}

/// The action recommended under a strategy.
pub open spec fn strategy_action(s: ResolutionStrategy) -> Seq<char> {
    match s {
        ResolutionStrategy::PreferCode => "Use code analysis results; update documentation to match"@,
        ResolutionStrategy::PreferDocumentation => "Use documentation claims; implement missing features"@,
        ResolutionStrategy::Merge => "Combine information from both sources"@,
        ResolutionStrategy::FlagAsInconsistent => "Manual review required - significant discrepancy detected"@,
    }
}

/// The severity of a claim that the code does not implement, where
/// `confident` says whether the claim's confidence is above 0.8.
pub fn calculate_claim_severity(priority: ClaimPriority, claim_type: ClaimType, confident: bool) -> (r: ConflictSeverity)
    ensures
        r == unimplemented_claim_severity(priority, claim_type, confident),
{
    let base = match priority {
        ClaimPriority::Critical => ConflictSeverity::Critical,
        ClaimPriority::High => ConflictSeverity::High,
        ClaimPriority::Medium => ConflictSeverity::Medium,
        ClaimPriority::Low => ConflictSeverity::Low,
    };
    if confident && matches!(claim_type, ClaimType::Security | ClaimType::Api) {
        match base {
            ConflictSeverity::Low => ConflictSeverity::Medium,
            ConflictSeverity::Medium => ConflictSeverity::High,
            ConflictSeverity::High => ConflictSeverity::Critical,
            ConflictSeverity::Critical => ConflictSeverity::Critical,
        }
    } else {
        base
    }
}

/// The strategy and recommended action that a conflict ends with.
pub fn apply_resolution_strategy(
    conflict_type: ConflictType,
    severity: ConflictSeverity,
    given: ResolutionStrategy,
    prefs: &ResolutionPreferences,
) -> (r: (ResolutionStrategy, String))
    ensures
        r.0 == final_strategy(conflict_type, severity, given, *prefs),
        r.1@ == strategy_action(r.0),
{
    let strategy = if matches!(conflict_type, ConflictType::SecurityMismatch) && prefs.prefer_code_for_security {
        ResolutionStrategy::PreferCode
    } else if matches!(conflict_type, ConflictType::PerformanceMismatch) && prefs.prefer_code_for_performance {
        ResolutionStrategy::PreferCode
    } else if matches!(conflict_type, ConflictType::TechnologyMismatch) && prefs.always_merge_technology_info {
        ResolutionStrategy::Merge
    } else if matches!(severity, ConflictSeverity::Critical) && prefs.flag_critical_mismatches {
        ResolutionStrategy::FlagAsInconsistent
    } else {
        given
    };
    let action = match strategy {
        ResolutionStrategy::PreferCode => "Use code analysis results; update documentation to match",
        ResolutionStrategy::PreferDocumentation => "Use documentation claims; implement missing features",
        ResolutionStrategy::Merge => "Combine information from both sources",
        ResolutionStrategy::FlagAsInconsistent => "Manual review required - significant discrepancy detected",
    };
    (strategy, action.to_owned())
}

/// Whether a conflict under this strategy counts as resolved (rather than
/// flagged for review).
pub open spec fn is_resolved(s: ResolutionStrategy) -> bool {
    s != ResolutionStrategy::FlagAsInconsistent
}

/// Whether a claim left without implementation is reported: unless its
/// severity is low and its confidence not high.
pub open spec fn reports_unimplemented(severity: ConflictSeverity, high_confidence: bool) -> bool {
    !(severity == ConflictSeverity::Low && !high_confidence)
}

/// The strategy for a claim left without implementation: flagged when its
/// confidence is above 0.8, else code wins.
pub open spec fn unimplemented_strategy(confident: bool) -> ResolutionStrategy {
    if confident {
        ResolutionStrategy::FlagAsInconsistent
    } else {
        ResolutionStrategy::PreferCode
    }
}

/// Whether a claim left without implementation is reported, given its
/// severity and whether its confidence is at least 0.8, and with which
/// strategy, given whether its confidence is above 0.8.
pub fn unimplemented_claim_outcome(
    severity: ConflictSeverity,
    at_least_high: bool,
    above_high: bool,
) -> (r: Option<ResolutionStrategy>)
    ensures
        reports_unimplemented(severity, at_least_high) ==> r == Some(unimplemented_strategy(above_high)),
        !reports_unimplemented(severity, at_least_high) ==> r is None,
{
    if matches!(severity, ConflictSeverity::Low) && !at_least_high {
        return None;
    }
    Some(if above_high {
        ResolutionStrategy::FlagAsInconsistent
    } else {
        ResolutionStrategy::PreferCode
    })
}

/// The facts about one conflict that its summary counts: its kind, its
/// severity and the strategy that resolves it.
pub type ConflictFacts = (ConflictType, ConflictSeverity, ResolutionStrategy);

/// Summary counts of a set of conflicts. Each kind and each severity that
/// occurs appears once in its list, with its count.
pub struct ConflictCounts {
    pub total_conflicts: usize,
    pub conflicts_by_type: Vec<(ConflictType, usize)>,
    pub conflicts_by_severity: Vec<(ConflictSeverity, usize)>,
    pub critical_conflicts: usize,
    pub resolved_conflicts: usize,
    pub flagged_for_review: usize,
}

/// The position of a conflict kind in declaration order.
pub open spec fn conflict_type_rank(t: ConflictType) -> int {
    match t {
        ConflictType::ClaimedButNotImplemented => 0,
        ConflictType::ImplementedButNotClaimed => 1,
        ConflictType::ImplementationMismatch => 2,
        ConflictType::TechnologyMismatch => 3,
        ConflictType::SecurityMismatch => 4,
        ConflictType::PerformanceMismatch => 5,
    }
}

/// The position of a severity in declaration order.
pub open spec fn severity_rank(s: ConflictSeverity) -> int {
    match s {
        ConflictSeverity::Critical => 0,
        ConflictSeverity::High => 1,
        ConflictSeverity::Medium => 2,
        ConflictSeverity::Low => 3,
    }
}

fn conflict_type_index(t: &ConflictType) -> (r: usize)
    ensures
        r == conflict_type_rank(*t),
{
    match t {
        ConflictType::ClaimedButNotImplemented => 0,
        ConflictType::ImplementedButNotClaimed => 1,
        ConflictType::ImplementationMismatch => 2,
        ConflictType::TechnologyMismatch => 3,
        ConflictType::SecurityMismatch => 4,
        ConflictType::PerformanceMismatch => 5,
    }
}

fn conflict_type_at(i: usize) -> (t: ConflictType)
    requires
        i < 6,
    ensures
        conflict_type_rank(t) == i,
{
    if i == 0 {
        ConflictType::ClaimedButNotImplemented
    } else if i == 1 {
        ConflictType::ImplementedButNotClaimed
    } else if i == 2 {
        ConflictType::ImplementationMismatch
    } else if i == 3 {
        ConflictType::TechnologyMismatch
    } else if i == 4 {
        ConflictType::SecurityMismatch
    } else {
        ConflictType::PerformanceMismatch
    }
}

fn severity_index(s: &ConflictSeverity) -> (r: usize)
    ensures
        r == severity_rank(*s),
{
    match s {
        ConflictSeverity::Critical => 0,
        ConflictSeverity::High => 1,
        ConflictSeverity::Medium => 2,
        ConflictSeverity::Low => 3,
    }
}

fn severity_at(i: usize) -> (s: ConflictSeverity)
    requires
        i < 4,
    ensures
        severity_rank(s) == i,
{
    if i == 0 {
        ConflictSeverity::Critical
    } else if i == 1 {
        ConflictSeverity::High
    } else if i == 2 {
        ConflictSeverity::Medium
    } else {
        ConflictSeverity::Low
    }
}

/// The number of conflicts of kind `t`.
pub open spec fn conflict_type_count(cs: Seq<ConflictFacts>, t: ConflictType) -> nat {
    count_where(cs, |c: ConflictFacts| c.0 == t)
}

/// The number of conflicts of severity `s`.
pub open spec fn severity_count(cs: Seq<ConflictFacts>, s: ConflictSeverity) -> nat {
    count_where(cs, |c: ConflictFacts| c.1 == s)
}

/// Whether a conflict resolved by `r` counts as resolved (every strategy but
/// flagging it for review).
pub open spec fn is_resolving(r: ResolutionStrategy) -> bool {
    r != ResolutionStrategy::FlagAsInconsistent
}

/// Positive counts from a table of counts indexed by rank, listed in rank
/// order.
fn listed_counts_types(by: &Vec<usize>, Ghost(cs): Ghost<Seq<ConflictFacts>>) -> (r: Vec<(ConflictType, usize)>)
    requires
        by@.len() == 6,
        forall|t: ConflictType| #[trigger] by@[conflict_type_rank(t)] == conflict_type_count(cs, t),
    ensures
        lists_counts(r@, |t: ConflictType| conflict_type_count(cs, t), |t: ConflictType| conflict_type_rank(t)),
{
    let mut out: Vec<(ConflictType, usize)> = Vec::new();
    let mut k: usize = 0;
    while k < 6
        invariant
            k <= 6,
            by@.len() == 6,
            forall|t: ConflictType| #[trigger] by@[conflict_type_rank(t)] == conflict_type_count(cs, t),
            forall|j: int| 0 <= j < out@.len() ==> (#[trigger] out@[j]).1 == conflict_type_count(cs, out@[j].0) && out@[j].1 > 0 && conflict_type_rank(out@[j].0) < k,
            forall|j: int, l: int| 0 <= j < l < out@.len() ==> conflict_type_rank(#[trigger] out@[j].0) < conflict_type_rank(#[trigger] out@[l].0),
            forall|x: ConflictType| #[trigger] conflict_type_count(cs, x) > 0 && conflict_type_rank(x) < k ==> exists|j: int| 0 <= j < out@.len() && out@[j].0 == x,
        decreases 6 - k,
    {
        let t = conflict_type_at(k);
        assert(by@[conflict_type_rank(t)] == conflict_type_count(cs, t));
        let ghost before = out@;
        if by[k] > 0 {
            out.push((t, by[k]));
        }
        proof {
            assert forall|x: ConflictType| #[trigger] conflict_type_count(cs, x) > 0 && conflict_type_rank(x) < k + 1 implies exists|j: int| 0 <= j < out@.len() && out@[j].0 == x by {
                if conflict_type_rank(x) == k {
                    assert(x == t);
                    assert(out@[out@.len() - 1].0 == x);
                } else {
                    let j = choose|j: int| 0 <= j < before.len() && before[j].0 == x;
                    assert(out@[j] == before[j]);
                }
            }
        }
        k = k + 1;
    }
    out
}

/// Positive counts from a table of counts indexed by rank, listed in rank
/// order.
fn listed_counts_severities(by: &Vec<usize>, Ghost(cs): Ghost<Seq<ConflictFacts>>) -> (r: Vec<(ConflictSeverity, usize)>)
    requires
        by@.len() == 4,
        forall|s: ConflictSeverity| #[trigger] by@[severity_rank(s)] == severity_count(cs, s),
    ensures
        lists_counts(r@, |s: ConflictSeverity| severity_count(cs, s), |s: ConflictSeverity| severity_rank(s)),
{
    let mut out: Vec<(ConflictSeverity, usize)> = Vec::new();
    let mut k: usize = 0;
    while k < 4
        invariant
            k <= 4,
            by@.len() == 4,
            forall|s: ConflictSeverity| #[trigger] by@[severity_rank(s)] == severity_count(cs, s),
            forall|j: int| 0 <= j < out@.len() ==> (#[trigger] out@[j]).1 == severity_count(cs, out@[j].0) && out@[j].1 > 0 && severity_rank(out@[j].0) < k,
            forall|j: int, l: int| 0 <= j < l < out@.len() ==> severity_rank(#[trigger] out@[j].0) < severity_rank(#[trigger] out@[l].0),
            forall|x: ConflictSeverity| #[trigger] severity_count(cs, x) > 0 && severity_rank(x) < k ==> exists|j: int| 0 <= j < out@.len() && out@[j].0 == x,
        decreases 4 - k,
    {
        let s = severity_at(k);
        assert(by@[severity_rank(s)] == severity_count(cs, s));
        let ghost before = out@;
        if by[k] > 0 {
            out.push((s, by[k]));
        }
        proof {
            assert forall|x: ConflictSeverity| #[trigger] severity_count(cs, x) > 0 && severity_rank(x) < k + 1 implies exists|j: int| 0 <= j < out@.len() && out@[j].0 == x by {
                if severity_rank(x) == k {
                    assert(x == s);
                    assert(out@[out@.len() - 1].0 == x);
                } else {
                    let j = choose|j: int| 0 <= j < before.len() && before[j].0 == x;
                    assert(out@[j] == before[j]);
                }
            }
        }
        k = k + 1;
    }
    out
}

/// The summary of a list of conflicts: how many there are, how many of each
/// kind and severity, how many are critical, and how many are resolved or
/// flagged for review.
pub fn summarize_conflicts(conflicts: &Vec<ConflictFacts>) -> (s: ConflictCounts)
    ensures
        s.total_conflicts == conflicts@.len(),
        s.critical_conflicts == count_where(conflicts@, |c: ConflictFacts| c.1 == ConflictSeverity::Critical),
        s.resolved_conflicts == count_where(conflicts@, |c: ConflictFacts| is_resolving(c.2)),
        s.flagged_for_review == count_where(conflicts@, |c: ConflictFacts| !is_resolving(c.2)),
        lists_counts(
            s.conflicts_by_type@,
            |t: ConflictType| conflict_type_count(conflicts@, t),
            |t: ConflictType| conflict_type_rank(t),
        ),
        lists_counts(
            s.conflicts_by_severity@,
            |v: ConflictSeverity| severity_count(conflicts@, v),
            |v: ConflictSeverity| severity_rank(v),
        ),
{
    let mut by_type: Vec<usize> = vec![0, 0, 0, 0, 0, 0];
    let mut by_severity: Vec<usize> = vec![0, 0, 0, 0];
    let mut critical: usize = 0;
    let mut resolved: usize = 0;
    let mut flagged: usize = 0;
    let mut i: usize = 0;
    while i < conflicts.len()
        invariant
            i <= conflicts@.len(),
            by_type@.len() == 6,
            by_severity@.len() == 4,
            forall|t: ConflictType| #[trigger] by_type@[conflict_type_rank(t)] == conflict_type_count(conflicts@.take(i as int), t),
            forall|v: ConflictSeverity| #[trigger] by_severity@[severity_rank(v)] == severity_count(conflicts@.take(i as int), v),
            critical == count_where(conflicts@.take(i as int), |c: ConflictFacts| c.1 == ConflictSeverity::Critical),
            resolved == count_where(conflicts@.take(i as int), |c: ConflictFacts| is_resolving(c.2)),
            flagged == count_where(conflicts@.take(i as int), |c: ConflictFacts| !is_resolving(c.2)),
        decreases conflicts@.len() - i,
    {
        let c = conflicts[i];
        let ghost pre = conflicts@.take(i as int);
        assert(conflicts@.take(i + 1) =~= pre.push(c));
        proof {
            lemma_count_where_bound(pre, |x: ConflictFacts| x.1 == ConflictSeverity::Critical);
            lemma_count_where_bound(pre, |x: ConflictFacts| is_resolving(x.2));
            lemma_count_where_bound(pre, |x: ConflictFacts| !is_resolving(x.2));
            lemma_count_where_push(pre, c, |x: ConflictFacts| x.1 == ConflictSeverity::Critical);
            lemma_count_where_push(pre, c, |x: ConflictFacts| is_resolving(x.2));
            lemma_count_where_push(pre, c, |x: ConflictFacts| !is_resolving(x.2));
            assert forall|t: ConflictType| true implies #[trigger] conflict_type_count(pre.push(c), t)
                == conflict_type_count(pre, t) + if c.0 == t {
                1nat
            } else {
                0nat
            } by {
                lemma_count_where_push(pre, c, |x: ConflictFacts| x.0 == t);
            }
            assert forall|v: ConflictSeverity| true implies #[trigger] severity_count(pre.push(c), v)
                == severity_count(pre, v) + if c.1 == v {
                1nat
            } else {
                0nat
            } by {
                lemma_count_where_push(pre, c, |x: ConflictFacts| x.1 == v);
            }
            lemma_count_where_bound(pre, |x: ConflictFacts| x.0 == c.0);
            lemma_count_where_bound(pre, |x: ConflictFacts| x.1 == c.1);
        }
        let ti = conflict_type_index(&c.0);
        let si = severity_index(&c.1);
        assert(by_type@[conflict_type_rank(c.0)] == conflict_type_count(pre, c.0));
        assert(by_severity@[severity_rank(c.1)] == severity_count(pre, c.1));
        let nt = by_type[ti] + 1;
        by_type.set(ti, nt);
        let ns = by_severity[si] + 1;
        by_severity.set(si, ns);
        if c.1 == ConflictSeverity::Critical {
            critical = critical + 1;
        }
        if c.2 == ResolutionStrategy::FlagAsInconsistent {
            flagged = flagged + 1;
        } else {
            resolved = resolved + 1;
        }
        proof {
            assert forall|t: ConflictType| #[trigger] by_type@[conflict_type_rank(t)] == conflict_type_count(
                conflicts@.take(i + 1),
                t,
            ) by {
                assert(conflict_type_count(pre.push(c), t) == conflict_type_count(pre, t) + if c.0 == t {
                    1nat
                } else {
                    0nat
                });
                if t != c.0 {
                    assert(conflict_type_rank(t) != conflict_type_rank(c.0));
                }
            }
            assert forall|v: ConflictSeverity| #[trigger] by_severity@[severity_rank(v)] == severity_count(
                conflicts@.take(i + 1),
                v,
            ) by {
                assert(severity_count(pre.push(c), v) == severity_count(pre, v) + if c.1 == v {
                    1nat
                } else {
                    0nat
                });
                if v != c.1 {
                    assert(severity_rank(v) != severity_rank(c.1));
                }
            }
        }
        i = i + 1;
    }
    assert(conflicts@.take(conflicts@.len() as int) =~= conflicts@);
    let types = listed_counts_types(&by_type, Ghost(conflicts@));
    let severities = listed_counts_severities(&by_severity, Ghost(conflicts@));
    ConflictCounts {
        total_conflicts: conflicts.len(),
        conflicts_by_type: types,
        conflicts_by_severity: severities,
        critical_conflicts: critical,
        resolved_conflicts: resolved,
        flagged_for_review: flagged,
    }
}

/// Every conflict is either resolved or flagged for review, never both.
pub proof fn law_conflicts_resolved_or_flagged(conflicts: Seq<ConflictFacts>)
    ensures
        count_where(conflicts, |c: ConflictFacts| is_resolving(c.2))
            + count_where(conflicts, |c: ConflictFacts| !is_resolving(c.2)) == conflicts.len(),
    decreases conflicts.len(),
{
    if conflicts.len() > 0 {
        let pre = conflicts.drop_last();
        law_conflicts_resolved_or_flagged(pre);
        assert(conflicts =~= pre.push(conflicts.last()));
        lemma_count_where_push(pre, conflicts.last(), |c: ConflictFacts| is_resolving(c.2));
        lemma_count_where_push(pre, conflicts.last(), |c: ConflictFacts| !is_resolving(c.2));
    }
}


/// Only a confident security or API claim is raised above the severity of
/// its priority: any other claim, confident or not, keeps exactly the
/// severity of its priority, and a confident security or API claim is one
/// step higher (`Critical` staying `Critical`).
pub proof fn law_only_security_and_api_are_raised(p: ClaimPriority, t: ClaimType, confident: bool)
    ensures
        t != ClaimType::Security && t != ClaimType::Api ==> unimplemented_claim_severity(p, t, confident) == (match p {
            ClaimPriority::Critical => ConflictSeverity::Critical,
            ClaimPriority::High => ConflictSeverity::High,
            ClaimPriority::Medium => ConflictSeverity::Medium,
            ClaimPriority::Low => ConflictSeverity::Low,
        }),
        !confident ==> unimplemented_claim_severity(p, t, confident) == (match p {
            ClaimPriority::Critical => ConflictSeverity::Critical,
            ClaimPriority::High => ConflictSeverity::High,
            ClaimPriority::Medium => ConflictSeverity::Medium,
            ClaimPriority::Low => ConflictSeverity::Low,
        }),
        confident && (t == ClaimType::Security || t == ClaimType::Api) ==> unimplemented_claim_severity(p, t, confident) == (match p {
            ClaimPriority::Critical => ConflictSeverity::Critical,
            ClaimPriority::High => ConflictSeverity::Critical,
            ClaimPriority::Medium => ConflictSeverity::High,
            ClaimPriority::Low => ConflictSeverity::Medium,
        }),
{
}

/// Confidence matters only for security and API claims: for any other
/// type, a confident and an unconfident claim of the same priority have the
/// same severity.
pub proof fn law_confidence_matters_only_for_security_and_api(p: ClaimPriority, t: ClaimType)
    ensures
        t != ClaimType::Security && t != ClaimType::Api ==> unimplemented_claim_severity(p, t, true)
            == unimplemented_claim_severity(p, t, false),
        t == ClaimType::Security || t == ClaimType::Api ==> (unimplemented_claim_severity(p, t, true)
            == unimplemented_claim_severity(p, t, false) <==> p == ClaimPriority::Critical),
{
}
} // verus!
