//! The status of a project's features, from explicit TODO items and from
//! comparing documentation claims with the code: categories, effort,
//! priorities, timelines and recommendations.
use vstd::prelude::*;
use crate::claims::{ClaimPriority, ClaimType};
use crate::conflict::{ConflictSeverity, ConflictType};
use crate::text::{
    chars_of, concat_str, contains, contains_str, decimal, decimal_string, lower_chars, lowercase,
    string_views, word_ranges, words,
};

verus! {

/// A recommended piece of work.
pub struct RecommendedAction {
    pub action_type: ActionType,
    pub description: String,
    pub target_feature: String,
    pub priority: ActionPriority,
    pub estimated_effort: EffortLevel,
    pub prerequisites: Vec<String>,
}

/// A serious difference between documentation and code.
pub struct MajorDiscrepancy {
    pub discrepancy_type: String,
    pub description: String,
    pub severity: DiscrepancySeverity,
    pub documentation_claim: Option<String>,
    pub actual_implementation: Option<String>,
    pub impact_assessment: String,
    pub resolution_recommendation: String,
}

/// A recommendation to bring documentation and code in line.
pub struct ConsistencyRecommendation {
    pub recommendation_type: RecommendationType,
    pub description: String,
    pub priority: RecommendationPriority,
    pub affected_components: Vec<String>,
    pub estimated_impact: String,
}

/// Where a feature stands between documentation and code.
#[derive(Debug, Clone, Copy, PartialEq, Eq, Structural, Hash)]
pub enum StatusCategory {
    CompletelyImplemented,
    PartiallyImplemented,
    PlannedNotImplemented,
    UnplannedImplemented,
    Conflicted,
}

/// How far a feature's implementation has come.
#[derive(Debug, Clone, Copy, PartialEq, Eq, Structural, Hash)]
pub enum CompletionLevel {
    Complete,
    NearComplete,
    Partial,
    Minimal,
    NotStarted,
}

/// How finished an implementation is.
#[derive(Debug, Clone, Copy, PartialEq, Eq, Structural, Hash)]
pub enum ImplementationQuality {
    Production,
    Development,
    Prototype,
    Skeleton,
}

/// How much a feature matters to the business.
#[derive(Debug, Clone, Copy, PartialEq, Eq, Structural, Hash)]
pub enum BusinessImpact {
    Critical,
    High,
    Medium,
    Low,
}

/// How hard a feature is to build.
#[derive(Debug, Clone, Copy, PartialEq, Eq, Structural, Hash)]
pub enum TechnicalComplexity {
    High,
    Medium,
    Low,
}

/// How much work a piece of work takes.
#[derive(Debug, Clone, Copy, PartialEq, Eq, Structural, Hash)]
pub enum EffortLevel {
    Large,
    Medium,
    Small,
    Trivial,
}

/// The kind of a recommended action.
#[derive(Debug, Clone, Copy, PartialEq, Eq, Structural, Hash)]
pub enum ActionType {
    Implement,
    Complete,
    Fix,
    Document,
    Remove,
    Refactor,
}

/// How soon a recommended action should be taken.
#[derive(Debug, Clone, Copy, PartialEq, Eq, Structural, Hash)]
pub enum ActionPriority {
    Urgent,
    High,
    Medium,
    Low,
}

/// How serious a discrepancy is.
#[derive(Debug, Clone, Copy, PartialEq, Eq, Structural, Hash)]
pub enum DiscrepancySeverity {
    Critical,
    High,
    Medium,
    Low,
}

/// The kind of a consistency recommendation.
#[derive(Debug, Clone, Copy, PartialEq, Eq, Structural, Hash)]
pub enum RecommendationType {
    UpdateDocumentation,
    ImplementFeature,
    RemoveClaimedFeature,
    ImproveTesting,
    AddValidation,
}

/// How soon a consistency recommendation should be followed.
#[derive(Debug, Clone, Copy, PartialEq, Eq, Structural, Hash)]
pub enum RecommendationPriority {
    Critical,
    High,
    Medium,
    Low,
}

/// How recommended actions are generated.
#[derive(Debug, Clone, Copy, PartialEq, Eq, Structural)]
pub struct ActionGenerationConfig {
    pub max_recommended_actions: usize,
    pub prioritize_critical_conflicts: bool,
    pub include_effort_estimates: bool,
    pub generate_timeline_suggestions: bool,
}

/// The category of a TODO item, by the words its lowercase description
/// holds.
pub open spec fn todo_category(low: Seq<char>) -> Seq<char> {
    if contains(low, "auth"@) || contains(low, "login"@) || contains(low, "security"@) {
        "Authentication"@
    } else if contains(low, "api"@) || contains(low, "endpoint"@) || contains(low, "rest"@) {
        "API"@
    } else if contains(low, "database"@) || contains(low, "db"@) || contains(low, "query"@) {
        "Database"@
    } else if contains(low, "test"@) || contains(low, "spec"@) {
        "Testing"@
    } else if contains(low, "ui"@) || contains(low, "frontend"@) || contains(low, "component"@) {
        "Frontend"@
    } else if contains(low, "performance"@) || contains(low, "optimize"@) || contains(low, "cache"@) {
        "Performance"@
    } else {
        "General"@
    }
}

/// The category of a TODO item.
pub fn categorize_todo_by_content(description: &str) -> (r: String)
    ensures
        r@ == todo_category(lowercase(description@)),
{
    let low = lower_chars(description);
    let category = if contains_str(&low, "auth") || contains_str(&low, "login") || contains_str(&low, "security") {
        "Authentication"
    } else if contains_str(&low, "api") || contains_str(&low, "endpoint") || contains_str(&low, "rest") {
        "API"
    } else if contains_str(&low, "database") || contains_str(&low, "db") || contains_str(&low, "query") {
        "Database"
    } else if contains_str(&low, "test") || contains_str(&low, "spec") {
        "Testing"
    } else if contains_str(&low, "ui") || contains_str(&low, "frontend") || contains_str(&low, "component") {
        "Frontend"
    } else if contains_str(&low, "performance") || contains_str(&low, "optimize") || contains_str(&low, "cache") {
        "Performance"
    } else {
        "General"
    };
    category.to_owned()
}

/// The effort a piece of work takes, by the words of its lowercase
/// description and their number: a refactoring, rewrite or implementation
/// is large when described in more than three words, else medium; a fix,
/// update, change, addition or removal is small; anything else is medium.
pub open spec fn effort_of(low: Seq<char>, word_count: nat) -> EffortLevel {
    if contains(low, "refactor"@) || contains(low, "rewrite"@) || contains(low, "implement"@) {
        if word_count > 3 {
            EffortLevel::Large
        } else {
            EffortLevel::Medium
        }
    } else if contains(low, "fix"@) || contains(low, "update"@) || contains(low, "change"@) {
        EffortLevel::Small
    } else if contains(low, "add"@) || contains(low, "remove"@) {
        EffortLevel::Small
    } else {
        EffortLevel::Medium
    }
}

/// The effort that the work a description describes takes.
pub fn estimate_effort_from_description(description: &str) -> (r: EffortLevel)
    ensures
        r == effort_of(lowercase(description@), words(description@).len()),
{
    let low = lower_chars(description);
    let cs = chars_of(description);
    let word_count = word_ranges(&cs).len();
    if contains_str(&low, "refactor") || contains_str(&low, "rewrite") || contains_str(&low, "implement") {
        if word_count > 3 {
            EffortLevel::Large
        } else {
            EffortLevel::Medium
        }
    } else if contains_str(&low, "fix") || contains_str(&low, "update") || contains_str(&low, "change") {
        EffortLevel::Small
    } else if contains_str(&low, "add") || contains_str(&low, "remove") {
        EffortLevel::Small
    } else {
        EffortLevel::Medium
    }
}

/// The next actions for a feature with this status and completion.
pub open spec fn feature_actions(status: StatusCategory, completion: CompletionLevel) -> Seq<Seq<char>> {
    match status {
        StatusCategory::PlannedNotImplemented => seq!["Implement this feature"@],
        StatusCategory::PartiallyImplemented => if completion == CompletionLevel::Partial {
            seq!["Complete the implementation"@, "Add error handling"@, "Add tests"@]
        } else {
            seq!["Review implementation status"@]
        },
        StatusCategory::CompletelyImplemented => seq!["Consider enhancements"@],
        StatusCategory::UnplannedImplemented => seq!["Add documentation"@],
        StatusCategory::Conflicted => seq!["Resolve conflicts between docs and code"@],
    }
}

/// Owned copies of string literals.
fn owned_strings(v: &Vec<&str>) -> (r: Vec<String>)
    ensures
        string_views(r@) == v@.map_values(|s: &str| s@),
{
    let mut r: Vec<String> = Vec::new();
    let mut i: usize = 0;
    while i < v.len()
        invariant
            i <= v@.len(),
            string_views(r@) == v@.map_values(|s: &str| s@).take(i as int),
        decreases v@.len() - i,
    {
        let ghost before = r@;
        let o = v[i].to_owned();
        r.push(o);
        proof {
            assert(string_views(r@) =~= string_views(before).push(o@));
            assert(v@.map_values(|s: &str| s@).take(i + 1) =~= v@.map_values(|s: &str| s@).take(
                i as int,
            ).push(v@[i as int]@));
        }
        i = i + 1;
    }
    assert(v@.map_values(|s: &str| s@).take(v@.len() as int) =~= v@.map_values(|s: &str| s@));
    r
}

/// The next actions for a feature with this status and completion.
pub fn generate_feature_actions(status: &StatusCategory, completion: &CompletionLevel) -> (r: Vec<String>)
    ensures
        string_views(r@) == feature_actions(*status, *completion),
{
    let v: Vec<&str> = match status {
        StatusCategory::PlannedNotImplemented => vec!["Implement this feature"],
        StatusCategory::PartiallyImplemented => if matches!(completion, CompletionLevel::Partial) {
            vec!["Complete the implementation", "Add error handling", "Add tests"]
        } else {
            vec!["Review implementation status"]
        },
        StatusCategory::CompletelyImplemented => vec!["Consider enhancements"],
        StatusCategory::UnplannedImplemented => vec!["Add documentation"],
        StatusCategory::Conflicted => vec!["Resolve conflicts between docs and code"],
    };
    let r = owned_strings(&v);
    assert(v@.map_values(|s: &str| s@) =~= feature_actions(*status, *completion));
    r
}

/// When a feature of this impact and complexity should be built.
pub open spec fn timeline(impact: BusinessImpact, complexity: TechnicalComplexity) -> Seq<char> {
    match impact {
        BusinessImpact::Critical => match complexity {
            TechnicalComplexity::Low => "Next sprint"@,
            TechnicalComplexity::Medium => "Within 2 sprints"@,
            TechnicalComplexity::High => "Within 1 month"@,
        },
        BusinessImpact::High => match complexity {
            TechnicalComplexity::Low => "Within 2 sprints"@,
            TechnicalComplexity::Medium => "Within 1 month"@,
            TechnicalComplexity::High => "Within 2 months"@,
        },
        BusinessImpact::Medium => "Within 3 months"@,
        BusinessImpact::Low => "When capacity allows"@,
    }
}

/// When a feature of this impact and complexity should be built.
pub fn generate_timeline_recommendation(impact: &BusinessImpact, complexity: &TechnicalComplexity) -> (r: String)
    ensures
        r@ == timeline(*impact, *complexity),
{
    let t = match impact {
        BusinessImpact::Critical => match complexity {
            TechnicalComplexity::Low => "Next sprint",
            TechnicalComplexity::Medium => "Within 2 sprints",
            TechnicalComplexity::High => "Within 1 month",
        },
        BusinessImpact::High => match complexity {
            TechnicalComplexity::Low => "Within 2 sprints",
            TechnicalComplexity::Medium => "Within 1 month",
            TechnicalComplexity::High => "Within 2 months",
        },
        BusinessImpact::Medium => "Within 3 months",
        BusinessImpact::Low => "When capacity allows",
    };
    t.to_owned()
}

/// The business impact of a claimed feature, by the claim's priority.
pub open spec fn impact_of_priority(p: ClaimPriority) -> BusinessImpact {
    match p {
        ClaimPriority::Critical => BusinessImpact::Critical,
        ClaimPriority::High => BusinessImpact::High,
        ClaimPriority::Medium => BusinessImpact::Medium,
        ClaimPriority::Low => BusinessImpact::Low,
    }
}

/// The complexity of a claimed feature, by the claim's type.
pub open spec fn complexity_of_claim(t: ClaimType) -> TechnicalComplexity {
    match t {
        ClaimType::Security => TechnicalComplexity::High,
        ClaimType::Integration => TechnicalComplexity::High,
        ClaimType::Api => TechnicalComplexity::Medium,
        _ => TechnicalComplexity::Low,
    }
}

/// The effort that a complexity takes.
pub open spec fn effort_of_complexity(c: TechnicalComplexity) -> EffortLevel {
    match c {
        TechnicalComplexity::High => EffortLevel::Large,
        TechnicalComplexity::Medium => EffortLevel::Medium,
        TechnicalComplexity::Low => EffortLevel::Small,
    }
}

/// The impact, complexity, effort and timeline of a claimed but missing
/// feature.
pub fn claim_priority_profile(priority: &ClaimPriority, claim_type: &ClaimType) -> (r: (BusinessImpact, TechnicalComplexity, EffortLevel, String))
    ensures
        r.0 == impact_of_priority(*priority),
        r.1 == complexity_of_claim(*claim_type),
        r.2 == effort_of_complexity(r.1),
        r.3@ == timeline(r.0, r.1),
{
    let impact = match priority {
        ClaimPriority::Critical => BusinessImpact::Critical,
        ClaimPriority::High => BusinessImpact::High,
        ClaimPriority::Medium => BusinessImpact::Medium,
        ClaimPriority::Low => BusinessImpact::Low,
    };
    let complexity = match claim_type {
        ClaimType::Security => TechnicalComplexity::High,
        ClaimType::Integration => TechnicalComplexity::High,
        ClaimType::Api => TechnicalComplexity::Medium,
        _ => TechnicalComplexity::Low,
    };
    let effort = match complexity {
        TechnicalComplexity::High => EffortLevel::Large,
        TechnicalComplexity::Medium => EffortLevel::Medium,
        TechnicalComplexity::Low => EffortLevel::Small,
    };
    let when = generate_timeline_recommendation(&impact, &complexity);
    (impact, complexity, effort, when)
}

/// The action that resolves a critical conflict of this type.
pub open spec fn action_for_conflict(t: ConflictType) -> ActionType {
    match t {
        ConflictType::ClaimedButNotImplemented => ActionType::Implement,
        ConflictType::ImplementedButNotClaimed => ActionType::Document,
        ConflictType::ImplementationMismatch => ActionType::Complete,
        _ => ActionType::Fix,
    }
}

/// The action that resolves a critical conflict of this type.
pub fn action_type_for(conflict_type: &ConflictType) -> (r: ActionType)
    ensures
        r == action_for_conflict(*conflict_type),
{
    match conflict_type {
        ConflictType::ClaimedButNotImplemented => ActionType::Implement,
        ConflictType::ImplementedButNotClaimed => ActionType::Document,
        ConflictType::ImplementationMismatch => ActionType::Complete,
        _ => ActionType::Fix,
    }
}

/// The severity of the discrepancy that a conflict of this severity is.
pub open spec fn discrepancy_severity(s: ConflictSeverity) -> DiscrepancySeverity {
    match s {
        ConflictSeverity::Critical => DiscrepancySeverity::Critical,
        ConflictSeverity::High => DiscrepancySeverity::High,
        ConflictSeverity::Medium => DiscrepancySeverity::Medium,
        ConflictSeverity::Low => DiscrepancySeverity::Low,
    }
}

/// The severity of the discrepancy that a conflict is, `None` when the
/// conflict is not serious enough (medium or low) to be a major one.
pub fn major_discrepancy_severity(severity: &ConflictSeverity) -> (r: Option<DiscrepancySeverity>)
    ensures
        (*severity == ConflictSeverity::Critical || *severity == ConflictSeverity::High) ==> r == Some(discrepancy_severity(*severity)),
        (*severity == ConflictSeverity::Medium || *severity == ConflictSeverity::Low) ==> r is None,
{
    match severity {
        ConflictSeverity::Critical => Some(DiscrepancySeverity::Critical),
        ConflictSeverity::High => Some(DiscrepancySeverity::High),
        _ => None,
    }
}

/// The impact on users of a discrepancy of this type.
pub open spec fn discrepancy_impact(t: ConflictType) -> Seq<char> {
    match t {
        ConflictType::ClaimedButNotImplemented => "Users may expect functionality that doesn't exist"@,
        ConflictType::ImplementedButNotClaimed => "Users may not be aware of available functionality"@,
        ConflictType::SecurityMismatch => "Security expectations may not match actual protection level"@,
        _ => "May cause confusion for users and developers"@,
    }
}

/// The impact on users of a discrepancy of this type.
pub fn assess_discrepancy_impact(conflict_type: &ConflictType) -> (r: String)
    ensures
        r@ == discrepancy_impact(*conflict_type),
{
    let s = match conflict_type {
        ConflictType::ClaimedButNotImplemented => "Users may expect functionality that doesn't exist",
        ConflictType::ImplementedButNotClaimed => "Users may not be aware of available functionality",
        ConflictType::SecurityMismatch => "Security expectations may not match actual protection level",
        _ => "May cause confusion for users and developers",
    };
    s.to_owned()
}

/// The consistency recommendations for a number of claimed features that
/// are not implemented and of implemented features that are not documented:
/// one to implement the first when there are any, one to document the
/// second when there are any.
pub fn generate_consistency_recommendations(unmatched_claims: usize, unmatched_implementations: usize) -> (r: Vec<ConsistencyRecommendation>)
    ensures
        r@.len() == (if unmatched_claims > 0 { 1int } else { 0int }) + (if unmatched_implementations > 0 { 1int } else { 0int }),
        unmatched_claims > 0 ==> {
            &&& r@[0].recommendation_type == RecommendationType::ImplementFeature
            &&& r@[0].description@ == "Implement "@ + decimal(unmatched_claims as nat) + " features claimed in documentation"@
            &&& r@[0].priority == RecommendationPriority::High
            &&& string_views(r@[0].affected_components@) == seq!["Core functionality"@]
            &&& r@[0].estimated_impact@ == "High user satisfaction improvement"@
        },
        unmatched_implementations > 0 ==> {
            let k = if unmatched_claims > 0 { 1int } else { 0int };
            &&& r@[k].recommendation_type == RecommendationType::UpdateDocumentation
            &&& r@[k].description@ == "Document "@ + decimal(unmatched_implementations as nat) + " implemented features"@
            &&& r@[k].priority == RecommendationPriority::Medium
            &&& string_views(r@[k].affected_components@) == seq!["Documentation"@]
            &&& r@[k].estimated_impact@ == "Improved feature discoverability"@
        },
{
    let mut r: Vec<ConsistencyRecommendation> = Vec::new();
    if unmatched_claims > 0 {
        let n = decimal_string(unmatched_claims as u64);
        let head = concat_str("Implement ", n.as_str());
        let description = concat_str(head.as_str(), " features claimed in documentation");
        let mut affected: Vec<String> = Vec::new();
        affected.push("Core functionality".to_owned());
        assert(string_views(affected@) =~= seq!["Core functionality"@]);
        r.push(ConsistencyRecommendation {
            recommendation_type: RecommendationType::ImplementFeature,
            description,
            priority: RecommendationPriority::High,
            affected_components: affected,
            estimated_impact: "High user satisfaction improvement".to_owned(),
        });
    }
    if unmatched_implementations > 0 {
        let n = decimal_string(unmatched_implementations as u64);
        let head = concat_str("Document ", n.as_str());
        let description = concat_str(head.as_str(), " implemented features");
        let mut affected: Vec<String> = Vec::new();
        affected.push("Documentation".to_owned());
        assert(string_views(affected@) =~= seq!["Documentation"@]);
        r.push(ConsistencyRecommendation {
            recommendation_type: RecommendationType::UpdateDocumentation,
            description,
            priority: RecommendationPriority::Medium,
            affected_components: affected,
            estimated_impact: "Improved feature discoverability".to_owned(),
        });
    }
    r
}

/// The components that an implementation is missing for a claim: each
/// keyword of the claim that no code snippet mentions (both lowercased), as
/// `Missing <keyword>`, or a note that they are unknown when there is none.
pub open spec fn missing_components(keywords: Seq<Seq<char>>, snippets: Seq<Seq<char>>) -> Seq<Seq<char>> {
    let found = missing_keywords(keywords, snippets);
    if found.len() == 0 {
        seq!["Unknown missing components"@]
    } else {
        found
    }
}

/// `Missing <keyword>` for each keyword that no snippet mentions.
pub open spec fn missing_keywords(keywords: Seq<Seq<char>>, snippets: Seq<Seq<char>>) -> Seq<Seq<char>>
    decreases keywords.len(),
{
    if keywords.len() == 0 {
        seq![]
    } else {
        let k = keywords.last();
        missing_keywords(keywords.drop_last(), snippets) + if exists|j: int|
            0 <= j < snippets.len() && contains(lowercase(#[trigger] snippets[j]), lowercase(k)) {
            seq![]
        } else {
            seq!["Missing "@ + k]
        }
    }
}

/// The components that an implementation (its code snippets) is missing
/// for a claim (its keywords).
pub fn identify_missing_components(keywords: &Vec<String>, snippets: &Vec<String>) -> (r: Vec<String>)
    ensures
        string_views(r@) == missing_components(string_views(keywords@), string_views(snippets@)),
{
    let ghost ks = string_views(keywords@);
    let ghost ss = string_views(snippets@);
    let mut missing: Vec<String> = Vec::new();
    let mut i: usize = 0;
    while i < keywords.len()
        invariant
            ks == string_views(keywords@),
            ss == string_views(snippets@),
            i <= keywords@.len(),
            string_views(missing@) == missing_keywords(ks.take(i as int), ss),
        decreases keywords@.len() - i,
    {
        let kw = lower_chars(keywords[i].as_str());
        let kws = crate::text::string_from_chars(&kw, 0, kw.len());
        assert(kw@.subrange(0, kw@.len() as int) =~= kw@);
        let mut seen = false;
        let mut j: usize = 0;
        while j < snippets.len()
            invariant
                ss == string_views(snippets@),
                kws@ == lowercase(keywords@[i as int]@),
                j <= snippets@.len(),
                seen == exists|l: int| 0 <= l < j && contains(lowercase(#[trigger] ss[l]), kws@),
            decreases snippets@.len() - j,
        {
            assert(ss[j as int] == snippets@[j as int]@);
            let low = lower_chars(snippets[j].as_str());
            if crate::text::contains_str(&low, kws.as_str()) {
                seen = true;
            }
            j = j + 1;
        }
        let ghost before = missing@;
        if !seen {
            missing.push(concat_str("Missing ", keywords[i].as_str()));
        }
        proof {
            reveal_strlit("Missing ");
            let t = ks.take(i + 1);
            assert(t.drop_last() =~= ks.take(i as int));
            assert(t.last() == keywords@[i as int]@);
            assert(string_views(missing@) =~= missing_keywords(t, ss));
        }
        i = i + 1;
    }
    assert(ks.take(keywords@.len() as int) =~= ks);
    if missing.len() == 0 {
        missing.push("Unknown missing components".to_owned());
        assert(string_views(missing@) =~= seq!["Unknown missing components"@]);
    }
    missing
}

} // verus!
