use specgap::claims::{ClaimPriority, ClaimType};
use specgap::conflict::{ConflictSeverity, ConflictType};
use specgap::status::{
    action_type_for, assess_discrepancy_impact, categorize_todo_by_content, claim_priority_profile,
    estimate_effort_from_description, generate_consistency_recommendations, generate_feature_actions,
    generate_timeline_recommendation, identify_missing_components, major_discrepancy_severity, ActionType,
    BusinessImpact, CompletionLevel, DiscrepancySeverity, EffortLevel, RecommendationPriority,
    RecommendationType, StatusCategory, TechnicalComplexity,
};

#[test]
fn test_effort_estimation() {
    assert_eq!(
        estimate_effort_from_description("refactor entire authentication system"),
        EffortLevel::Large
    );

    assert_eq!(estimate_effort_from_description("fix typo"), EffortLevel::Small);

    assert_eq!(estimate_effort_from_description("add logging"), EffortLevel::Small);
}

#[test]
fn effort_for_short_refactors_and_other_work() {
    assert_eq!(estimate_effort_from_description("rewrite parser"), EffortLevel::Medium);
    assert_eq!(estimate_effort_from_description("document the module"), EffortLevel::Medium);
    assert_eq!(estimate_effort_from_description("Remove dead code"), EffortLevel::Small);
}

#[test]
fn test_todo_categorization() {
    assert_eq!(categorize_todo_by_content("TODO: implement OAuth authentication"), "Authentication");

    assert_eq!(categorize_todo_by_content("TODO: add REST API endpoint"), "API");

    assert_eq!(categorize_todo_by_content("TODO: fix database query"), "Database");
}

#[test]
fn todo_categories_in_order() {
    assert_eq!(categorize_todo_by_content("write more tests"), "Testing");
    assert_eq!(categorize_todo_by_content("FRONTEND polish"), "Frontend");
    assert_eq!(categorize_todo_by_content("optimize hot loop"), "Performance");
    assert_eq!(categorize_todo_by_content("misc"), "General");
}

#[test]
fn feature_actions_by_status() {
    assert_eq!(
        generate_feature_actions(&StatusCategory::PartiallyImplemented, &CompletionLevel::Partial),
        vec!["Complete the implementation", "Add error handling", "Add tests"]
    );
    assert_eq!(
        generate_feature_actions(&StatusCategory::PartiallyImplemented, &CompletionLevel::Minimal),
        vec!["Review implementation status"]
    );
    assert_eq!(
        generate_feature_actions(&StatusCategory::PlannedNotImplemented, &CompletionLevel::NotStarted),
        vec!["Implement this feature"]
    );
}

#[test]
fn timelines() {
    assert_eq!(
        generate_timeline_recommendation(&BusinessImpact::Critical, &TechnicalComplexity::Low),
        "Next sprint"
    );
    assert_eq!(
        generate_timeline_recommendation(&BusinessImpact::High, &TechnicalComplexity::High),
        "Within 2 months"
    );
    assert_eq!(
        generate_timeline_recommendation(&BusinessImpact::Low, &TechnicalComplexity::Low),
        "When capacity allows"
    );
}

#[test]
fn priority_profile_of_a_security_claim() {
    let (impact, complexity, effort, when) = claim_priority_profile(&ClaimPriority::Critical, &ClaimType::Security);
    assert_eq!(impact, BusinessImpact::Critical);
    assert_eq!(complexity, TechnicalComplexity::High);
    assert_eq!(effort, EffortLevel::Large);
    assert_eq!(when, "Within 1 month");
}

#[test]
fn conflict_mappings() {
    assert_eq!(action_type_for(&ConflictType::ImplementedButNotClaimed), ActionType::Document);
    assert_eq!(action_type_for(&ConflictType::PerformanceMismatch), ActionType::Fix);
    assert_eq!(major_discrepancy_severity(&ConflictSeverity::High), Some(DiscrepancySeverity::High));
    assert_eq!(major_discrepancy_severity(&ConflictSeverity::Medium), None);
    assert_eq!(
        assess_discrepancy_impact(&ConflictType::SecurityMismatch),
        "Security expectations may not match actual protection level"
    );
}

#[test]
fn consistency_recommendations_count_unmatched() {
    let r = generate_consistency_recommendations(3, 12);
    assert_eq!(r.len(), 2);
    assert_eq!(r[0].recommendation_type, RecommendationType::ImplementFeature);
    assert_eq!(r[0].description, "Implement 3 features claimed in documentation");
    assert_eq!(r[0].priority, RecommendationPriority::High);
    assert_eq!(r[1].description, "Document 12 implemented features");
    assert_eq!(r[1].affected_components, vec!["Documentation"]);
    assert!(generate_consistency_recommendations(0, 0).is_empty());
    let only = generate_consistency_recommendations(0, 1);
    assert_eq!(only.len(), 1);
    assert_eq!(only[0].recommendation_type, RecommendationType::UpdateDocumentation);
}

#[test]
fn missing_components_by_keyword() {
    let keywords: Vec<String> = vec!["OAuth".to_string(), "api".to_string()];
    let snippets: Vec<String> = vec!["fn oauth_login()".to_string()];
    assert_eq!(identify_missing_components(&keywords, &snippets), vec!["Missing api"]);
    let all: Vec<String> = vec!["fn api_oauth()".to_string()];
    assert_eq!(identify_missing_components(&keywords, &all), vec!["Unknown missing components"]);
}
