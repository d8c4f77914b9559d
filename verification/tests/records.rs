use std::time::Duration;

use specgap::context_types::CrossReferenceMap;
use specgap::integration_tests::{ContextIntegrationTests, IntegrationTestResult};
use specgap::overlap::{features_match, word_overlap};
use specgap::refinement::InteractiveRefinementEngine;
use specgap::fusion::is_high_value_capability;
use specgap::segment_fusion::{derive_language_from_path, ConfidenceBand, ConfidenceBreakdown};
use specgap::types::Framework;
use specgap::validation_suite::{update_framework_stats, AccuracyCounts};

fn outcome(name: &str, passed: bool) -> IntegrationTestResult {
    IntegrationTestResult {
        test_name: name.to_string(),
        passed,
        execution_time: Duration::from_millis(5),
        details: String::new(),
        error_message: None,
    }
}

#[test]
fn integration_outcomes_are_counted() {
    let mut t = ContextIntegrationTests::new();
    assert_eq!(t.outcome_counts(), (0, 0, 0));
    t.record(outcome("a", true));
    t.record(outcome("b", false));
    t.record(outcome("c", true));
    assert_eq!(t.test_results.len(), 3);
    assert_eq!(t.test_results[1].test_name, "b");
    assert_eq!(t.outcome_counts(), (3, 2, 1));
}

#[test]
fn confidence_bands_are_counted() {
    let mut b = ConfidenceBreakdown::new();
    b.add_segment_band(ConfidenceBand::High);
    b.add_segment_band(ConfidenceBand::Low);
    b.add_segment_band(ConfidenceBand::High);
    b.add_segment_band(ConfidenceBand::Medium);
    assert_eq!(b.total_segments, 4);
    assert_eq!(b.high_confidence_segments, 2);
    assert_eq!(b.medium_confidence_segments, 1);
    assert_eq!(b.low_confidence_segments, 1);
}

#[test]
fn word_overlap_sizes() {
    // {user, login, page} and {user, Login, form}: only "user" is shared as written.
    assert_eq!(word_overlap("user login page", "user Login form", false, 0), (1, 3, 3));
    // lowercased, "login" is shared too.
    assert_eq!(word_overlap("user login page", "user Login form", true, 0), (2, 3, 3));
    // words of at most two bytes do not count.
    assert_eq!(word_overlap("an go to", "an API", true, 2), (0, 0, 1));
    assert_eq!(word_overlap("the api of it", "The API", true, 2), (2, 2, 2));
    // repeated words count once.
    assert_eq!(word_overlap("a a b", "", false, 0), (0, 2, 0));
}

#[test]
fn refinement_session_names() {
    assert_eq!(InteractiveRefinementEngine::at_time(0).session_id, "refinement_0");
    assert_eq!(InteractiveRefinementEngine::at_time(1700000000).session_id, "refinement_1700000000");
    let e = InteractiveRefinementEngine::new();
    assert!(e.session_id.starts_with("refinement_"));
    assert!(e.session_id["refinement_".len()..].chars().all(|c| c.is_ascii_digit()));
}

#[test]
fn related_segments_are_sorted_and_distinct() {
    let mut m = CrossReferenceMap::new();
    m.add_functional_dependency("main".to_string(), "util".to_string());
    m.add_functional_dependency("main".to_string(), "db".to_string());
    m.add_data_flow("main".to_string(), "util".to_string());
    m.add_data_flow("other".to_string(), "main".to_string());
    assert_eq!(m.get_related_segments(&"main".to_string()), vec!["db".to_string(), "util".to_string()]);
    assert_eq!(m.get_related_segments(&"other".to_string()), vec!["main".to_string()]);
    assert!(m.get_related_segments(&"none".to_string()).is_empty());
}

#[test]
fn framework_stats_tally_each_expectation() {
    let mut stats: Vec<(Framework, AccuracyCounts)> = Vec::new();
    let expected = vec![(Framework::Danet, true), (Framework::NestJS, false)];
    update_framework_stats(&mut stats, &expected, &vec![Framework::NestJS]);
    let expected2 = vec![(Framework::NextJS, true), (Framework::React, false), (Framework::Danet, true)];
    update_framework_stats(&mut stats, &expected2, &vec![Framework::NextJS, Framework::Danet]);
    let get = |f: Framework| stats.iter().find(|(g, _)| *g == f).map(|(_, c)| *c).unwrap();
    let danet = get(Framework::Danet);
    assert_eq!((danet.true_positives, danet.false_negatives, danet.false_positives, danet.true_negatives), (1, 1, 0, 0));
    let nest = get(Framework::NestJS);
    assert_eq!((nest.true_positives, nest.false_negatives, nest.false_positives, nest.true_negatives), (0, 0, 1, 0));
    let next = get(Framework::NextJS);
    assert_eq!(next.true_positives, 1);
    let react = get(Framework::React);
    assert_eq!(react.true_negatives, 1);
    assert_eq!(stats.len(), 4);
    // every expectation is counted once
    let total: usize = stats.iter().map(|(_, c)| c.true_positives + c.false_positives + c.true_negatives + c.false_negatives).sum();
    assert_eq!(total, expected.len() + expected2.len());
}

#[test]
fn test_feature_matching() {
    // Two descriptions match when more than 30% of their distinct lowercase words are shared.
    assert!(features_match("OAuth authentication system", "authentication with OAuth provider"));
    assert!(!features_match("OAuth authentication", "database connection pooling"));
}

#[test]
fn feature_matching_threshold_is_strict() {
    // 3 shared words of 10 distinct ones is exactly 30%: no match
    assert!(!features_match("a b c d e f g", "a b c h i j"));
    // 3 shared of 9 is a third: a match
    assert!(features_match("a b c d e f", "a b c g h i"));
    // case is ignored, and no words at all is no match
    assert!(features_match("Login", "LOGIN"));
    assert!(!features_match("", ""));
}

#[test]
fn high_value_capabilities() {
    assert!(is_high_value_capability("Payment processing"));
    assert!(is_high_value_capability("USER profiles"));
    assert!(is_high_value_capability("Data export"));
    assert!(!is_high_value_capability("Dark mode"));
    assert!(!is_high_value_capability(""));
}

#[test]
fn languages_by_extension() {
    assert_eq!(derive_language_from_path(Some("tsx")), "TypeScript");
    assert_eq!(derive_language_from_path(Some("jsx")), "JavaScript");
    assert_eq!(derive_language_from_path(Some("py")), "Python");
    assert_eq!(derive_language_from_path(Some("java")), "Java");
    assert_eq!(derive_language_from_path(Some("rs")), "Rust");
    assert_eq!(derive_language_from_path(Some("go")), "Go");
    assert_eq!(derive_language_from_path(Some("rb")), "TypeScript");
    assert_eq!(derive_language_from_path(None), "TypeScript");
}
