use specgap::claims::{
    claim_from_line, claim_from_match, extract_context, extract_keywords, summarize_claims, ClaimPriority, ClaimType,
};
use specgap::conflict::{
    apply_resolution_strategy, calculate_claim_severity, summarize_conflicts, unimplemented_claim_outcome,
    ConflictSeverity, ConflictType, ResolutionPreferences, ResolutionStrategy,
};

#[test]
fn test_claim_priority_from_context() {
    assert_eq!(
        ClaimPriority::from_context(&ClaimType::Security, "encryption"),
        ClaimPriority::Critical
    );

    assert_eq!(
        ClaimPriority::from_context(&ClaimType::Api, "authentication API"),
        ClaimPriority::Critical
    );

    assert_eq!(
        ClaimPriority::from_context(&ClaimType::Feature, "user management"),
        ClaimPriority::Critical
    );
}

#[test]
fn claim_priority_other_branches() {
    assert_eq!(ClaimPriority::from_context(&ClaimType::Api, "Full CRUD operations"), ClaimPriority::High);
    assert_eq!(ClaimPriority::from_context(&ClaimType::Api, "GraphQL"), ClaimPriority::Medium);
    assert_eq!(ClaimPriority::from_context(&ClaimType::Feature, "Payment processing"), ClaimPriority::High);
    assert_eq!(ClaimPriority::from_context(&ClaimType::Feature, "dark mode"), ClaimPriority::Medium);
    assert_eq!(ClaimPriority::from_context(&ClaimType::Integration, "anything"), ClaimPriority::High);
    assert_eq!(ClaimPriority::from_context(&ClaimType::Deployment, "docker"), ClaimPriority::Low);
}

#[test]
fn claim_type_names() {
    assert_eq!(ClaimType::Api.as_str(), "api");
    assert_eq!(ClaimType::Security.as_str(), "security");
}

#[test]
fn context_window_joins_and_trims() {
    let lines: Vec<String> = vec!["a", " b", "c ", "d", "e"].into_iter().map(String::from).collect();
    assert_eq!(extract_context(&lines, 2, 1), "b c  d");
    assert_eq!(extract_context(&lines, 0, 3), "a  b c  d");
    assert_eq!(extract_context(&lines, 4, 0), "e");
}

#[test]
fn keywords_are_filtered_by_weights() {
    let keys: Vec<String> = vec!["authentication", "oauth", "api", "crud", "secure"]
        .into_iter()
        .map(String::from)
        .collect();
    let k = extract_keywords("Supports OAuth, secure API and (authentication).", &keys);
    assert_eq!(k, vec!["oauth", "secure", "api", "authentication"]);
    assert!(extract_keywords("nothing here", &keys).is_empty());
}

#[test]
fn summary_counts_claims() {
    let claims = vec![
        (ClaimType::Feature, ClaimPriority::Critical, true),
        (ClaimType::Api, ClaimPriority::High, false),
        (ClaimType::Feature, ClaimPriority::Medium, true),
        (ClaimType::Deployment, ClaimPriority::Low, false),
    ];
    let s = summarize_claims(&claims);
    assert_eq!(s.total_claims, 4);
    assert_eq!(s.high_confidence_claims, 2);
    assert_eq!(s.verification_needed, 3);
    assert_eq!(s.claims_by_type, vec![(ClaimType::Feature, 2), (ClaimType::Deployment, 1), (ClaimType::Api, 1)]);
    assert_eq!(
        s.claims_by_priority,
        vec![
            (ClaimPriority::Critical, 1),
            (ClaimPriority::High, 1),
            (ClaimPriority::Medium, 1),
            (ClaimPriority::Low, 1)
        ]
    );
}

#[test]
fn claim_severity_is_raised_for_confident_security_claims() {
    assert_eq!(calculate_claim_severity(ClaimPriority::High, ClaimType::Security, true), ConflictSeverity::Critical);
    assert_eq!(calculate_claim_severity(ClaimPriority::Low, ClaimType::Api, true), ConflictSeverity::Medium);
    assert_eq!(calculate_claim_severity(ClaimPriority::High, ClaimType::Security, false), ConflictSeverity::High);
    assert_eq!(calculate_claim_severity(ClaimPriority::Medium, ClaimType::Feature, true), ConflictSeverity::Medium);
}

#[test]
fn resolution_strategy_follows_preferences() {
    let prefs = ResolutionPreferences::standard();
    let (s, a) = apply_resolution_strategy(
        ConflictType::SecurityMismatch,
        ConflictSeverity::Low,
        ResolutionStrategy::Merge,
        &prefs,
    );
    assert_eq!(s, ResolutionStrategy::PreferCode);
    assert_eq!(a, "Use code analysis results; update documentation to match");
    let (s, a) = apply_resolution_strategy(
        ConflictType::ClaimedButNotImplemented,
        ConflictSeverity::Critical,
        ResolutionStrategy::PreferCode,
        &prefs,
    );
    assert_eq!(s, ResolutionStrategy::FlagAsInconsistent);
    assert_eq!(a, "Manual review required - significant discrepancy detected");
    let (s, _) = apply_resolution_strategy(
        ConflictType::TechnologyMismatch,
        ConflictSeverity::High,
        ResolutionStrategy::PreferDocumentation,
        &prefs,
    );
    assert_eq!(s, ResolutionStrategy::Merge);
}

#[test]
fn unimplemented_low_claims_are_dropped() {
    assert_eq!(unimplemented_claim_outcome(ConflictSeverity::Low, false, false), None);
    assert_eq!(
        unimplemented_claim_outcome(ConflictSeverity::Low, true, true),
        Some(ResolutionStrategy::FlagAsInconsistent)
    );
    assert_eq!(
        unimplemented_claim_outcome(ConflictSeverity::High, false, false),
        Some(ResolutionStrategy::PreferCode)
    );
}

#[test]
fn claims_from_documentation_lines() {
    let lines: Vec<String> = vec!["# Title".to_string(), "  It supports payment processing.  ".to_string(), "More".to_string()];
    let keys: Vec<String> = vec!["payment".to_string()];
    let feature = r"(?i)\b(supports?|provides?|includes?|features?)\s+([^.!?]+)";
    let c = claim_from_line(ClaimType::Feature, feature, &lines, 1, 3, &keys).unwrap();
    assert_eq!(c.claim_type, ClaimType::Feature);
    assert_eq!(c.description, "supports");
    assert_eq!(c.line_number, 2);
    assert_eq!(c.context, "# Title   It supports payment processing.   More");
    assert_eq!(c.priority, ClaimPriority::High);
    assert!(c.keywords.is_empty());
    assert_eq!(c.evidence, vec!["It supports payment processing.".to_string()]);
    // no match on the other lines
    assert!(claim_from_line(ClaimType::Feature, feature, &lines, 0, 3, &keys).is_none());
    assert!(claim_from_line(ClaimType::Feature, feature, &lines, 2, 3, &keys).is_none());
    // a pattern that does not compile finds nothing
    assert!(claim_from_line(ClaimType::Feature, "(", &lines, 1, 3, &keys).is_none());
    // a pattern without groups describes the claim by the whole line
    let c = claim_from_line(ClaimType::Security, "(?i)payment", &lines, 1, 0, &keys).unwrap();
    assert_eq!(c.description, "It supports payment processing.");
    assert_eq!(c.keywords, vec!["payment".to_string()]);
    assert_eq!(c.context, "It supports payment processing.");
    assert_eq!(c.priority, ClaimPriority::Critical);
}

#[test]
fn claim_from_given_group() {
    let lines: Vec<String> = vec!["uses OAuth login".to_string()];
    let keys: Vec<String> = vec!["oauth".to_string(), "login".to_string()];
    let c = claim_from_match(ClaimType::Feature, Some(" OAuth login ".to_string()), &lines, 0, 3, &keys);
    assert_eq!(c.description, "OAuth login");
    assert_eq!(c.keywords, vec!["oauth".to_string(), "login".to_string()]);
    assert_eq!(c.line_number, 1);
    let c = claim_from_match(ClaimType::Deployment, None, &lines, 0, 3, &keys);
    assert_eq!(c.description, "uses OAuth login");
    assert_eq!(c.priority, ClaimPriority::Low);
}

#[test]
fn conflict_summary_counts() {
    let conflicts = vec![
        (ConflictType::SecurityMismatch, ConflictSeverity::Critical, ResolutionStrategy::FlagAsInconsistent),
        (ConflictType::ClaimedButNotImplemented, ConflictSeverity::High, ResolutionStrategy::PreferCode),
        (ConflictType::ClaimedButNotImplemented, ConflictSeverity::Critical, ResolutionStrategy::Merge),
        (ConflictType::ImplementedButNotClaimed, ConflictSeverity::Low, ResolutionStrategy::PreferDocumentation),
    ];
    let s = summarize_conflicts(&conflicts);
    assert_eq!(s.total_conflicts, 4);
    assert_eq!(s.critical_conflicts, 2);
    assert_eq!(s.resolved_conflicts, 3);
    assert_eq!(s.flagged_for_review, 1);
    assert_eq!(
        s.conflicts_by_type,
        vec![
            (ConflictType::ClaimedButNotImplemented, 2),
            (ConflictType::ImplementedButNotClaimed, 1),
            (ConflictType::SecurityMismatch, 1),
        ]
    );
    assert_eq!(
        s.conflicts_by_severity,
        vec![(ConflictSeverity::Critical, 2), (ConflictSeverity::High, 1), (ConflictSeverity::Low, 1)]
    );
    let empty = summarize_conflicts(&Vec::new());
    assert_eq!((empty.total_conflicts, empty.resolved_conflicts, empty.flagged_for_review), (0, 0, 0));
    assert!(empty.conflicts_by_type.is_empty());
}
