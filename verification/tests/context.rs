use specgap::context_manager::{
    detect_circular_dependencies, enrich_cross_references, extract_segment_name, fill_missing_purposes, find_missing_references, find_orphaned_contexts,
    handle_edge_cases, infer_business_purpose, is_source_extension, note_language, should_create_cross_reference,
    validate_cross_references,
};
use specgap::context_types::{
    CrossReferenceMap, EdgeCaseType, ValidationResult, ValidationSeverity, ValidationWarning, ValidationWarningType,
};

fn ids(v: &[&str]) -> Vec<String> {
    v.iter().map(|s| s.to_string()).collect()
}

#[test]
fn self_dependency_is_a_cycle() {
    let mut m = CrossReferenceMap::new();
    m.add_functional_dependency("a".to_string(), "b".to_string());
    m.add_data_flow("b".to_string(), "b".to_string());
    assert_eq!(detect_circular_dependencies(&ids(&["a", "b"]), &m), Some(ids(&["b", "b"])));
    assert_eq!(detect_circular_dependencies(&ids(&["a"]), &m), None);
}

#[test]
fn two_segment_cycle_is_detected() {
    let mut m = CrossReferenceMap::new();
    m.add_functional_dependency("a".to_string(), "b".to_string());
    m.add_functional_dependency("b".to_string(), "a".to_string());
    assert_eq!(detect_circular_dependencies(&ids(&["a", "b"]), &m), Some(ids(&["a", "b", "a"])));
    let r = validate_cross_references(&ids(&["a", "b"]), &m);
    assert_eq!(r.circular_dependencies, Some(ids(&["a", "b", "a"])));
    assert!(!r.is_valid);
    assert_eq!(r.warnings[0].warning_type, ValidationWarningType::CircularDependency);
    assert_eq!(r.warnings[0].affected_segments, ids(&["a", "b", "a"]));
}

#[test]
fn longer_cycle_through_mixed_relations() {
    // a -> b by data flow, b -> c by function, c -> b by function; a is not on the cycle
    let mut m = CrossReferenceMap::new();
    m.add_data_flow("a".to_string(), "b".to_string());
    m.add_functional_dependency("b".to_string(), "c".to_string());
    m.add_functional_dependency("c".to_string(), "b".to_string());
    assert_eq!(detect_circular_dependencies(&ids(&["a", "b", "c"]), &m), Some(ids(&["b", "c", "b"])));
    // without c among the segments there is no cycle
    assert_eq!(detect_circular_dependencies(&ids(&["a", "b"]), &m), None);
}

#[test]
fn acyclic_chain_has_no_cycle() {
    let mut m = CrossReferenceMap::new();
    m.add_functional_dependency("a".to_string(), "b".to_string());
    m.add_functional_dependency("b".to_string(), "c".to_string());
    m.add_data_flow("a".to_string(), "c".to_string());
    assert_eq!(detect_circular_dependencies(&ids(&["a", "b", "c"]), &m), None);
    let r = validate_cross_references(&ids(&["a", "b", "c"]), &m);
    assert!(r.circular_dependencies.is_none());
    // c depends on nothing, so it is the one orphan and the only warning
    assert_eq!(r.orphaned_contexts, ids(&["c"]));
    assert_eq!(r.warnings.len(), 1);
    assert_eq!(r.warnings[0].warning_type, ValidationWarningType::OrphanedContext);
}

#[test]
fn test_cross_reference_validation_unknown_target() {
    let mut m = CrossReferenceMap::new();
    m.add_functional_dependency("existing_segment".to_string(), "non_existent_segment".to_string());
    let r = validate_cross_references(&ids(&["existing_segment"]), &m);
    assert!(!r.is_valid);
    assert_eq!(r.missing_references.len(), 1);
    assert_eq!(r.missing_references[0].missing_target, "non_existent_segment");
    assert!(!r.warnings.is_empty());
}

#[test]
fn missing_and_orphaned() {
    let mut m = CrossReferenceMap::new();
    m.add_functional_dependency("a".to_string(), "b".to_string());
    m.add_functional_dependency("a".to_string(), "zz".to_string());
    let missing = find_missing_references(&m, &ids(&["a", "b", "c"]));
    assert_eq!(missing.len(), 1);
    assert_eq!(missing[0].source_segment, "a");
    assert_eq!(missing[0].missing_target, "zz");
    assert_eq!(find_orphaned_contexts(&ids(&["a", "b", "c"]), &m), ids(&["b", "c"]));
}

#[test]
fn validation_reports_each_kind() {
    let mut m = CrossReferenceMap::new();
    m.add_functional_dependency("a".to_string(), "a".to_string());
    m.add_functional_dependency("a".to_string(), "gone".to_string());
    let r = validate_cross_references(&ids(&["a", "b"]), &m);
    assert!(!r.is_valid);
    assert_eq!(r.warnings.len(), 3);
    assert_eq!(r.warnings[0].warning_type, ValidationWarningType::CircularDependency);
    assert_eq!(r.warnings[0].message, "Circular dependencies detected: [\"a\", \"a\"]");
    assert_eq!(r.warnings[1].message, "Missing references found: 1");
    assert_eq!(r.warnings[1].affected_segments, ids(&["a"]));
    assert_eq!(r.warnings[2].message, "Orphaned contexts found: 1");
    assert_eq!(r.orphaned_contexts, ids(&["b"]));
    let clean = validate_cross_references(&Vec::new(), &CrossReferenceMap::new());
    assert!(clean.is_valid);
    assert!(clean.warnings.is_empty());
}

#[test]
fn edge_cases_of_project_shape() {
    let r = handle_edge_cases(0, 12000, vec!["Rust".to_string()]);
    assert_eq!(r.edge_cases_detected.len(), 2);
    assert_eq!(r.edge_cases_detected[0].case_type, EdgeCaseType::EmptyProject);
    assert_eq!(r.edge_cases_detected[1].description, "Large project with 12000 files detected");
    assert_eq!(r.handling_recommendations.len(), 2);
    assert_eq!(r.project_characteristics.total_files, 12000);
    let single = handle_edge_cases(1, 3, Vec::new());
    assert_eq!(single.edge_cases_detected.len(), 1);
    assert_eq!(single.edge_cases_detected[0].case_type, EdgeCaseType::SingleFileProject);
    assert!(handle_edge_cases(5, 5, Vec::new()).edge_cases_detected.is_empty());
}

#[test]
fn languages_and_sources() {
    assert!(is_source_extension("RS"));
    assert!(!is_source_extension("md"));
    let mut langs = Vec::new();
    note_language(&mut langs, "tsx");
    note_language(&mut langs, "ts");
    note_language(&mut langs, "PY");
    note_language(&mut langs, "txt");
    assert_eq!(langs, ids(&["TypeScript", "Python"]));
}

#[test]
fn segment_naming_and_purpose() {
    assert_eq!(extract_segment_name("  fn main() {}"), "fn");
    assert_eq!(extract_segment_name("   "), "unknown");
    assert_eq!(infer_business_purpose("class UserService").as_deref(), Some("User management and authentication"));
    assert_eq!(infer_business_purpose("def run_tests()").as_deref(), Some("Testing and quality assurance"));
    assert_eq!(infer_business_purpose("x = 1"), None);
    assert!(should_create_cross_reference("import Billing from './billing'", "auth", "y", "billing"));
    assert!(!should_create_cross_reference("a", "b", "c", "d"));
}

#[test]
fn enrichment_links_segments_that_mention_each_other() {
    let seg = |id: &str, content: &str, stem: &str| (id.to_string(), content.to_string(), stem.to_string());
    let segments = vec![
        seg("a", "uses User service", "auth"),
        seg("b", "user code", "user"),
        seg("c", "nothing", "misc"),
    ];
    let mut refs = CrossReferenceMap::new();
    refs.add_functional_dependency("a".to_string(), "z".to_string());
    let added = enrich_cross_references(&mut refs, &segments);
    assert_eq!(added, 2);
    // existing references stay first
    assert_eq!(refs.get_related_segments(&"a".to_string()), ids(&["b", "z"]));
    assert_eq!(refs.functional_dependencies.get(&"a".to_string()).unwrap(), &ids(&["z", "b"]));
    assert_eq!(refs.functional_dependencies.get(&"b".to_string()).unwrap(), &ids(&["a"]));
    assert!(refs.functional_dependencies.get(&"c".to_string()).is_none());
    // a segment never references itself, even when its text names its own file
    let mut refs = CrossReferenceMap::new();
    let added = enrich_cross_references(&mut refs, &vec![seg("x", "see x module", "x")]);
    assert_eq!(added, 0);
    assert!(refs.functional_dependencies.get(&"x".to_string()).is_none());
}

#[test]
fn missing_purposes_are_filled_from_text() {
    let mut purposes = vec![None, Some("Billing".to_string()), None, None];
    let contents = ids(&["fn login(user)", "fn charge()", "fn helper()", "SELECT * FROM Database"]);
    let filled = fill_missing_purposes(&mut purposes, &contents);
    assert_eq!(filled, 2);
    assert_eq!(
        purposes,
        vec![
            Some("User management and authentication".to_string()),
            Some("Billing".to_string()),
            None,
            Some("Data persistence and modeling".to_string()),
        ]
    );
}

#[test]
fn add_warning_keeps_the_rest() {
    let mut r = ValidationResult::new();
    let stamp = r.validation_timestamp;
    assert!(r.is_valid);
    r.add_warning(ValidationWarning {
        warning_type: ValidationWarningType::OrphanedContext,
        message: "Orphaned contexts found: 1".to_string(),
        affected_segments: ids(&["x"]),
        severity: ValidationSeverity::Low,
    });
    assert!(!r.is_valid);
    assert_eq!(r.warnings.len(), 1);
    assert_eq!(r.validation_timestamp, stamp);
    assert!(r.circular_dependencies.is_none());
    assert!(r.missing_references.is_empty() && r.orphaned_contexts.is_empty());
}
