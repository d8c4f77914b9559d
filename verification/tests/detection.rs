use specgap::danet::{DanetDetector, DanetPatternType, DenoFeatures, ImportSystemType};
use specgap::enhanced::{
    detect_enhanced_ecosystem, extract_ast_evidence_for_framework, extract_segment_patterns,
    file_shows_rust_framework, should_skip_path, SegmentSummary,
};
use specgap::framework_detector::{ExtensionCounts, FrameworkDetector, PatternSet};
use specgap::types::{Framework, LanguageEcosystem};

fn tally(items: &[(&str, usize)]) -> ExtensionCounts {
    let mut c = ExtensionCounts::new();
    for (k, n) in items {
        for _ in 0..*n {
            c.record(k);
        }
    }
    c
}

#[test]
fn counts_record_and_get() {
    let c = tally(&[(".py", 3), (".ts", 1), (".py", 2)]);
    assert_eq!(c.get(".py"), 5);
    assert_eq!(c.get(".ts"), 1);
    assert_eq!(c.get(".rs"), 0);
}

#[test]
fn ecosystem_by_highest_score() {
    let d = FrameworkDetector::new("/tmp/x".to_string());
    assert_eq!(d.codebase_path, "/tmp/x");
    let c = tally(&[(".py", 2), (".ts", 3), (".tsx", 1)]);
    assert_eq!(d.detect_language_ecosystem(&c, false, false, false), LanguageEcosystem::TypeScript);
    assert_eq!(d.detect_language_ecosystem(&c, true, false, false), LanguageEcosystem::Deno);
    let js = tally(&[(".js", 4), (".java", 1)]);
    assert_eq!(d.detect_language_ecosystem(&js, false, false, false), LanguageEcosystem::JavaScript);
    assert_eq!(d.detect_language_ecosystem(&js, false, false, true), LanguageEcosystem::Java);
    assert_eq!(d.detect_language_ecosystem(&ExtensionCounts::new(), false, false, false), LanguageEcosystem::Mixed);
}

#[test]
fn ignored_directories() {
    let d = FrameworkDetector::new(".".to_string());
    assert!(d.is_ignored_for_search("node_modules"));
    assert!(!d.is_ignored_for_search(".specstory"));
    assert!(d.is_ignored_for_counting(".specstory"));
    assert!(!d.is_ignored_for_counting("src"));
    assert_eq!(d.extension_key("py"), ".py");
}

#[test]
fn pattern_sets_match_files() {
    let d = FrameworkDetector::new(".".to_string());
    assert!(d.file_shows_patterns(PatternSet::FlaskImports, "PY", "from flask import Flask"));
    assert!(!d.file_shows_patterns(PatternSet::FlaskImports, "js", "from flask import Flask"));
    assert!(d.file_shows_patterns(PatternSet::SpringBootCode, "java", "@RestController class A {}"));
    assert!(!d.file_shows_patterns(PatternSet::ReactCode, "tsx", "const x = 1;"));
    let exts = vec!["*.js", "ts"];
    assert!(d.extension_matches(&exts, "JS"));
    assert!(d.extension_matches(&exts, "ts"));
    assert!(!d.extension_matches(&exts, "tsx"));
}

#[test]
fn single_file_probes() {
    let d = FrameworkDetector::new(".".to_string());
    assert!(d.python_file_has("py", "import fastapi", "import fastapi"));
    assert!(!d.python_file_has("pyi", "import fastapi", "import fastapi"));
    assert!(d.file_has_url_import("ts", "import x from \"https://deno.land/x/y\""));
    assert!(d.file_shows_jsx("tsx", ""));
    assert!(d.file_shows_jsx("js", "return <div/>"));
    assert!(!d.file_shows_jsx("py", "<div"));
    assert!(d.file_shows_nextjs("jsx", "'use client'"));
    assert!(d.script_file_has("tsx", "from '@nestjs/core'", "from '@nestjs/"));
    assert!(!d.decorator_file_has("tsx", "@Controller", "@Controller"));
}

#[test]
fn deno_and_danet_decisions() {
    let d = FrameworkDetector::new(".".to_string());
    assert!(d.is_deno_project(false, false, false, true));
    assert!(!d.is_deno_project(false, false, false, false));
    assert!(d.has_danet_tasks(None, Some("{\"tasks\": {\"launch-server\": \"x\"}}")));
    assert!(!d.has_danet_tasks(Some("{}"), None));
    assert!(!d.has_danet_decorators(true, false));
    assert!(d.has_danet_structure(true, true));
    assert_eq!(d.danet_structure_dirs().len(), 6);
}

#[test]
fn versions_from_manifests() {
    let d = FrameworkDetector::new(".".to_string());
    let req = "numpy\nFlask==2.3.1\nfastapi >= 0.100\n";
    assert_eq!(d.extract_version_from_requirements(Some(req), "Flask").as_deref(), Some("2.3.1"));
    assert_eq!(d.extract_version_from_requirements(Some(req), "fastapi").as_deref(), Some(">=0.100"));
    assert_eq!(d.extract_version_from_requirements(Some(req), "django"), None);
    assert_eq!(d.extract_version_from_requirements(None, "Flask"), None);
    let pkg = "{\"dependencies\": {\"react\": \"^18.2.0\"}}";
    assert_eq!(d.extract_version_from_package(Some(pkg), "react").as_deref(), Some("react"));
    assert_eq!(d.extract_version_from_package(Some(pkg), "vue"), None);
}

#[test]
fn versions_by_regex() {
    let d = FrameworkDetector::new(".".to_string());
    let pom = "<parent><groupId>org.springframework.boot</groupId>\n  <artifactId>spring-boot-starter-parent</artifactId>\n  <version>3.1.2</version></parent>";
    assert_eq!(d.extract_maven_version(pom, "org.springframework.boot").as_deref(), Some("3.1.2"));
    assert_eq!(d.extract_spring_boot_version(Some(pom), None).as_deref(), Some("3.1.2"));
    assert_eq!(d.extract_gradle_version("id 'org.springframework.boot' version '3.0.0'", "org.springframework.boot"), None);
    let gradle = "classpath 'org.springframework.boot:plugin:'3.0.0'";
    assert_eq!(d.extract_gradle_version(gradle, "org.springframework.boot").as_deref(), Some("3.0.0"));
    assert_eq!(d.extract_spring_boot_version(Some("<project/>"), Some(gradle)).as_deref(), Some("3.0.0"));
    assert_eq!(d.extract_jsr_version("import x from \"jsr:@danet/core@2.9.1\";", "@danet/core").as_deref(), Some("2.9.1"));
    let sources = vec!["no import".to_string(), "jsr:@danet/core@1.2.3".to_string()];
    assert_eq!(d.extract_danet_version(&sources, None).as_deref(), Some("1.2.3"));
    assert_eq!(d.extract_danet_version(&Vec::new(), Some("\"jsr:@danet/core@0.1.0\"")).as_deref(), Some("0.1.0"));
}

#[test]
fn danet_detector_reads_config_and_sources() {
    let det = DanetDetector::new();
    let mut f = DenoFeatures {
        native_typescript: false,
        builtin_tooling: Vec::new(),
        import_system: ImportSystemType::Unknown,
        permissions_model: None,
        std_library_usage: Vec::new(),
    };
    det.parse_deno_config(
        "{\"imports\": {}, \"tasks\": {\"deno fmt\": \"x\", \"dev\": \"y\"}, \"permissions\": [\"net\"]}",
        &mut f,
    );
    assert_eq!(f.import_system, ImportSystemType::ImportMap);
    assert_eq!(f.builtin_tooling, vec!["deno fmt".to_string()]);
    assert_eq!(f.permissions_model.as_deref(), Some("[\"net\"]"));
    det.parse_deno_config("not json", &mut f);
    assert_eq!(f.builtin_tooling.len(), 1);
    assert_eq!(det.classify_imports("import { A } from \"@nestjs/common\""), (false, false, true));
    assert!(det.main_shows_deno("Deno.serve(app)"));
    assert!(!det.counts_as_typescript("ts", "node_modules/x.ts"));
    let p = det.patterns_in_file("src/app.ts", "@Module({}) @Controller('x')");
    assert_eq!(p.len(), 2);
    assert_eq!(p[0].pattern_type, DanetPatternType::Controller);
    assert_eq!(p[1].pattern_type, DanetPatternType::Module);
    assert_eq!(p[1].nestjs_equivalent.as_deref(), Some("@Module from @nestjs/common"));
    let c = det.generate_nestjs_comparison(true, ImportSystemType::ImportMap);
    assert_eq!(c.len(), 6);
    assert_eq!(det.generate_nestjs_comparison(false, ImportSystemType::Unknown).len(), 3);
}

#[test]
fn enhanced_detection_helpers() {
    assert!(should_skip_path("web/node_modules/react/index.js"));
    assert!(!should_skip_path("src/main.rs"));
    let c = tally(&[(".js", 6), (".ts", 4), (".rs", 1)]);
    assert_eq!(detect_enhanced_ecosystem(&c), LanguageEcosystem::JavaScript);
    let c = tally(&[(".js", 4), (".ts", 4)]);
    assert_eq!(detect_enhanced_ecosystem(&c), LanguageEcosystem::TypeScript);
    assert_eq!(
        extract_segment_patterns(&Framework::React, "const [a, setA] = useState(0); props.x"),
        vec!["useState hook", "Props usage"]
    );
    assert!(file_shows_rust_framework(&Framework::Axum, "use axum::Router;"));
    assert!(!file_shows_rust_framework(&Framework::Flask, "axum"));
    let segs = vec![
        SegmentSummary { framework_context: Some(Framework::Flask), content: "@app.route('/')".to_string(), business_hints: vec!["web".to_string()] },
        SegmentSummary { framework_context: None, content: "x".to_string(), business_hints: vec![] },
    ];
    let e = extract_ast_evidence_for_framework(&Framework::Flask, &segs).unwrap();
    assert_eq!(e.relevant_segments, 1);
    assert_eq!(e.framework_specific_patterns, vec!["Flask route decorator"]);
    assert_eq!(e.business_domain_hints, vec!["web"]);
    assert!(extract_ast_evidence_for_framework(&Framework::React, &segs).is_none());
}
