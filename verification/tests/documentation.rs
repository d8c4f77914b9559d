use specgap::documentation::{
    matches_context, ConflictSeverity, ConflictType, DocumentationAnalysisConfig, DocumentationExtractor,
    DocumentationSection, DocumentationSections,
};

fn empty_sections() -> DocumentationSections {
    DocumentationSections {
        project_description: None,
        installation_instructions: Vec::new(),
        usage_examples: Vec::new(),
        api_documentation: Vec::new(),
        architecture_info: Vec::new(),
        contributing_guidelines: Vec::new(),
        sections_found: Vec::new(),
    }
}

#[test]
fn test_documentation_extractor_creation() {
    let extractor = DocumentationExtractor::new();
    assert!(extractor.is_ok());
}

#[test]
fn default_extractor_uses_default_config() {
    let extractor = match DocumentationExtractor::new() {
        Ok(x) => x,
        Err(_) => panic!("the built-in patterns compile"),
    };
    let c = &extractor.config;
    assert!(c.enable_readme_extraction && c.enable_docs_scanning);
    assert!(c.validate_against_code && c.priority_code_over_docs);
    assert_eq!(c.max_file_size_kb, 500);
    assert_eq!(c.scan_patterns, vec!["README.md", "README.rst", "docs/**/*.md", "CONTRIBUTING.md", "API.md", "CHANGELOG.md"]);
    assert_eq!(c.extract_sections, vec!["description", "installation", "usage", "api", "architecture", "contributing"]);
}

#[test]
fn test_custom_config() {
    let config = DocumentationAnalysisConfig {
        enable_readme_extraction: false,
        enable_docs_scanning: true,
        validate_against_code: false,
        priority_code_over_docs: true,
        scan_patterns: vec!["README.md".to_string()],
        max_file_size_kb: 100,
        extract_sections: vec!["description".to_string()],
    };

    let extractor = DocumentationExtractor::with_config(config);
    assert!(extractor.is_ok());
}

#[test]
fn test_section_patterns() {
    let extractor = DocumentationExtractor::new().ok().unwrap();

    assert!(extractor.has_section_pattern(DocumentationSection::Description));
    assert!(extractor.has_section_pattern(DocumentationSection::Installation));
    assert!(extractor.has_section_pattern(DocumentationSection::Usage));
}

#[test]
fn test_technology_patterns() {
    let extractor = DocumentationExtractor::new().ok().unwrap();

    assert!(extractor.has_technology_pattern("React"));
    assert!(extractor.has_technology_pattern("Node.js"));
    assert!(extractor.has_technology_pattern("Docker"));
}

#[test]
fn test_setup_patterns() {
    let extractor = DocumentationExtractor::new().ok().unwrap();
    assert!(!extractor.setup_patterns.is_empty());

    let test_commands = vec!["npm install", "pip install requirements", "docker build .", "mvn clean install"];

    for command in test_commands {
        let matches = extractor.matches_setup_pattern(command);
        assert!(matches, "No pattern matched command: {}", command);
    }
}

#[test]
fn test_extract_sections() {
    let extractor = DocumentationExtractor::new().ok().unwrap();
    let mut extracted = empty_sections();

    let content = r#"
# My Project

## Description
This is a test project for documentation extraction.

## Installation
Run `npm install` to install dependencies.

## Usage
Use `npm start` to run the application.
"#;

    extractor.extract_sections(content, &mut extracted);

    assert!(extracted.project_description.is_some());
    assert!(!extracted.installation_instructions.is_empty());
    assert!(!extracted.usage_examples.is_empty());
    assert_eq!(extracted.sections_found.len(), 3);
}

#[test]
fn sections_hold_trimmed_text() {
    let extractor = DocumentationExtractor::new().ok().unwrap();
    let mut extracted = empty_sections();
    let content = "## About\n  A tool.  \n## Install\nnpm i\n### Notes\nignored\n## API\n\n";
    extractor.extract_sections(content, &mut extracted);
    assert_eq!(extracted.project_description.as_deref(), Some("A tool."));
    assert_eq!(extracted.installation_instructions, vec!["npm i\n### Notes".to_string()]);
    assert!(extracted.api_documentation.is_empty());
    assert_eq!(
        extracted.sections_found,
        vec![DocumentationSection::Description, DocumentationSection::Installation]
    );
}

#[test]
fn test_extract_setup_commands() {
    let extractor = DocumentationExtractor::new().ok().unwrap();
    let mut setup_commands: Vec<String> = Vec::new();

    let content = r#"
To set up the project:

```bash
npm install
pip install -r requirements.txt
docker build -t myapp .
```
"#;

    extractor.extract_setup_commands(content, &mut setup_commands);

    assert!(!setup_commands.is_empty());
    assert!(setup_commands.iter().any(|c| c.contains("npm install")));
    assert!(setup_commands.iter().any(|c| c.contains("pip install")));
    assert!(setup_commands.iter().any(|c| c.contains("docker build")));
}

#[test]
fn setup_commands_are_cleaned_and_unique() {
    let extractor = DocumentationExtractor::new().ok().unwrap();
    let mut setup_commands: Vec<String> = vec!["git clone repo".to_string()];
    extractor.extract_setup_commands("`$ $ npm install`\n# npm install\n  git clone repo  \nnpm install\n", &mut setup_commands);
    assert_eq!(setup_commands, vec!["git clone repo".to_string(), "npm install".to_string()]);
}

#[test]
fn test_version_extraction() {
    let extractor = DocumentationExtractor::new().ok().unwrap();

    let test_cases = vec![
        ("React v18.2.0", Some("18.2.0")),
        ("Node.js version: 16.14.2", Some("16.14.2")),
        ("@types/node@18.0.0", Some("18.0.0")),
        ("No version here", None),
    ];

    for (input, expected) in test_cases {
        let result = extractor.extract_version_from_context(input);
        match expected {
            Some(exp_version) => {
                assert!(result.is_some(), "Expected to find version in: {}", input);
                assert_eq!(result.unwrap(), exp_version);
            }
            None => {
                assert!(result.is_none(), "Expected no version in: {}", input);
            }
        }
    }
}

#[test]
fn technology_purposes() {
    let e = DocumentationExtractor::new().ok().unwrap();
    assert_eq!(e.infer_technology_purpose("React", ""), "Frontend UI Framework");
    assert_eq!(e.infer_technology_purpose("Spring Boot", ""), "Java Web Framework");
    assert_eq!(e.infer_technology_purpose("Cassandra", "a Database for events"), "Database Technology");
    assert_eq!(e.infer_technology_purpose("gRPC", "the API layer"), "API Technology");
    assert_eq!(e.infer_technology_purpose("Make", "build tool"), "Development Tool");
}

#[test]
fn installation_methods() {
    let e = DocumentationExtractor::new().ok().unwrap();
    assert_eq!(e.extract_installation_method("run npm   install now").as_deref(), Some("npm"));
    assert_eq!(e.extract_installation_method("build with gradle and docker").as_deref(), Some("gradle"));
    assert_eq!(e.extract_installation_method("nothing to see"), None);
}

#[test]
fn configuration_notes() {
    let e = DocumentationExtractor::new().ok().unwrap();
    let notes = e.extract_configuration_notes("Configure the database URL. Setup. Then run it. Environment variables are read");
    assert_eq!(notes, vec!["Configure the database URL".to_string(), "Environment variables are read".to_string()]);
}

#[test]
fn normalized_content_and_merging() {
    let e = DocumentationExtractor::new().ok().unwrap();
    assert_eq!(e.normalize_content_for_deduplication("  Run   NPM\ninstall \n"), "run npm install");
    let mut target: Vec<String> = vec!["first".to_string()];
    let mut seen: Vec<String> = vec!["first".to_string()];
    e.merge_string_vectors(
        &mut target,
        vec!["FIRST".to_string(), "Second  item".to_string(), "second item".to_string()],
        &mut seen,
    );
    assert_eq!(target, vec!["first".to_string(), "Second  item".to_string()]);
    assert_eq!(seen, vec!["first".to_string(), "second item".to_string()]);
}

#[test]
fn coverage_notes() {
    let e = DocumentationExtractor::new().ok().unwrap();
    let found = vec![DocumentationSection::Description, DocumentationSection::Usage];
    assert_eq!(
        e.missing_sections(&found),
        vec![
            DocumentationSection::Installation,
            DocumentationSection::Api,
            DocumentationSection::Architecture,
            DocumentationSection::Contributing,
            DocumentationSection::Examples,
            DocumentationSection::Configuration
        ]
    );
    let mut s = empty_sections();
    s.project_description = Some("Test project".to_string());
    s.usage_examples.push("npm start".to_string());
    assert_eq!(e.quality_indicators(&s, true), vec!["Has project description", "Has usage examples", "Has setup commands"]);
    assert_eq!(e.improvement_suggestions(&s), vec!["Add installation instructions"]);
}

#[test]
fn react_without_npm_is_a_conflict() {
    let e = DocumentationExtractor::new().ok().unwrap();
    let techs = vec!["React".to_string()];
    let mut conflicts = Vec::new();
    e.validate_against_code_analysis(&techs, &vec!["yarn add".to_string()], &mut conflicts);
    assert_eq!(conflicts.len(), 1);
    assert_eq!(conflicts[0].conflict_type, ConflictType::MissingDependency);
    assert_eq!(conflicts[0].severity, ConflictSeverity::Medium);
    assert_eq!(conflicts[0].documentation_claim, "Uses React");
    e.validate_against_code_analysis(&techs, &vec!["npm install".to_string()], &mut conflicts);
    assert_eq!(conflicts.len(), 1);
}

#[test]
fn section_names() {
    assert_eq!(DocumentationSection::Troubleshooting.as_str(), "troubleshooting");
    let c = DocumentationAnalysisConfig::default();
    assert_eq!(c.max_file_size_kb, 500);
    assert_eq!(c.scan_patterns.len(), 6);
}

#[test]
fn test_calculate_coverage() {
    let extractor = DocumentationExtractor::new().ok().unwrap();
    let mut sections = empty_sections();
    sections.project_description = Some("Test project".to_string());
    sections.installation_instructions = vec!["npm install".to_string()];
    sections.usage_examples = vec!["npm start".to_string()];
    sections.sections_found = vec![
        DocumentationSection::Description,
        DocumentationSection::Installation,
        DocumentationSection::Usage,
    ];
    let missing = extractor.missing_sections(&sections.sections_found);
    let found_count = sections.sections_found.len() as f32;
    let completeness_score = found_count / (found_count + missing.len() as f32);
    let quality_indicators = extractor.quality_indicators(&sections, false);

    assert!(completeness_score > 0.0);
    assert!(!quality_indicators.is_empty());
    assert!(quality_indicators.contains(&"Has project description".to_string()));
}

#[test]
fn test_extract_technologies() {
    let extractor = DocumentationExtractor::new().ok().unwrap();
    let content = r#"
This project uses React v18.2.0 for the frontend.
We also use Node.js for the backend and Docker for deployment.
"#;
    let technologies = extractor.mentioned_technologies(content);
    assert!(!technologies.is_empty());
    assert!(technologies.iter().any(|t| *t == "React"));
    assert!(technologies.iter().any(|t| *t == "Node.js"));
    assert!(technologies.iter().any(|t| *t == "Docker"));
    // in the order of the technology patterns, and nothing unmentioned
    assert_eq!(technologies, vec!["React", "Node.js", "Docker"]);
}

#[test]
fn technology_contexts_are_cut_around_matches() {
    let e = DocumentationExtractor::new().ok().unwrap();
    let react = "(?i)\\b(react|jsx|reactjs)\\b";
    let short = "This project uses React v18.2.0 for the frontend.";
    assert_eq!(e.extract_technology_context(short, react), Some(short.to_string()));
    let long = format!("{} react {}", "x".repeat(150), "y".repeat(150));
    let expected = format!("{} react {}", "x".repeat(99), "y".repeat(99));
    assert_eq!(e.extract_technology_context(&long, react), Some(expected));
    // each match gives its window, joined by " | "
    assert_eq!(e.extract_technology_context("react and jsx", react), Some("react and jsx | react and jsx".to_string()));
    // no match, no context
    assert_eq!(e.extract_technology_context("nothing here", react), Some(String::new()));
}

#[test]
fn context_cuts_inside_a_character_fail() {
    let text = format!("{}areact", "\u{e9}".repeat(60));
    // "react" starts at byte 121; a hundred bytes before is inside an accented letter
    assert_eq!(matches_context(&text, &vec![(121, 126)]), None);
    // from byte 120 the cut falls between letters
    assert_eq!(matches_context(&text, &vec![(120, 126)]), Some(format!("{}areact", "\u{e9}".repeat(50))));
    assert_eq!(matches_context(&text, &vec![]), Some(String::new()));
}
