//! Information that project documentation gives: its sections, setup
//! commands, technology versions and purposes, and the checks of the
//! patterns that find them.
use vstd::prelude::*;
use crate::patterns::{first_group, is_valid_regex, match_ranges, regex_group1, regex_match_ranges, regex_search, regex_valid, search};
use crate::framework_detector::contains_any;
use crate::text::{
    chars_of, contains, contains_str, copy_range, line_ranges, lines, lowercase, lower_chars,
    join, join_strings, split, split_ranges, starts_with, starts_with_at, string_eq, trim_both,
    trim_left_range, word_ranges, words,
    str_eq, string_from_chars, string_views, to_lower, trim, trim_range, utf8_len, utf8_longer_than,
    CharClass,
};

verus! {

/// A kind of section of a project's documentation.
#[derive(Debug, Clone, Copy, PartialEq, Eq, Structural, Hash)]
pub enum DocumentationSection {
    Description,
    Installation,
    Usage,
    Api,
    Architecture,
    Contributing,
    Changelog,
    License,
    Examples,
    Configuration,
    Troubleshooting,
}

/// The lowercase name of a section.
pub open spec fn section_name(s: DocumentationSection) -> Seq<char> {
    match s {
        DocumentationSection::Description => "description"@,
        DocumentationSection::Installation => "installation"@,
        DocumentationSection::Usage => "usage"@,
        DocumentationSection::Api => "api"@,
        DocumentationSection::Architecture => "architecture"@,
        DocumentationSection::Contributing => "contributing"@,
        DocumentationSection::Changelog => "changelog"@,
        DocumentationSection::License => "license"@,
        DocumentationSection::Examples => "examples"@,
        DocumentationSection::Configuration => "configuration"@,
        DocumentationSection::Troubleshooting => "troubleshooting"@,
    }
}

impl DocumentationSection {
    /// The lowercase name of the section, for matching.
    pub fn as_str(&self) -> (r: &'static str)
        ensures
            r@ == section_name(*self),
    {
        match self {
            DocumentationSection::Description => "description",
            DocumentationSection::Installation => "installation",
            DocumentationSection::Usage => "usage",
            DocumentationSection::Api => "api",
            DocumentationSection::Architecture => "architecture",
            DocumentationSection::Contributing => "contributing",
            DocumentationSection::Changelog => "changelog",
            DocumentationSection::License => "license",
            DocumentationSection::Examples => "examples",
            DocumentationSection::Configuration => "configuration",
            DocumentationSection::Troubleshooting => "troubleshooting",
        }
    }
}

/// A conflict between what the documentation claims and what the code shows.
pub struct ValidationConflict {
    pub conflict_type: ConflictType,
    pub documentation_claim: String,
    pub code_reality: String,
    pub severity: ConflictSeverity,
    pub file_location: Option<String>,
    pub recommendation: String,
}

/// The kind of a conflict between documentation and code.
#[derive(Debug, Clone, Copy, PartialEq, Eq, Structural)]
pub enum ConflictType {
    FrameworkMismatch,
    VersionMismatch,
    MissingDependency,
    ObsoleteInstructions,
    IncorrectApiUsage,
    MissingConfiguration,
}

/// How serious a conflict between documentation and code is.
#[derive(Debug, Clone, Copy, PartialEq, Eq, Structural)]
pub enum ConflictSeverity {
    Low,
    Medium,
    High,
    Critical,
}

/// What the documentation analysis does and where it looks.
pub struct DocumentationAnalysisConfig {
    pub enable_readme_extraction: bool,
    pub enable_docs_scanning: bool,
    pub validate_against_code: bool,
    pub priority_code_over_docs: bool,
    pub scan_patterns: Vec<String>,
    pub max_file_size_kb: u64,
    pub extract_sections: Vec<String>,
}

/// The files that the default configuration scans.
pub open spec fn default_scan_patterns() -> Seq<Seq<char>> {
    seq![
        "README.md"@,
        "README.rst"@,
        "docs/**/*.md"@,
        "CONTRIBUTING.md"@,
        "API.md"@,
        "CHANGELOG.md"@,
    ]
}

/// The sections that the default configuration extracts.
pub open spec fn default_extract_sections() -> Seq<Seq<char>> {
    seq!["description"@, "installation"@, "usage"@, "api"@, "architecture"@, "contributing"@]
}

/// Owned copies of string literals.
fn owned_all(v: &Vec<&str>) -> (r: Vec<String>)
    ensures
        string_views(r@) == v@.map_values(|s: &str| s@),
{
    let mut r: Vec<String> = Vec::new();
    let mut i: usize = 0;
    while i < v.len()
        invariant
            i <= v@.len(),
            string_views(r@) == v@.map_values(|s: &str| s@).take(i as int),
        decreases v@.len() - i,
    {
        let ghost before = r@;
        let o = v[i].to_owned();
        r.push(o);
        proof {
            assert(string_views(r@) =~= string_views(before).push(o@));
            assert(v@.map_values(|s: &str| s@).take(i + 1) =~= v@.map_values(|s: &str| s@).take(
                i as int,
            ).push(v@[i as int]@));
        }
        i = i + 1;
    }
    assert(v@.map_values(|s: &str| s@).take(v@.len() as int) =~= v@.map_values(|s: &str| s@));
    r
}

/// Whether `c` is the default configuration: every switch on, the default
/// scan patterns and sections, and files up to 500 KB.
pub open spec fn is_default_config(c: DocumentationAnalysisConfig) -> bool {
    &&& c.enable_readme_extraction
    &&& c.enable_docs_scanning
    &&& c.validate_against_code
    &&& c.priority_code_over_docs
    &&& string_views(c.scan_patterns@) == default_scan_patterns()
    &&& c.max_file_size_kb == 500
    &&& string_views(c.extract_sections@) == default_extract_sections()
}

impl Default for DocumentationAnalysisConfig {
    fn default() -> (r: Self)
        ensures
            is_default_config(r),
    {
        let scan: Vec<&str> = vec![
            "README.md",
            "README.rst",
            "docs/**/*.md",
            "CONTRIBUTING.md",
            "API.md",
            "CHANGELOG.md",
        ];
        let sections: Vec<&str> = vec![
            "description",
            "installation",
            "usage",
            "api",
            "architecture",
            "contributing",
        ];
        let scan_patterns = owned_all(&scan);
        let extract_sections = owned_all(&sections);
        assert(scan@.map_values(|s: &str| s@) =~= default_scan_patterns());
        assert(sections@.map_values(|s: &str| s@) =~= default_extract_sections());
        DocumentationAnalysisConfig {
            enable_readme_extraction: true,
            enable_docs_scanning: true,
            validate_against_code: true,
            priority_code_over_docs: true,
            scan_patterns,
            max_file_size_kb: 500,
            extract_sections,
        }
    }
}

/// The header patterns of the sections, in the order they are tried.
pub open spec fn section_pattern_list() -> Seq<(DocumentationSection, Seq<char>)> {
    seq![
        (DocumentationSection::Description, "(?i)^#+\\s*(description|about|overview|what\\s+is)"@),
        (DocumentationSection::Installation, "(?i)^#+\\s*(installation|install|setup|getting\\s+started)"@),
        (DocumentationSection::Usage, "(?i)^#+\\s*(usage|how\\s+to\\s+use|quick\\s+start|examples?)"@),
        (DocumentationSection::Api, "(?i)^#+\\s*(api|reference|endpoints?)"@),
        (DocumentationSection::Architecture, "(?i)^#+\\s*(architecture|design|structure)"@),
        (DocumentationSection::Contributing, "(?i)^#+\\s*(contributing|development|contribute)"@),
        (DocumentationSection::Changelog, "(?i)^#+\\s*(changelog|changes|history)"@),
        (DocumentationSection::License, "(?i)^#+\\s*(license|licensing)"@),
        (DocumentationSection::Examples, "(?i)^#+\\s*(examples?|samples?)"@),
        (DocumentationSection::Configuration, "(?i)^#+\\s*(configuration|config|settings)"@),
        (DocumentationSection::Troubleshooting, "(?i)^#+\\s*(troubleshooting|faq|problems?)"@),
    ]
}

/// The technologies that documentation is searched for, with their patterns.
pub open spec fn technology_pattern_list() -> Seq<(Seq<char>, Seq<char>)> {
    seq![
        ("React"@, "(?i)\\b(react|jsx|reactjs)\\b"@),
        ("Next.js"@, "(?i)\\b(next\\.?js|nextjs)\\b"@),
        ("Vue.js"@, "(?i)\\b(vue\\.?js|vuejs)\\b"@),
        ("Angular"@, "(?i)\\b(angular|ng-)\\b"@),
        ("Node.js"@, "(?i)\\b(node\\.?js|nodejs|npm|yarn)\\b"@),
        ("Express"@, "(?i)\\b(express\\.?js|expressjs)\\b"@),
        ("NestJS"@, "(?i)\\b(nest\\.?js|nestjs)\\b"@),
        ("Spring Boot"@, "(?i)\\b(spring\\s+boot|springboot)\\b"@),
        ("Django"@, "(?i)\\bdjango\\b"@),
        ("Flask"@, "(?i)\\bflask\\b"@),
        ("FastAPI"@, "(?i)\\b(fastapi|fast\\s+api)\\b"@),
        ("Docker"@, "(?i)\\b(docker|dockerfile|docker-compose)\\b"@),
        ("Kubernetes"@, "(?i)\\b(kubernetes|k8s|kubectl)\\b"@),
        ("PostgreSQL"@, "(?i)\\b(postgresql|postgres|psql)\\b"@),
        ("MySQL"@, "(?i)\\bmysql\\b"@),
        ("MongoDB"@, "(?i)\\bmongodb\\b"@),
        ("Redis"@, "(?i)\\bredis\\b"@),
        ("GraphQL"@, "(?i)\\bgraphql\\b"@),
        ("REST API"@, "(?i)\\b(rest|restful)\\s+(api|service)\\b"@),
        ("TypeScript"@, "(?i)\\btypescript\\b"@),
        ("Python"@, "(?i)\\bpython\\b"@),
        ("Java"@, "(?i)\\bjava\\b"@),
        ("Go"@, "(?i)\\b(golang|go\\s+lang)\\b"@),
        ("Rust"@, "(?i)\\brust\\b"@),
    ]
}

/// The patterns of setup commands.
pub open spec fn setup_pattern_list() -> Seq<Seq<char>> {
    seq![
        "(?i)\\b(npm|yarn)\\s+(install|i)\\b"@,
        "(?i)\\bpip\\s+install\\b"@,
        "(?i)\\bmvn\\s+(clean\\s+)?install\\b"@,
        "(?i)\\bgradle\\s+build\\b"@,
        "(?i)\\bcargo\\s+build\\b"@,
        "(?i)\\bmake\\s+(install|build)\\b"@,
        "(?i)\\bdocker\\s+(build|run)\\b"@,
        "(?i)\\bgit\\s+clone\\b"@,
    ]
}

/// Whether every section, technology and setup pattern compiles.
pub open spec fn all_patterns_valid() -> bool {
    &&& forall|i: int| 0 <= i < section_pattern_list().len() ==> regex_valid(#[trigger] section_pattern_list()[i].1)
    &&& forall|i: int| 0 <= i < technology_pattern_list().len() ==> regex_valid(#[trigger] technology_pattern_list()[i].1)
    &&& forall|i: int| 0 <= i < setup_pattern_list().len() ==> regex_valid(#[trigger] setup_pattern_list()[i])
}

/// A pattern of the documentation extractor that does not compile.
pub enum DocumentationError {
    PatternCompilation(String),
}

/// The version patterns tried on a technology's context, in order.
pub open spec fn version_pattern_list() -> Seq<Seq<char>> {
    seq![
        "v?(\\d+\\.\\d+(?:\\.\\d+)?)"@,
        "@(\\d+\\.\\d+(?:\\.\\d+)?)"@,
        "version\\s*[:\\-]\\s*(\\d+\\.\\d+(?:\\.\\d+)?)"@,
    ]
}

/// Group 1 of the first of `pats[i..]` that captures it in `text`.
pub open spec fn first_capture_from(pats: Seq<Seq<char>>, text: Seq<char>, i: int) -> Option<Seq<char>>
    decreases pats.len() - i,
{
    if i < 0 || i >= pats.len() {
        None
    } else {
        match regex_group1(pats[i], text) {
            Some(v) => Some(v),
            None => first_capture_from(pats, text, i + 1),
        }
    }
}

/// The purpose of a technology, by its lowercase name, else by its
/// lowercase context.
pub open spec fn technology_purpose(name: Seq<char>, context: Seq<char>) -> Seq<char> {
    if name == "react"@ || name == "vue.js"@ || name == "angular"@ {
        "Frontend UI Framework"@
    } else if name == "next.js"@ {
        "Full-stack React Framework"@
    } else if name == "node.js"@ {
        "JavaScript Runtime"@
    } else if name == "express"@ || name == "nestjs"@ {
        "Backend Web Framework"@
    } else if name == "spring boot"@ {
        "Java Web Framework"@
    } else if name == "django"@ || name == "flask"@ || name == "fastapi"@ {
        "Python Web Framework"@
    } else if name == "docker"@ {
        "Containerization"@
    } else if name == "kubernetes"@ {
        "Container Orchestration"@
    } else if name == "postgresql"@ || name == "mysql"@ || name == "mongodb"@ {
        "Database"@
    } else if name == "redis"@ {
        "Caching/Message Broker"@
    } else if name == "graphql"@ {
        "API Query Language"@
    } else if name == "typescript"@ {
        "Type-safe JavaScript"@
    } else if contains(context, "database"@) {
        "Database Technology"@
    } else if contains(context, "api"@) {
        "API Technology"@
    } else {
        "Development Tool"@
    }
}

/// The installation patterns and the method each names, in order.
pub open spec fn install_pattern_list() -> Seq<(Seq<char>, Seq<char>)> {
    seq![
        ("npm\\s+install"@, "npm"@),
        ("yarn\\s+add"@, "yarn"@),
        ("pip\\s+install"@, "pip"@),
        ("mvn\\s+install"@, "maven"@),
        ("gradle"@, "gradle"@),
        ("cargo"@, "cargo"@),
        ("docker"@, "docker"@),
    ]
}

/// The method of the first of `list[i..]` whose pattern matches `text`.
pub open spec fn install_method_from(list: Seq<(Seq<char>, Seq<char>)>, text: Seq<char>, i: int) -> Option<Seq<char>>
    decreases list.len() - i,
{
    if i < 0 || i >= list.len() {
        None
    } else if regex_search(list[i].0, text) == Some(true) {
        Some(list[i].1)
    } else {
        install_method_from(list, text, i + 1)
    }
}

/// The words that mark a sentence as a configuration note.
pub open spec fn config_keywords() -> Seq<Seq<char>> {
    seq!["config"@, "configure"@, "setup"@, "environment"@, "settings"@]
}

/// Whether a trimmed sentence is a configuration note: it mentions a
/// configuration word (case-insensitively), and is longer than ten bytes.
pub open spec fn is_config_note(t: Seq<char>) -> bool {
    contains_any(lowercase(t), config_keywords()) && t.len() > 0 && utf8_len(t) > 10
}

/// The configuration notes among the sentences `parts`, trimmed, in order.
pub open spec fn config_notes(parts: Seq<Seq<char>>) -> Seq<Seq<char>>
    decreases parts.len(),
{
    if parts.len() == 0 {
        seq![]
    } else {
        config_notes(parts.drop_last()) + if is_config_note(trim(parts.last())) {
            seq![trim(parts.last())]
        } else {
            seq![]
        }
    }
}

/// Whether a trimmed documentation line is no command line: a code fence,
/// a header or comment, or empty.
pub open spec fn skipped_setup_line(t: Seq<char>) -> bool {
    starts_with(t, "```"@) || starts_with(t, "#"@) || t.len() == 0
}

/// Whether one of the patterns `pats` matches `t`.
pub open spec fn matches_some(pats: Seq<Seq<char>>, t: Seq<char>) -> bool {
    exists|i: int| 0 <= i < pats.len() && regex_search(#[trigger] pats[i], t) == Some(true)
}

/// `s` with every leading copy of `pat` removed (`trim_start_matches`).
pub open spec fn strip_prefix_all(s: Seq<char>, pat: Seq<char>) -> Seq<char>
    decreases s.len(),
{
    if pat.len() > 0 && starts_with(s, pat) {
        strip_prefix_all(s.subrange(pat.len() as int, s.len() as int), pat)
    } else {
        s
    }
}

/// A command line cleaned of backticks at both ends and of `$ ` prompts,
/// then trimmed.
pub open spec fn cleaned_command(t: Seq<char>) -> Seq<char> {
    trim(strip_prefix_all(trim_both(t, CharClass::Backtick), "$ "@))
}

/// The setup commands after the lines `ls` are read: each line that is a
/// command (it matches one of `pats`), cleaned, added unless already there.
pub open spec fn add_setup_commands(cmds: Seq<Seq<char>>, pats: Seq<Seq<char>>, ls: Seq<Seq<char>>) -> Seq<Seq<char>>
    decreases ls.len(),
{
    if ls.len() == 0 {
        cmds
    } else {
        let prev = add_setup_commands(cmds, pats, ls.drop_last());
        let t = trim(ls.last());
        if skipped_setup_line(t) || !matches_some(pats, t) {
            prev
        } else if prev.contains(cleaned_command(t)) {
            prev
        } else {
            prev.push(cleaned_command(t))
        }
    }
}

/// `s` with each line ending replaced by a space.
pub open spec fn newlines_to_spaces(s: Seq<char>) -> Seq<char> {
    s.map_values(|c: char| if c == '\n' { ' ' } else { c })
}

/// The form of a piece of documentation that deduplication compares:
/// trimmed, its words joined by single spaces, lowercased.
pub open spec fn normalized_content(s: Seq<char>) -> Seq<char> {
    lowercase(join(words(newlines_to_spaces(trim(s))), " "@))
}

/// The items kept and the normalized forms seen after merging `src` into
/// `target` with `seen` already seen: an item is kept when its normalized
/// form has not been seen.
pub open spec fn merge_items(target: Seq<Seq<char>>, seen: Seq<Seq<char>>, src: Seq<Seq<char>>) -> (Seq<Seq<char>>, Seq<Seq<char>>)
    decreases src.len(),
{
    if src.len() == 0 {
        (target, seen)
    } else {
        let (t, s) = merge_items(target, seen, src.drop_last());
        let n = normalized_content(src.last());
        if s.contains(n) {
            (t, s)
        } else {
            (t.push(src.last()), s.push(n))
        }
    }
}

/// Whether `v` holds a string equal to `x`.
pub fn contains_string(v: &Vec<String>, x: &String) -> (r: bool)
    ensures
        r == string_views(v@).contains(x@),
{
    let mut i: usize = 0;
    while i < v.len()
        invariant
            i <= v@.len(),
            forall|j: int| 0 <= j < i ==> v@[j]@ != x@,
        decreases v@.len() - i,
    {
        if string_eq(&v[i], x) {
            assert(string_views(v@)[i as int] == x@);
            return true;
        }
        i = i + 1;
    }
    proof {
        if string_views(v@).contains(x@) {
            let j = choose|j: int| 0 <= j < string_views(v@).len() && string_views(v@)[j] == x@;
            assert(v@[j]@ == x@);
        }
    }
    false
}

/// Removes the leading copies of `$ ` from `t[a..b]`, as a start position.
fn strip_prompts(t: &Vec<char>, a: usize, b: usize) -> (r: usize)
    requires
        a <= b <= t@.len(),
    ensures
        a <= r <= b,
        t@.subrange(r as int, b as int) == strip_prefix_all(t@.subrange(a as int, b as int), "$ "@),
{
    proof {
        reveal_strlit("$ ");
    }
    let mut i = a;
    while i < b
        invariant
            a <= i <= b <= t@.len(),
            "$ "@.len() == 2,
            strip_prefix_all(t@.subrange(a as int, b as int), "$ "@) == strip_prefix_all(
                t@.subrange(i as int, b as int),
                "$ "@,
            ),
        decreases b - i,
    {
        if !starts_with_at(t, i, b, "$ ") {
            return i;
        }
        assert(t@.subrange(i as int, b as int).subrange(2, (b - i) as int) =~= t@.subrange(i + 2, b as int));
        i = i + 2;
    }
    i
}

/// The cleaned form of the command line `t`.
fn clean_command(t: &Vec<char>) -> (r: String)
    ensures
        r@ == cleaned_command(t@),
{
    let (a, b) = trim_range(t, 0, t.len(), &CharClass::Backtick);
    assert(t@.subrange(0, t@.len() as int) =~= t@);
    let s = strip_prompts(t, a, b);
    let (x, y) = trim_range(t, s, b, &CharClass::WhiteSpace);
    string_from_chars(t, x, y)
}

/// The text that documentation sections hold, by kind, and the kinds found.
pub struct DocumentationSections {
    pub project_description: Option<String>,
    pub installation_instructions: Vec<String>,
    pub usage_examples: Vec<String>,
    pub api_documentation: Vec<String>,
    pub architecture_info: Vec<String>,
    pub contributing_guidelines: Vec<String>,
    pub sections_found: Vec<DocumentationSection>,
}

/// The mathematical content of [`DocumentationSections`].
pub struct SectionsView {
    pub description: Option<Seq<char>>,
    pub installation: Seq<Seq<char>>,
    pub usage: Seq<Seq<char>>,
    pub api: Seq<Seq<char>>,
    pub architecture: Seq<Seq<char>>,
    pub contributing: Seq<Seq<char>>,
    pub found: Seq<DocumentationSection>,
}

impl View for DocumentationSections {
    type V = SectionsView;

    open spec fn view(&self) -> SectionsView {
        SectionsView {
            description: crate::text::opt_string_view(self.project_description),
            installation: string_views(self.installation_instructions@),
            usage: string_views(self.usage_examples@),
            api: string_views(self.api_documentation@),
            architecture: string_views(self.architecture_info@),
            contributing: string_views(self.contributing_guidelines@),
            found: self.sections_found@,
        }
    }
}

/// The sections after the text `content` of a section of kind `sec` is
/// saved: nothing when it is blank; else the kind is recorded as found and
/// the trimmed text goes to the field of its kind (the description only
/// when there is none yet).
pub open spec fn save_section(v: SectionsView, sec: DocumentationSection, content: Seq<char>) -> SectionsView {
    let c = trim(content);
    if c.len() == 0 {
        v
    } else {
        let found = if v.found.contains(sec) {
            v.found
        } else {
            v.found.push(sec)
        };
        let w = SectionsView { found, ..v };
        match sec {
            DocumentationSection::Description => if w.description is None {
                SectionsView { description: Some(c), ..w }
            } else {
                w
            },
            DocumentationSection::Installation => SectionsView { installation: w.installation.push(c), ..w },
            DocumentationSection::Usage => SectionsView { usage: w.usage.push(c), ..w },
            DocumentationSection::Api => SectionsView { api: w.api.push(c), ..w },
            DocumentationSection::Architecture => SectionsView { architecture: w.architecture.push(c), ..w },
            DocumentationSection::Contributing => SectionsView { contributing: w.contributing.push(c), ..w },
            _ => w,
        }
    }
}

/// The kind of the first of `pats[i..]` whose header pattern matches `line`.
pub open spec fn header_section_from(pats: Seq<(DocumentationSection, Seq<char>)>, line: Seq<char>, i: int) -> Option<DocumentationSection>
    decreases pats.len() - i,
{
    if i < 0 || i >= pats.len() {
        None
    } else if regex_search(pats[i].1, line) == Some(true) {
        Some(pats[i].0)
    } else {
        header_section_from(pats, line, i + 1)
    }
}

/// The state of a scan of documentation lines: the section being read, the
/// text read for it, and the sections saved.
pub struct SectionScan {
    pub current: Option<DocumentationSection>,
    pub buffer: Seq<char>,
    pub saved: SectionsView,
}

/// One line of the scan, the line at index `idx`: a header of a known kind
/// saves the section being read and starts one of that kind; another line
/// inside a section is added to its text, and a line starting with `#`
/// after the first ends that section.
pub open spec fn scan_line(st: SectionScan, pats: Seq<(DocumentationSection, Seq<char>)>, line: Seq<char>, idx: int) -> SectionScan {
    match header_section_from(pats, line, 0) {
        Some(sec) => {
            let saved = match st.current {
                Some(prev) => save_section(st.saved, prev, st.buffer),
                None => st.saved,
            };
            SectionScan { current: Some(sec), buffer: seq![], saved }
        },
        None => match st.current {
            Some(cur) => {
                let buffer = st.buffer + line + seq!['\n'];
                if line.len() > 0 && line[0] == '#' && idx > 0 {
                    SectionScan { current: None, buffer: seq![], saved: save_section(st.saved, cur, buffer) }
                } else {
                    SectionScan { current: Some(cur), buffer, saved: st.saved }
                }
            },
            None => st,
        },
    }
}

/// The scan after the first `n` of the lines `ls`.
pub open spec fn scan_lines(st: SectionScan, pats: Seq<(DocumentationSection, Seq<char>)>, ls: Seq<Seq<char>>, n: int) -> SectionScan
    decreases n,
{
    if n <= 0 {
        st
    } else {
        scan_line(scan_lines(st, pats, ls, n - 1), pats, ls[n - 1], n - 1)
    }
}

/// The sections once the documentation `content` is read: the scan over its
/// lines, then the section still being read saved.
pub open spec fn extracted_sections(v: SectionsView, pats: Seq<(DocumentationSection, Seq<char>)>, content: Seq<char>) -> SectionsView {
    let ls = lines(content);
    let end = scan_lines(SectionScan { current: None, buffer: seq![], saved: v }, pats, ls, ls.len() as int);
    match end.current {
        Some(sec) => save_section(end.saved, sec, end.buffer),
        None => end.saved,
    }
}

/// The sections whose presence documentation coverage measures.
pub open spec fn coverage_sections() -> Seq<DocumentationSection> {
    seq![
        DocumentationSection::Description,
        DocumentationSection::Installation,
        DocumentationSection::Usage,
        DocumentationSection::Api,
        DocumentationSection::Architecture,
        DocumentationSection::Contributing,
        DocumentationSection::Examples,
        DocumentationSection::Configuration,
    ]
}

/// The sections of `all` that are not in `found`, in order.
pub open spec fn missing_from(all: Seq<DocumentationSection>, found: Seq<DocumentationSection>) -> Seq<DocumentationSection>
    decreases all.len(),
{
    if all.len() == 0 {
        seq![]
    } else {
        missing_from(all.drop_last(), found) + if found.contains(all.last()) {
            seq![]
        } else {
            seq![all.last()]
        }
    }
}

/// `name` when `on` holds, else nothing.
pub open spec fn note_if(on: bool, name: Seq<char>) -> Seq<Seq<char>> {
    if on {
        seq![name]
    } else {
        seq![]
    }
}

/// The quality indicators of documentation with these sections and, or
/// not, setup commands.
pub open spec fn quality_notes(v: SectionsView, has_setup_commands: bool) -> Seq<Seq<char>> {
    note_if(v.description is Some, "Has project description"@) + note_if(
        v.installation.len() > 0,
        "Has installation instructions"@,
    ) + note_if(v.usage.len() > 0, "Has usage examples"@) + note_if(
        has_setup_commands,
        "Has setup commands"@,
    )
}

/// The improvements suggested for documentation with these sections.
pub open spec fn suggestion_notes(v: SectionsView) -> Seq<Seq<char>> {
    note_if(v.description is None, "Add project description"@) + note_if(
        v.installation.len() == 0,
        "Add installation instructions"@,
    ) + note_if(v.usage.len() == 0, "Add usage examples"@)
}

/// Whether the documentation mentions React but no installation
/// instruction mentions npm.
pub open spec fn react_without_npm(technologies: Seq<Seq<char>>, installation: Seq<Seq<char>>) -> bool {
    technologies.contains("React"@) && !(exists|i: int| 0 <= i < installation.len() && contains(#[trigger] installation[i], "npm"@))
}

/// Appends `name` to `v` when `on` holds.
fn push_note(v: &mut Vec<String>, on: bool, name: &str)
    ensures
        string_views(final(v)@) == string_views(old(v)@) + note_if(on, name@),
{
    let ghost before = v@;
    if on {
        v.push(name.to_owned());
    }
    assert(string_views(v@) =~= string_views(before) + note_if(on, name@));
}

/// Extracts information from project documentation. The patterns are held as
/// their text; the regex engine compiles them where they are used.
pub struct DocumentationExtractor {
    pub config: DocumentationAnalysisConfig,
    pub section_patterns: Vec<(DocumentationSection, &'static str)>,
    pub technology_patterns: Vec<(&'static str, &'static str)>,
    pub setup_patterns: Vec<&'static str>,
}

/// The views of a list of (section, pattern) pairs.
pub open spec fn section_views(v: Seq<(DocumentationSection, &str)>) -> Seq<(DocumentationSection, Seq<char>)> {
    v.map_values(|e: (DocumentationSection, &str)| (e.0, e.1@))
}

/// The views of a list of (name, pattern) pairs.
pub open spec fn pair_views(v: Seq<(&str, &str)>) -> Seq<(Seq<char>, Seq<char>)> {
    v.map_values(|e: (&str, &str)| (e.0@, e.1@))
}

/// The views of a list of string slices.
pub open spec fn slice_views(v: Seq<&str>) -> Seq<Seq<char>> {
    v.map_values(|s: &str| s@)
}

/// The names among `pats` whose pattern matches somewhere in `text`, in order.
pub open spec fn mentioned_in(pats: Seq<(Seq<char>, Seq<char>)>, text: Seq<char>) -> Seq<Seq<char>>
    decreases pats.len(),
{
    if pats.len() == 0 {
        seq![]
    } else {
        mentioned_in(pats.drop_last(), text) + if regex_search(pats.last().1, text) == Some(true) {
            seq![pats.last().0]
        } else {
            seq![]
        }
    }
}

/// The index of the character of `s` that starts at byte `b`, scanning from
/// character `k` (the end of `s` counts as a start); `None` when no
/// character starts there.
pub open spec fn char_at_byte(s: Seq<char>, b: int, k: int) -> Option<int>
    decreases s.len() + 1 - k,
{
    if k < 0 || k > s.len() {
        None
    } else if utf8_len(s.take(k)) == b {
        Some(k)
    } else if utf8_len(s.take(k)) > b {
        None
    } else {
        char_at_byte(s, b, k + 1)
    }
}

/// The text of `s` within a hundred bytes of the match at bytes `st..en`
/// (cut at the start and end of `s`); `None` when a cut falls inside a
/// character.
pub open spec fn match_window(s: Seq<char>, st: int, en: int) -> Option<Seq<char>> {
    let a = if st >= 100 {
        st - 100
    } else {
        0
    };
    let b = if en + 100 <= utf8_len(s) {
        en + 100
    } else {
        utf8_len(s) as int
    };
    match (char_at_byte(s, a, 0), char_at_byte(s, b, 0)) {
        (Some(i), Some(j)) => if i <= j {
            Some(s.subrange(i, j))
        } else {
            None
        },
        _ => None,
    }
}

/// The windows of `s` around the matches `ms`, when every one can be cut.
pub open spec fn match_windows(s: Seq<char>, ms: Seq<(int, int)>) -> Option<Seq<Seq<char>>>
    decreases ms.len(),
{
    if ms.len() == 0 {
        Some(seq![])
    } else {
        match (match_windows(s, ms.drop_last()), match_window(s, ms.last().0, ms.last().1)) {
            (Some(ws), Some(w)) => Some(ws.push(w)),
            _ => None,
        }
    }
}

/// The context of matches in `s`: the windows around them joined by " | ".
pub open spec fn matches_context_text(s: Seq<char>, ms: Seq<(int, int)>) -> Option<Seq<char>> {
    match match_windows(s, ms) {
        Some(ws) => Some(join(ws, " | "@)),
        None => None,
    }
}

/// Byte ranges as pairs of integers.
pub open spec fn int_pairs(ms: Seq<(usize, usize)>) -> Seq<(int, int)> {
    ms.map_values(|m: (usize, usize)| (m.0 as int, m.1 as int))
}

/// The byte offset at which each character of `cs` starts, then the total;
/// `None` when the total does not fit in `usize`.
fn char_byte_offsets(cs: &Vec<char>) -> (r: Option<Vec<usize>>)
    ensures
        r is None <==> utf8_len(cs@) > usize::MAX,
        r matches Some(offs) ==> offs@.len() == cs@.len() + 1 && forall|k: int|
            0 <= k <= cs@.len() ==> #[trigger] offs@[k] == utf8_len(cs@.take(k)),
{
    let mut offs: Vec<usize> = Vec::new();
    offs.push(0);
    assert(cs@.take(0) =~= Seq::<char>::empty());
    let mut acc: usize = 0;
    let mut i: usize = 0;
    while i < cs.len()
        invariant
            i <= cs@.len(),
            offs@.len() == i + 1,
            acc == utf8_len(cs@.take(i as int)),
            forall|k: int| 0 <= k <= i ==> #[trigger] offs@[k] == utf8_len(cs@.take(k)),
        decreases cs@.len() - i,
    {
        let u = cs[i] as u32;
        let w: usize = if u < 0x80 {
            1
        } else if u < 0x800 {
            2
        } else if u < 0x10000 {
            3
        } else {
            4
        };
        assert(cs@.take(i + 1).drop_last() =~= cs@.take(i as int));
        assert(utf8_len(cs@.take(i + 1)) == acc + w);
        if acc > usize::MAX - w {
            proof {
                crate::text::lemma_utf8_len_prefix(cs@, i + 1);
            }
            return None;
        }
        acc = acc + w;
        offs.push(acc);
        i = i + 1;
    }
    assert(cs@.take(cs@.len() as int) =~= cs@);
    Some(offs)
}

/// The index of the character that starts at byte `b` (see `char_at_byte`).
fn char_index_at_byte(offs: &Vec<usize>, b: usize, Ghost(s): Ghost<Seq<char>>) -> (r: Option<usize>)
    requires
        offs@.len() == s.len() + 1,
        forall|k: int| 0 <= k <= s.len() ==> #[trigger] offs@[k] == utf8_len(s.take(k)),
    ensures
        match r {
            Some(i) => char_at_byte(s, b as int, 0) == Some(i as int),
            None => char_at_byte(s, b as int, 0) is None,
        },
{
    let mut k: usize = 0;
    while k < offs.len()
        invariant
            offs@.len() == s.len() + 1,
            forall|j: int| 0 <= j <= s.len() ==> #[trigger] offs@[j] == utf8_len(s.take(j)),
            k <= offs@.len(),
            char_at_byte(s, b as int, 0) == char_at_byte(s, b as int, k as int),
        decreases offs@.len() - k,
    {
        assert(offs@[k as int] == utf8_len(s.take(k as int)));
        if offs[k] == b {
            return Some(k);
        }
        if offs[k] > b {
            return None;
        }
        k = k + 1;
    }
    None
}

/// The context of the matches `ms` (byte ranges) in `content`: the text
/// within a hundred bytes around each, joined by " | "; `None` when a cut
/// falls inside a character (or the text's length in bytes does not fit in
/// `usize`).
pub fn matches_context(content: &str, ms: &Vec<(usize, usize)>) -> (r: Option<String>)
    ensures
        match r {
            Some(c) => utf8_len(content@) <= usize::MAX && matches_context_text(content@, int_pairs(ms@)) == Some(c@),
            None => utf8_len(content@) > usize::MAX || matches_context_text(content@, int_pairs(ms@)) is None,
        },
{
    let cs = chars_of(content);
    let offs = match char_byte_offsets(&cs) {
        Some(o) => o,
        None => return None,
    };
    let total = offs[cs.len()];
    assert(cs@.take(cs@.len() as int) =~= cs@);
    let ghost s = content@;
    let ghost pairs = int_pairs(ms@);
    let mut parts: Vec<String> = Vec::new();
    let mut i: usize = 0;
    while i < ms.len()
        invariant
            cs@ == s,
            s == content@,
            pairs == int_pairs(ms@),
            offs@.len() == s.len() + 1,
            forall|k: int| 0 <= k <= s.len() ==> #[trigger] offs@[k] == utf8_len(s.take(k)),
            total == utf8_len(s),
            i <= ms@.len(),
            match_windows(s, pairs.take(i as int)) == Some(parts@.map_values(|p: String| p@)),
        decreases ms@.len() - i,
    {
        let (st, en) = ms[i];
        assert(pairs.take(i + 1).drop_last() =~= pairs.take(i as int));
        assert(pairs.take(i + 1).last() == (st as int, en as int));
        let a: usize = if st >= 100 {
            st - 100
        } else {
            0
        };
        let b: usize = if en <= total && total - en >= 100 {
            en + 100
        } else {
            total
        };
        let ia = char_index_at_byte(&offs, a, Ghost(s));
        let ib = char_index_at_byte(&offs, b, Ghost(s));
        match (ia, ib) {
            (Some(x), Some(y)) => {
                if x > y {
                    assert(match_windows(s, pairs.take(i + 1)) is None);
                    proof {
                        lemma_windows_fail_extends(s, pairs, i + 1);
                    }
                    return None;
                }
                proof {
                    lemma_char_at_byte_bound(s, a as int, 0);
                    lemma_char_at_byte_bound(s, b as int, 0);
                }
                let part = string_from_chars(&cs, x, y);
                let ghost before = parts@;
                parts.push(part);
                assert(parts@.map_values(|p: String| p@) =~= before.map_values(|p: String| p@).push(
                    s.subrange(x as int, y as int),
                ));
            },
            _ => {
                assert(match_windows(s, pairs.take(i + 1)) is None);
                proof {
                    lemma_windows_fail_extends(s, pairs, i + 1);
                }
                return None;
            },
        }
        i = i + 1;
    }
    assert(pairs.take(ms@.len() as int) =~= pairs);
    let r = join_strings(&parts, " | ");
    Some(r)
}

proof fn lemma_windows_fail_extends(s: Seq<char>, ms: Seq<(int, int)>, k: int)
    requires
        0 <= k <= ms.len(),
        match_windows(s, ms.take(k)) is None,
    ensures
        match_windows(s, ms) is None,
    decreases ms.len(),
{
    if k < ms.len() {
        assert(ms.drop_last().take(k) =~= ms.take(k));
        lemma_windows_fail_extends(s, ms.drop_last(), k);
    } else {
        assert(ms.take(k) =~= ms);
    }
}

proof fn lemma_char_at_byte_bound(s: Seq<char>, b: int, k: int)
    ensures
        char_at_byte(s, b, k) matches Some(i) ==> 0 <= i <= s.len(),
    decreases s.len() + 1 - k,
{
    if 0 <= k <= s.len() && utf8_len(s.take(k)) < b {
        lemma_char_at_byte_bound(s, b, k + 1);
    }
}

impl DocumentationExtractor {
    /// The patterns are those of the lists above.
    pub open spec fn holds_patterns(&self) -> bool {
        &&& section_views(self.section_patterns@) == section_pattern_list()
        &&& pair_views(self.technology_patterns@) == technology_pattern_list()
        &&& slice_views(self.setup_patterns@) == setup_pattern_list()
    }

    /// An extractor with the default configuration.
    pub fn new() -> (r: Result<Self, DocumentationError>)
        ensures
            r is Ok <==> all_patterns_valid(),
            r matches Ok(x) ==> x.holds_patterns() && is_default_config(x.config),
    {
        Self::with_config(DocumentationAnalysisConfig::default())
    }

    /// An extractor with the configuration `config`; an error names the first
    /// pattern that does not compile.
    pub fn with_config(config: DocumentationAnalysisConfig) -> (r: Result<Self, DocumentationError>)
        ensures
            r is Ok <==> all_patterns_valid(),
            r matches Ok(x) ==> x.holds_patterns() && x.config == config,
    {
        let section_patterns: Vec<(DocumentationSection, &'static str)> = vec![
            (DocumentationSection::Description, "(?i)^#+\\s*(description|about|overview|what\\s+is)"),
            (DocumentationSection::Installation, "(?i)^#+\\s*(installation|install|setup|getting\\s+started)"),
            (DocumentationSection::Usage, "(?i)^#+\\s*(usage|how\\s+to\\s+use|quick\\s+start|examples?)"),
            (DocumentationSection::Api, "(?i)^#+\\s*(api|reference|endpoints?)"),
            (DocumentationSection::Architecture, "(?i)^#+\\s*(architecture|design|structure)"),
            (DocumentationSection::Contributing, "(?i)^#+\\s*(contributing|development|contribute)"),
            (DocumentationSection::Changelog, "(?i)^#+\\s*(changelog|changes|history)"),
            (DocumentationSection::License, "(?i)^#+\\s*(license|licensing)"),
            (DocumentationSection::Examples, "(?i)^#+\\s*(examples?|samples?)"),
            (DocumentationSection::Configuration, "(?i)^#+\\s*(configuration|config|settings)"),
            (DocumentationSection::Troubleshooting, "(?i)^#+\\s*(troubleshooting|faq|problems?)"),
        ];
        let technology_patterns: Vec<(&'static str, &'static str)> = vec![
            ("React", "(?i)\\b(react|jsx|reactjs)\\b"),
            ("Next.js", "(?i)\\b(next\\.?js|nextjs)\\b"),
            ("Vue.js", "(?i)\\b(vue\\.?js|vuejs)\\b"),
            ("Angular", "(?i)\\b(angular|ng-)\\b"),
            ("Node.js", "(?i)\\b(node\\.?js|nodejs|npm|yarn)\\b"),
            ("Express", "(?i)\\b(express\\.?js|expressjs)\\b"),
            ("NestJS", "(?i)\\b(nest\\.?js|nestjs)\\b"),
            ("Spring Boot", "(?i)\\b(spring\\s+boot|springboot)\\b"),
            ("Django", "(?i)\\bdjango\\b"),
            ("Flask", "(?i)\\bflask\\b"),
            ("FastAPI", "(?i)\\b(fastapi|fast\\s+api)\\b"),
            ("Docker", "(?i)\\b(docker|dockerfile|docker-compose)\\b"),
            ("Kubernetes", "(?i)\\b(kubernetes|k8s|kubectl)\\b"),
            ("PostgreSQL", "(?i)\\b(postgresql|postgres|psql)\\b"),
            ("MySQL", "(?i)\\bmysql\\b"),
            ("MongoDB", "(?i)\\bmongodb\\b"),
            ("Redis", "(?i)\\bredis\\b"),
            ("GraphQL", "(?i)\\bgraphql\\b"),
            ("REST API", "(?i)\\b(rest|restful)\\s+(api|service)\\b"),
            ("TypeScript", "(?i)\\btypescript\\b"),
            ("Python", "(?i)\\bpython\\b"),
            ("Java", "(?i)\\bjava\\b"),
            ("Go", "(?i)\\b(golang|go\\s+lang)\\b"),
            ("Rust", "(?i)\\brust\\b"),
        ];
        let setup_patterns: Vec<&'static str> = vec![
            "(?i)\\b(npm|yarn)\\s+(install|i)\\b",
            "(?i)\\bpip\\s+install\\b",
            "(?i)\\bmvn\\s+(clean\\s+)?install\\b",
            "(?i)\\bgradle\\s+build\\b",
            "(?i)\\bcargo\\s+build\\b",
            "(?i)\\bmake\\s+(install|build)\\b",
            "(?i)\\bdocker\\s+(build|run)\\b",
            "(?i)\\bgit\\s+clone\\b",
        ];
        assert(section_views(section_patterns@) =~= section_pattern_list());
        assert(pair_views(technology_patterns@) =~= technology_pattern_list());
        assert(slice_views(setup_patterns@) =~= setup_pattern_list());
        let mut i: usize = 0;
        while i < section_patterns.len()
            invariant
                i <= section_patterns@.len(),
                section_views(section_patterns@) == section_pattern_list(),
                forall|j: int| 0 <= j < i ==> regex_valid(#[trigger] section_pattern_list()[j].1),
            decreases section_patterns@.len() - i,
        {
            assert(section_pattern_list()[i as int].1 == section_patterns@[i as int].1@);
            if !is_valid_regex(section_patterns[i].1) {
                return Err(DocumentationError::PatternCompilation(section_patterns[i].1.to_owned()));
            }
            i = i + 1;
        }
        let mut i: usize = 0;
        while i < technology_patterns.len()
            invariant
                i <= technology_patterns@.len(),
                pair_views(technology_patterns@) == technology_pattern_list(),
                forall|j: int| 0 <= j < section_pattern_list().len() ==> regex_valid(#[trigger] section_pattern_list()[j].1),
                forall|j: int| 0 <= j < i ==> regex_valid(#[trigger] technology_pattern_list()[j].1),
            decreases technology_patterns@.len() - i,
        {
            assert(technology_pattern_list()[i as int].1 == technology_patterns@[i as int].1@);
            if !is_valid_regex(technology_patterns[i].1) {
                return Err(DocumentationError::PatternCompilation(technology_patterns[i].1.to_owned()));
            }
            i = i + 1;
        }
        let mut i: usize = 0;
        while i < setup_patterns.len()
            invariant
                i <= setup_patterns@.len(),
                slice_views(setup_patterns@) == setup_pattern_list(),
                forall|j: int| 0 <= j < section_pattern_list().len() ==> regex_valid(#[trigger] section_pattern_list()[j].1),
                forall|j: int| 0 <= j < technology_pattern_list().len() ==> regex_valid(#[trigger] technology_pattern_list()[j].1),
                forall|j: int| 0 <= j < i ==> regex_valid(#[trigger] setup_pattern_list()[j]),
            decreases setup_patterns@.len() - i,
        {
            assert(setup_pattern_list()[i as int] == setup_patterns@[i as int]@);
            if !is_valid_regex(setup_patterns[i]) {
                return Err(DocumentationError::PatternCompilation(setup_patterns[i].to_owned()));
            }
            i = i + 1;
        }
        Ok(DocumentationExtractor { config, section_patterns, technology_patterns, setup_patterns })
    }

    /// The version in a technology's context: group 1 of the first version
    /// pattern that captures one.
    pub fn extract_version_from_context(&self, context: &str) -> (r: Option<String>)
        ensures
            crate::text::opt_string_view(r) == first_capture_from(version_pattern_list(), context@, 0),
    {
        let pats: Vec<&str> = vec![
            "v?(\\d+\\.\\d+(?:\\.\\d+)?)",
            "@(\\d+\\.\\d+(?:\\.\\d+)?)",
            "version\\s*[:\\-]\\s*(\\d+\\.\\d+(?:\\.\\d+)?)",
        ];
        assert(slice_views(pats@) =~= version_pattern_list());
        let mut i: usize = 0;
        while i < pats.len()
            invariant
                i <= pats@.len(),
                slice_views(pats@) == version_pattern_list(),
                first_capture_from(version_pattern_list(), context@, 0) == first_capture_from(
                    version_pattern_list(),
                    context@,
                    i as int,
                ),
            decreases pats@.len() - i,
        {
            assert(version_pattern_list()[i as int] == pats@[i as int]@);
            if let Some(v) = first_group(pats[i], context) {
                return Some(v);
            }
            i = i + 1;
        }
        None
    }

    /// The purpose of the technology `tech_name` mentioned in `context`.
    pub fn infer_technology_purpose(&self, tech_name: &str, context: &str) -> (r: String)
        ensures
            r@ == technology_purpose(lowercase(tech_name@), lowercase(context@)),
    {
        let low = to_lower(tech_name);
        let n = low.as_str();
        let purpose = if str_eq(n, "react") || str_eq(n, "vue.js") || str_eq(n, "angular") {
            "Frontend UI Framework"
        } else if str_eq(n, "next.js") {
            "Full-stack React Framework"
        } else if str_eq(n, "node.js") {
            "JavaScript Runtime"
        } else if str_eq(n, "express") || str_eq(n, "nestjs") {
            "Backend Web Framework"
        } else if str_eq(n, "spring boot") {
            "Java Web Framework"
        } else if str_eq(n, "django") || str_eq(n, "flask") || str_eq(n, "fastapi") {
            "Python Web Framework"
        } else if str_eq(n, "docker") {
            "Containerization"
        } else if str_eq(n, "kubernetes") {
            "Container Orchestration"
        } else if str_eq(n, "postgresql") || str_eq(n, "mysql") || str_eq(n, "mongodb") {
            "Database"
        } else if str_eq(n, "redis") {
            "Caching/Message Broker"
        } else if str_eq(n, "graphql") {
            "API Query Language"
        } else if str_eq(n, "typescript") {
            "Type-safe JavaScript"
        } else {
            let c = lower_chars(context);
            if contains_str(&c, "database") {
                "Database Technology"
            } else if contains_str(&c, "api") {
                "API Technology"
            } else {
                "Development Tool"
            }
        };
        purpose.to_owned()
    }

    /// The installation method named in `context`: that of the first
    /// installation pattern that matches it.
    pub fn extract_installation_method(&self, context: &str) -> (r: Option<String>)
        ensures
            crate::text::opt_string_view(r) == install_method_from(install_pattern_list(), context@, 0),
    {
        let list: Vec<(&str, &str)> = vec![
            ("npm\\s+install", "npm"),
            ("yarn\\s+add", "yarn"),
            ("pip\\s+install", "pip"),
            ("mvn\\s+install", "maven"),
            ("gradle", "gradle"),
            ("cargo", "cargo"),
            ("docker", "docker"),
        ];
        assert(pair_views(list@) =~= install_pattern_list());
        let mut i: usize = 0;
        while i < list.len()
            invariant
                i <= list@.len(),
                pair_views(list@) == install_pattern_list(),
                install_method_from(install_pattern_list(), context@, 0) == install_method_from(
                    install_pattern_list(),
                    context@,
                    i as int,
                ),
            decreases list@.len() - i,
        {
            assert(install_pattern_list()[i as int] == (list@[i as int].0@, list@[i as int].1@));
            if let Some(true) = search(list[i].0, context) {
                return Some(list[i].1.to_owned());
            }
            i = i + 1;
        }
        None
    }

    /// The configuration notes of `context`: its sentences (split at `.`),
    /// trimmed, that mention a configuration word and are longer than ten
    /// bytes.
    pub fn extract_configuration_notes(&self, context: &str) -> (r: Vec<String>)
        ensures
            string_views(r@) == config_notes(split(context@, '.')),
    {
        let cs = chars_of(context);
        let n = cs.len();
        let ranges = split_ranges(&cs, 0, n, '.');
        assert(cs@.subrange(0, n as int) =~= cs@);
        let ghost parts = split(context@, '.');
        let keys: Vec<&str> = vec!["config", "configure", "setup", "environment", "settings"];
        assert(slice_views(keys@) =~= config_keywords());
        let mut notes: Vec<String> = Vec::new();
        let mut i: usize = 0;
        while i < ranges.len()
            invariant
                cs@ == context@,
                n == cs@.len(),
                parts == split(context@, '.'),
                slice_views(keys@) == config_keywords(),
                ranges@.len() == parts.len(),
                forall|k: int|
                    0 <= k < ranges@.len() ==> {
                        &&& 0 <= (#[trigger] ranges@[k]).0 <= ranges@[k].1 <= n
                        &&& cs@.subrange(ranges@[k].0 as int, ranges@[k].1 as int) == parts[k]
                    },
                i <= ranges@.len(),
                string_views(notes@) == config_notes(parts.take(i as int)),
            decreases ranges@.len() - i,
        {
            let (a, b) = ranges[i];
            let (x, y) = trim_range(&cs, a, b, &CharClass::WhiteSpace);
            let sentence = string_from_chars(&cs, x, y);
            let piece = copy_range(&cs, x, y);
            assert(sentence@ == trim(parts[i as int]));
            let low = to_lower(sentence.as_str());
            let ghost before = notes@;
            let mut mentions = false;
            let mut k: usize = 0;
            while k < keys.len()
                invariant
                    k <= keys@.len(),
                    slice_views(keys@) == config_keywords(),
                    mentions == exists|j: int| 0 <= j < k && contains(low@, #[trigger] config_keywords()[j]),
                decreases keys@.len() - k,
            {
                assert(config_keywords()[k as int] == keys@[k as int]@);
                if contains_str(&chars_of(low.as_str()), keys[k]) {
                    mentions = true;
                }
                k = k + 1;
            }
            if mentions && piece.len() > 0 && utf8_longer_than(&piece, 10) {
                notes.push(sentence);
            }
            proof {
                let t = parts.take(i + 1);
                assert(t.drop_last() =~= parts.take(i as int));
                assert(t.last() == parts[i as int]);
                assert(string_views(notes@) =~= config_notes(t));
            }
            i = i + 1;
        }
        assert(parts.take(ranges@.len() as int) =~= parts);
        notes
    }

    /// Adds to `setup_commands` the setup commands of `content`: each line
    /// that, trimmed, is no fence, header or empty line and matches one of
    /// the setup patterns, cleaned, unless it is already there.
    pub fn extract_setup_commands(&self, content: &str, setup_commands: &mut Vec<String>)
        ensures
            string_views(final(setup_commands)@) == add_setup_commands(
                string_views(old(setup_commands)@),
                slice_views(self.setup_patterns@),
                lines(content@),
            ),
    {
        let cs = chars_of(content);
        let ranges = line_ranges(&cs);
        let ghost ls = lines(content@);
        let ghost pats = slice_views(self.setup_patterns@);
        let ghost start = string_views(setup_commands@);
        let mut i: usize = 0;
        while i < ranges.len()
            invariant
                cs@ == content@,
                ls == lines(content@),
                pats == slice_views(self.setup_patterns@),
                start == string_views(old(setup_commands)@),
                ranges@.len() == ls.len(),
                forall|k: int|
                    0 <= k < ranges@.len() ==> {
                        &&& (#[trigger] ranges@[k]).0 <= ranges@[k].1 <= cs@.len()
                        &&& cs@.subrange(ranges@[k].0 as int, ranges@[k].1 as int) == ls[k]
                    },
                i <= ranges@.len(),
                string_views(setup_commands@) == add_setup_commands(start, pats, ls.take(i as int)),
            decreases ranges@.len() - i,
        {
            let (a, b) = ranges[i];
            let (x, y) = trim_range(&cs, a, b, &CharClass::WhiteSpace);
            let t = copy_range(&cs, x, y);
            let ghost tv = trim(ls[i as int]);
            assert(t@ == tv);
            assert(t@.subrange(0, t@.len() as int) =~= t@);
            proof {
                let pre = ls.take(i + 1);
                assert(pre.drop_last() =~= ls.take(i as int));
                assert(pre.last() == ls[i as int]);
            }
            let skip = starts_with_at(&t, 0, t.len(), "```") || starts_with_at(&t, 0, t.len(), "#")
                || t.len() == 0;
            if !skip {
                let line = string_from_chars(&t, 0, t.len());
                let matched = self.matches_setup_pattern(line.as_str());
                if matched {
                    let cleaned = clean_command(&t);
                    if !contains_string(setup_commands, &cleaned) {
                        setup_commands.push(cleaned);
                    }
                }
            }
            i = i + 1;
        }
        assert(ls.take(ranges@.len() as int) =~= ls);
    }

    /// Whether one of the setup patterns matches `t`.
    pub fn matches_setup_pattern(&self, t: &str) -> (r: bool)
        ensures
            r == matches_some(slice_views(self.setup_patterns@), t@),
    {
        let mut k: usize = 0;
        while k < self.setup_patterns.len()
            invariant
                k <= self.setup_patterns@.len(),
                forall|j: int| 0 <= j < k ==> regex_search(#[trigger] slice_views(self.setup_patterns@)[j], t@) != Some(true),
            decreases self.setup_patterns@.len() - k,
        {
            assert(slice_views(self.setup_patterns@)[k as int] == self.setup_patterns@[k as int]@);
            if let Some(true) = search(self.setup_patterns[k], t) {
                return true;
            }
            k = k + 1;
        }
        false
    }

    /// The form of `content` that deduplication compares: trimmed, line
    /// endings made spaces, words joined by single spaces, lowercased.
    pub fn normalize_content_for_deduplication(&self, content: &str) -> (r: String)
        ensures
            r@ == normalized_content(content@),
    {
        let cs = chars_of(content);
        let (a, b) = trim_range(&cs, 0, cs.len(), &CharClass::WhiteSpace);
        assert(cs@.subrange(0, cs@.len() as int) =~= cs@);
        let mut spaced: Vec<char> = Vec::new();
        let mut i = a;
        while i < b
            invariant
                a <= i <= b <= cs@.len(),
                spaced@ == newlines_to_spaces(cs@.subrange(a as int, i as int)),
            decreases b - i,
        {
            let c = cs[i];
            spaced.push(if c == '\n' { ' ' } else { c });
            assert(newlines_to_spaces(cs@.subrange(a as int, i + 1)) =~= newlines_to_spaces(
                cs@.subrange(a as int, i as int),
            ).push(if c == '\n' { ' ' } else { c }));
            i = i + 1;
        }
        let ranges = word_ranges(&spaced);
        let mut parts: Vec<String> = Vec::new();
        let mut k: usize = 0;
        while k < ranges.len()
            invariant
                ranges@.len() == words(spaced@).len(),
                forall|j: int|
                    0 <= j < ranges@.len() ==> {
                        &&& (#[trigger] ranges@[j]).0 <= ranges@[j].1 <= spaced@.len()
                        &&& spaced@.subrange(ranges@[j].0 as int, ranges@[j].1 as int) == words(spaced@)[j]
                    },
                k <= ranges@.len(),
                string_views(parts@) == words(spaced@).take(k as int),
            decreases ranges@.len() - k,
        {
            let (x, y) = ranges[k];
            let w = string_from_chars(&spaced, x, y);
            let ghost before = parts@;
            parts.push(w);
            assert(string_views(parts@) =~= string_views(before).push(w@));
            assert(words(spaced@).take(k + 1) =~= words(spaced@).take(k as int).push(words(spaced@)[k as int]));
            k = k + 1;
        }
        assert(words(spaced@).take(ranges@.len() as int) =~= words(spaced@));
        let joined = join_strings(&parts, " ");
        assert(parts@.map_values(|p: String| p@) =~= string_views(parts@));
        to_lower(joined.as_str())
    }

    /// Merges `source` into `target`, keeping an item only when its
    /// normalized form is not yet among `processed_contents`, which then
    /// records it.
    pub fn merge_string_vectors(&self, target: &mut Vec<String>, source: Vec<String>, processed_contents: &mut Vec<String>)
        ensures
            (string_views(final(target)@), string_views(final(processed_contents)@)) == merge_items(
                string_views(old(target)@),
                string_views(old(processed_contents)@),
                string_views(source@),
            ),
    {
        let ghost t0 = string_views(target@);
        let ghost s0 = string_views(processed_contents@);
        let ghost src = string_views(source@);
        let mut i: usize = 0;
        while i < source.len()
            invariant
                t0 == string_views(old(target)@),
                s0 == string_views(old(processed_contents)@),
                src == string_views(source@),
                i <= source@.len(),
                (string_views(target@), string_views(processed_contents@)) == merge_items(t0, s0, src.take(i as int)),
            decreases source@.len() - i,
        {
            let item = source[i].clone();
            let normalized = self.normalize_content_for_deduplication(item.as_str());
            proof {
                let pre = src.take(i + 1);
                assert(pre.drop_last() =~= src.take(i as int));
                assert(pre.last() == src[i as int]);
                assert(src[i as int] == item@);
            }
            if !contains_string(processed_contents, &normalized) {
                let ghost bt = target@;
                let ghost bp = processed_contents@;
                processed_contents.push(normalized);
                target.push(item);
                assert(string_views(target@) =~= string_views(bt).push(item@));
                assert(string_views(processed_contents@) =~= string_views(bp).push(normalized@));
            }
            i = i + 1;
        }
        assert(src.take(source@.len() as int) =~= src);
    }

    /// Saves the text `content` of a section of kind `section` into
    /// `sections` (see `save_section`).
    pub fn save_section_content(&self, section: DocumentationSection, content: &str, sections: &mut DocumentationSections)
        ensures
            final(sections)@ == save_section(old(sections)@, section, content@),
    {
        let cs = chars_of(content);
        let (a, b) = trim_range(&cs, 0, cs.len(), &CharClass::WhiteSpace);
        assert(cs@.subrange(0, cs@.len() as int) =~= cs@);
        if a == b {
            return;
        }
        let cleaned = string_from_chars(&cs, a, b);
        let mut known = false;
        let mut i: usize = 0;
        while i < sections.sections_found.len()
            invariant
                i <= sections.sections_found@.len(),
                known == exists|j: int| 0 <= j < i && sections.sections_found@[j] == section,
            decreases sections.sections_found@.len() - i,
        {
            if sections.sections_found[i] == section {
                known = true;
            }
            i = i + 1;
        }
        if !known {
            sections.sections_found.push(section);
        }
        match section {
            DocumentationSection::Description => {
                if sections.project_description.is_none() {
                    sections.project_description = Some(cleaned);
                }
            },
            DocumentationSection::Installation => {
                sections.installation_instructions.push(cleaned);
            },
            DocumentationSection::Usage => {
                sections.usage_examples.push(cleaned);
            },
            DocumentationSection::Api => {
                sections.api_documentation.push(cleaned);
            },
            DocumentationSection::Architecture => {
                sections.architecture_info.push(cleaned);
            },
            DocumentationSection::Contributing => {
                sections.contributing_guidelines.push(cleaned);
            },
            _ => {},
        }
        proof {
            let v = old(sections)@;
            let w = sections@;
            assert(w.installation =~= save_section(v, section, content@).installation);
            assert(w.usage =~= save_section(v, section, content@).usage);
            assert(w.api =~= save_section(v, section, content@).api);
            assert(w.architecture =~= save_section(v, section, content@).architecture);
            assert(w.contributing =~= save_section(v, section, content@).contributing);
            assert(w.found =~= save_section(v, section, content@).found);
        }
    }

    /// The kind of the first header pattern that matches `line`.
    pub fn header_section(&self, line: &str) -> (r: Option<DocumentationSection>)
        ensures
            r == header_section_from(section_views(self.section_patterns@), line@, 0),
    {
        let ghost pats = section_views(self.section_patterns@);
        let mut i: usize = 0;
        while i < self.section_patterns.len()
            invariant
                pats == section_views(self.section_patterns@),
                i <= self.section_patterns@.len(),
                header_section_from(pats, line@, 0) == header_section_from(pats, line@, i as int),
            decreases self.section_patterns@.len() - i,
        {
            assert(pats[i as int] == (self.section_patterns@[i as int].0, self.section_patterns@[i as int].1@));
            if let Some(true) = search(self.section_patterns[i].1, line) {
                return Some(self.section_patterns[i].0);
            }
            i = i + 1;
        }
        None
    }

    /// Reads the sections of the documentation `content` into `sections`
    /// (see `extracted_sections`).
    pub fn extract_sections(&self, content: &str, sections: &mut DocumentationSections)
        ensures
            final(sections)@ == extracted_sections(old(sections)@, section_views(self.section_patterns@), content@),
    {
        let cs = chars_of(content);
        let ranges = line_ranges(&cs);
        let ghost ls = lines(content@);
        let ghost pats = section_views(self.section_patterns@);
        let ghost init = SectionScan { current: None, buffer: seq![], saved: sections@ };
        let mut current: Option<DocumentationSection> = None;
        let mut buffer: Vec<char> = Vec::new();
        let mut i: usize = 0;
        while i < ranges.len()
            invariant
                cs@ == content@,
                ls == lines(content@),
                pats == section_views(self.section_patterns@),
                init == (SectionScan { current: None, buffer: seq![], saved: old(sections)@ }),
                ranges@.len() == ls.len(),
                forall|k: int|
                    0 <= k < ranges@.len() ==> {
                        &&& (#[trigger] ranges@[k]).0 <= ranges@[k].1 <= cs@.len()
                        &&& cs@.subrange(ranges@[k].0 as int, ranges@[k].1 as int) == ls[k]
                    },
                i <= ranges@.len(),
                scan_lines(init, pats, ls, i as int) == (SectionScan { current, buffer: buffer@, saved: sections@ }),
            decreases ranges@.len() - i,
        {
            let (a, b) = ranges[i];
            let line = string_from_chars(&cs, a, b);
            assert(line@ == ls[i as int]);
            let ghost st = scan_lines(init, pats, ls, i as int);
            match self.header_section(line.as_str()) {
                Some(sec) => {
                    if let Some(prev) = current {
                        let text = string_from_chars(&buffer, 0, buffer.len());
                        assert(buffer@.subrange(0, buffer@.len() as int) =~= buffer@);
                        self.save_section_content(prev, text.as_str(), sections);
                    }
                    current = Some(sec);
                    buffer = Vec::new();
                },
                None => {
                    if let Some(cur) = current {
                        let mut k = a;
                        while k < b
                            invariant
                                a <= k <= b <= cs@.len(),
                                buffer@ == st.buffer + cs@.subrange(a as int, k as int),
                            decreases b - k,
                        {
                            buffer.push(cs[k]);
                            assert(cs@.subrange(a as int, k + 1) =~= cs@.subrange(a as int, k as int).push(cs@[k as int]));
                            k = k + 1;
                        }
                        buffer.push('\n');
                        assert(buffer@ =~= st.buffer + ls[i as int] + seq!['\n']);
                        if b > a && cs[a] == '#' && i > 0 {
                            let text = string_from_chars(&buffer, 0, buffer.len());
                            assert(buffer@.subrange(0, buffer@.len() as int) =~= buffer@);
                            self.save_section_content(cur, text.as_str(), sections);
                            current = None;
                            buffer = Vec::new();
                        }
                        assert(ls[i as int].len() > 0 ==> ls[i as int][0] == cs@[a as int]);
                    }
                },
            }
            assert(scan_lines(init, pats, ls, i + 1) == scan_line(st, pats, ls[i as int], i as int));
            i = i + 1;
        }
        if let Some(sec) = current {
            let text = string_from_chars(&buffer, 0, buffer.len());
            assert(buffer@.subrange(0, buffer@.len() as int) =~= buffer@);
            self.save_section_content(sec, text.as_str(), sections);
        }
    }

    /// The coverage sections that are not among `found`.
    pub fn missing_sections(&self, found: &Vec<DocumentationSection>) -> (r: Vec<DocumentationSection>)
        ensures
            r@ == missing_from(coverage_sections(), found@),
    {
        let all: Vec<DocumentationSection> = vec![
            DocumentationSection::Description,
            DocumentationSection::Installation,
            DocumentationSection::Usage,
            DocumentationSection::Api,
            DocumentationSection::Architecture,
            DocumentationSection::Contributing,
            DocumentationSection::Examples,
            DocumentationSection::Configuration,
        ];
        assert(all@ =~= coverage_sections());
        let mut out: Vec<DocumentationSection> = Vec::new();
        let mut i: usize = 0;
        while i < all.len()
            invariant
                all@ == coverage_sections(),
                i <= all@.len(),
                out@ == missing_from(all@.take(i as int), found@),
            decreases all@.len() - i,
        {
            let sec = all[i];
            let mut seen = false;
            let mut k: usize = 0;
            while k < found.len()
                invariant
                    k <= found@.len(),
                    seen == exists|j: int| 0 <= j < k && found@[j] == sec,
                decreases found@.len() - k,
            {
                if found[k] == sec {
                    seen = true;
                }
                k = k + 1;
            }
            if !seen {
                out.push(sec);
            }
            proof {
                let t = all@.take(i + 1);
                assert(t.drop_last() =~= all@.take(i as int));
                assert(t.last() == sec);
                assert(seen == found@.contains(sec));
                assert(out@ =~= missing_from(t, found@));
            }
            i = i + 1;
        }
        assert(all@.take(all@.len() as int) =~= all@);
        out
    }

    /// The quality indicators of documentation with `sections` and, or not,
    /// setup commands.
    pub fn quality_indicators(&self, sections: &DocumentationSections, has_setup_commands: bool) -> (r: Vec<String>)
        ensures
            string_views(r@) == quality_notes(sections@, has_setup_commands),
    {
        let mut r: Vec<String> = Vec::new();
        push_note(&mut r, sections.project_description.is_some(), "Has project description");
        push_note(&mut r, sections.installation_instructions.len() > 0, "Has installation instructions");
        push_note(&mut r, sections.usage_examples.len() > 0, "Has usage examples");
        push_note(&mut r, has_setup_commands, "Has setup commands");
        assert(string_views(r@) =~= quality_notes(sections@, has_setup_commands));
        r
    }

    /// The improvements suggested for documentation with `sections`.
    pub fn improvement_suggestions(&self, sections: &DocumentationSections) -> (r: Vec<String>)
        ensures
            string_views(r@) == suggestion_notes(sections@),
    {
        let mut r: Vec<String> = Vec::new();
        push_note(&mut r, sections.project_description.is_none(), "Add project description");
        push_note(&mut r, sections.installation_instructions.len() == 0, "Add installation instructions");
        push_note(&mut r, sections.usage_examples.len() == 0, "Add usage examples");
        assert(string_views(r@) =~= suggestion_notes(sections@));
        r
    }

    /// Records a conflict when the documentation mentions React (among the
    /// names `technologies`) but no installation instruction mentions npm.
    pub fn validate_against_code_analysis(
        &self,
        technologies: &Vec<String>,
        installation_instructions: &Vec<String>,
        conflicts: &mut Vec<ValidationConflict>,
    )
        ensures
            react_without_npm(string_views(technologies@), string_views(installation_instructions@)) ==> {
                &&& final(conflicts)@.len() == old(conflicts)@.len() + 1
                &&& final(conflicts)@.take(old(conflicts)@.len() as int) == old(conflicts)@
                &&& final(conflicts)@.last().conflict_type == ConflictType::MissingDependency
                &&& final(conflicts)@.last().documentation_claim@ == "Uses React"@
                &&& final(conflicts)@.last().code_reality@ == "No npm installation instructions found"@
                &&& final(conflicts)@.last().severity == ConflictSeverity::Medium
                &&& final(conflicts)@.last().file_location is None
                &&& final(conflicts)@.last().recommendation@ == "Add npm install instructions for React dependencies"@
            },
            !react_without_npm(string_views(technologies@), string_views(installation_instructions@))
                ==> final(conflicts)@ == old(conflicts)@,
    {
        let react = "React".to_owned();
        let has_react = contains_string(technologies, &react);
        let mut has_npm = false;
        let mut i: usize = 0;
        while i < installation_instructions.len()
            invariant
                i <= installation_instructions@.len(),
                has_npm == exists|j: int| 0 <= j < i && contains(#[trigger] string_views(installation_instructions@)[j], "npm"@),
            decreases installation_instructions@.len() - i,
        {
            assert(string_views(installation_instructions@)[i as int] == installation_instructions@[i as int]@);
            if contains_str(&chars_of(installation_instructions[i].as_str()), "npm") {
                has_npm = true;
            }
            i = i + 1;
        }
        if has_react && !has_npm {
            let ghost before = conflicts@;
            conflicts.push(ValidationConflict {
                conflict_type: ConflictType::MissingDependency,
                documentation_claim: "Uses React".to_owned(),
                code_reality: "No npm installation instructions found".to_owned(),
                severity: ConflictSeverity::Medium,
                file_location: None,
                recommendation: "Add npm install instructions for React dependencies".to_owned(),
            });
            assert(conflicts@.take(before.len() as int) =~= before);
        }
    }

    /// The names of the technologies whose patterns match somewhere in
    /// `content`, in the order of the technology patterns.
    pub fn mentioned_technologies(&self, content: &str) -> (r: Vec<&'static str>)
        ensures
            slice_views(r@) == mentioned_in(pair_views(self.technology_patterns@), content@),
    {
        let ghost pats = pair_views(self.technology_patterns@);
        let mut out: Vec<&'static str> = Vec::new();
        let mut i: usize = 0;
        while i < self.technology_patterns.len()
            invariant
                i <= self.technology_patterns@.len(),
                pats == pair_views(self.technology_patterns@),
                slice_views(out@) == mentioned_in(pats.take(i as int), content@),
            decreases self.technology_patterns@.len() - i,
        {
            let (name, pattern) = self.technology_patterns[i];
            assert(pats.take(i + 1).drop_last() =~= pats.take(i as int));
            assert(pats.take(i + 1).last() == (name@, pattern@));
            let ghost before = out@;
            if let Some(true) = search(pattern, content) {
                out.push(name);
                assert(slice_views(out@) =~= slice_views(before).push(name@));
            }
            i = i + 1;
        }
        assert(pats.take(pats.len() as int) =~= pats);
        out
    }

    /// The context of the technology with pattern `pattern` in `content`:
    /// the text within a hundred bytes around each of the pattern's matches,
    /// joined by " | " (see `matches_context`).
    pub fn extract_technology_context(&self, content: &str, pattern: &str) -> (r: Option<String>)
        ensures
            match r {
                Some(c) => utf8_len(content@) <= usize::MAX && matches_context_text(
                    content@,
                    regex_match_ranges(pattern@, content@),
                ) == Some(c@),
                None => utf8_len(content@) > usize::MAX || matches_context_text(
                    content@,
                    regex_match_ranges(pattern@, content@),
                ) is None,
            },
    {
        let ms = match_ranges(pattern, content);
        matches_context(content, &ms)
    }

    /// Whether the extractor has a header pattern for `section`.
    pub fn has_section_pattern(&self, section: DocumentationSection) -> (r: bool)
        ensures
            r == exists|i: int| 0 <= i < self.section_patterns@.len() && (#[trigger] self.section_patterns@[i]).0 == section,
    {
        let mut i: usize = 0;
        while i < self.section_patterns.len()
            invariant
                i <= self.section_patterns@.len(),
                forall|j: int| 0 <= j < i ==> (#[trigger] self.section_patterns@[j]).0 != section,
            decreases self.section_patterns@.len() - i,
        {
            if self.section_patterns[i].0 == section {
                return true;
            }
            i = i + 1;
        }
        false
    }

    /// Whether the extractor has a pattern for the technology `name`.
    pub fn has_technology_pattern(&self, name: &str) -> (r: bool)
        ensures
            r == exists|i: int| 0 <= i < self.technology_patterns@.len() && (#[trigger] self.technology_patterns@[i]).0@ == name@,
    {
        let mut i: usize = 0;
        while i < self.technology_patterns.len()
            invariant
                i <= self.technology_patterns@.len(),
                forall|j: int| 0 <= j < i ==> (#[trigger] self.technology_patterns@[j]).0@ != name@,
            decreases self.technology_patterns@.len() - i,
        {
            if crate::text::str_eq(self.technology_patterns[i].0, name) {
                return true;
            }
            i = i + 1;
        }
        false
    }
}

/// Merging with content-based deduplication keeps the recorded normalized
/// forms free of duplicates and extends them, records the form of every
/// merged item, extends the target, and keeps exactly one item for each
/// newly recorded form.
pub proof fn law_merge_deduplicates(target: Seq<Seq<char>>, seen: Seq<Seq<char>>, src: Seq<Seq<char>>)
    requires
        seen.no_duplicates(),
    ensures
        merge_items(target, seen, src).1.no_duplicates(),
        merge_items(target, seen, src).1.len() >= seen.len(),
        merge_items(target, seen, src).0.len() >= target.len(),
        merge_items(target, seen, src).1.take(seen.len() as int) == seen,
        merge_items(target, seen, src).0.take(target.len() as int) == target,
        merge_items(target, seen, src).0.len() - target.len() == merge_items(target, seen, src).1.len() - seen.len(),
        forall|i: int| 0 <= i < src.len() ==> merge_items(target, seen, src).1.contains(#[trigger] normalized_content(src[i])),
    decreases src.len(),
{
    if src.len() > 0 {
        let prev = src.drop_last();
        law_merge_deduplicates(target, seen, prev);
        let (t, s) = merge_items(target, seen, prev);
        let n = normalized_content(src.last());
        if !s.contains(n) {
            let s2 = s.push(n);
            assert forall|i: int, j: int| 0 <= i < s2.len() && 0 <= j < s2.len() && i != j implies s2[i] != s2[j] by {
                if i < s.len() && j < s.len() {
                } else if i == s.len() {
                    assert(s2[i] == n);
                    assert(s2[j] == s[j]);
                } else {
                    assert(s2[j] == n);
                    assert(s2[i] == s[i]);
                }
            }
            assert(s2.take(seen.len() as int) =~= s.take(seen.len() as int));
            assert(t.push(src.last()).take(target.len() as int) =~= t.take(target.len() as int));
        }
        let (t2, s2) = merge_items(target, seen, src);
        assert forall|i: int| 0 <= i < src.len() implies s2.contains(#[trigger] normalized_content(src[i])) by {
            if i < prev.len() {
                assert(prev[i] == src[i]);
                assert(s.contains(normalized_content(prev[i])));
                let k = choose|k: int| 0 <= k < s.len() && s[k] == normalized_content(prev[i]);
                assert(s2[k] == s[k]);
            } else {
                if !s.contains(n) {
                    assert(s2[s.len() as int] == n);
                }
            }
        }
    }
}

/// Reading setup commands never adds a command twice: a list free of
/// duplicates stays so, and the commands already there stay first.
pub proof fn law_setup_commands_distinct(cmds: Seq<Seq<char>>, pats: Seq<Seq<char>>, ls: Seq<Seq<char>>)
    requires
        cmds.no_duplicates(),
    ensures
        add_setup_commands(cmds, pats, ls).no_duplicates(),
        add_setup_commands(cmds, pats, ls).len() >= cmds.len(),
        add_setup_commands(cmds, pats, ls).take(cmds.len() as int) == cmds,
    decreases ls.len(),
{
    if ls.len() > 0 {
        law_setup_commands_distinct(cmds, pats, ls.drop_last());
        let prev = add_setup_commands(cmds, pats, ls.drop_last());
        let c = cleaned_command(trim(ls.last()));
        if !prev.contains(c) {
            let p2 = prev.push(c);
            assert forall|i: int, j: int| 0 <= i < p2.len() && 0 <= j < p2.len() && i != j implies p2[i] != p2[j] by {
                if i < prev.len() && j < prev.len() {
                } else if i == prev.len() {
                    assert(p2[j] == prev[j]);
                } else {
                    assert(p2[i] == prev[i]);
                }
            }
            assert(p2.take(cmds.len() as int) =~= prev.take(cmds.len() as int));
        }
    }
}

proof fn lemma_save_keeps_found_distinct(v: SectionsView, sec: DocumentationSection, content: Seq<char>)
    requires
        v.found.no_duplicates(),
    ensures
        save_section(v, sec, content).found.no_duplicates(),
{
    if trim(content).len() > 0 && !v.found.contains(sec) {
        let f = v.found.push(sec);
        assert forall|i: int, j: int| 0 <= i < f.len() && 0 <= j < f.len() && i != j implies f[i] != f[j] by {
            if i < v.found.len() && j < v.found.len() {
            } else if i == v.found.len() {
                assert(f[j] == v.found[j]);
            } else {
                assert(f[i] == v.found[i]);
            }
        }
    }
}

proof fn lemma_scan_keeps_found_distinct(st: SectionScan, pats: Seq<(DocumentationSection, Seq<char>)>, ls: Seq<Seq<char>>, n: int)
    requires
        st.saved.found.no_duplicates(),
    ensures
        scan_lines(st, pats, ls, n).saved.found.no_duplicates(),
    decreases n,
{
    if n > 0 {
        lemma_scan_keeps_found_distinct(st, pats, ls, n - 1);
        let prev = scan_lines(st, pats, ls, n - 1);
        match prev.current {
            Some(cur) => {
                lemma_save_keeps_found_distinct(prev.saved, cur, prev.buffer);
                lemma_save_keeps_found_distinct(prev.saved, cur, prev.buffer + ls[n - 1] + seq!['\n']);
            },
            None => {},
        }
    }
}

/// Reading a document's sections records each kind of section found once:
/// the kinds found stay free of duplicates.
pub proof fn law_sections_found_once(v: SectionsView, pats: Seq<(DocumentationSection, Seq<char>)>, content: Seq<char>)
    requires
        v.found.no_duplicates(),
    ensures
        extracted_sections(v, pats, content).found.no_duplicates(),
{
    let ls = lines(content);
    let st = SectionScan { current: None, buffer: seq![], saved: v };
    lemma_scan_keeps_found_distinct(st, pats, ls, ls.len() as int);
    let end = scan_lines(st, pats, ls, ls.len() as int);
    if let Some(sec) = end.current {
        lemma_save_keeps_found_distinct(end.saved, sec, end.buffer);
    }
}

} // verus!
