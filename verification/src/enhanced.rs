//! Framework detection enriched with the code segments that syntax analysis
//! finds: the evidence they give for each framework, the paths that do not
//! count, and the Rust web frameworks.
use vstd::prelude::*;
use crate::framework_detector::ExtensionCounts;
use crate::text::{chars_of, contains, contains_str, lower_chars, lowercase, string_views};
use crate::types::{Framework, LanguageEcosystem};

verus! {

/// What the code segments of one framework show.
pub struct ASTEvidence {
    pub relevant_segments: usize,
    pub framework_specific_patterns: Vec<String>,
    pub business_domain_hints: Vec<String>,
}

/// Where a piece of framework evidence was found, syntax analysis included.
#[derive(Debug, Clone, Copy, PartialEq, Eq, Structural)]
pub enum EvidenceType {
    ConfigFile,
    ImportPattern,
    FileStructure,
    ContentPattern,
    ASTAnalysis,
    DecoratorPattern,
    AnnotationPattern,
    FrameworkInstance,
    HookPattern,
}

/// What framework detection reads of a code segment: the framework it was
/// found in, its text and its business hints.
pub struct SegmentSummary {
    pub framework_context: Option<Framework>,
    pub content: String,
    pub business_hints: Vec<String>,
}

/// `name` when `on` holds, else nothing.
pub open spec fn pattern_if(on: bool, name: Seq<char>) -> Seq<Seq<char>> {
    if on {
        seq![name]
    } else {
        seq![]
    }
}

/// The patterns that a segment of `framework` shows, by its lowercase text.
pub open spec fn segment_patterns(framework: Framework, low: Seq<char>) -> Seq<Seq<char>> {
    match framework {
        Framework::React => pattern_if(contains(low, "usestate"@), "useState hook"@) + pattern_if(
            contains(low, "useeffect"@),
            "useEffect hook"@,
        ) + pattern_if(contains(low, "jsx"@) || contains(low, "tsx"@), "JSX syntax"@) + pattern_if(
            contains(low, "props"@),
            "Props usage"@,
        ),
        Framework::NestJS => pattern_if(contains(low, "@controller"@), "@Controller decorator"@)
            + pattern_if(contains(low, "@injectable"@), "@Injectable decorator"@) + pattern_if(
            contains(low, "@get"@) || contains(low, "@post"@),
            "HTTP method decorators"@,
        ),
        Framework::Flask => pattern_if(contains(low, "@app.route"@), "Flask route decorator"@)
            + pattern_if(contains(low, "request"@), "Flask request object"@) + pattern_if(
            contains(low, "jsonify"@),
            "Flask jsonify"@,
        ),
        Framework::SpringBoot => pattern_if(
            contains(low, "@restcontroller"@),
            "@RestController annotation"@,
        ) + pattern_if(contains(low, "@requestmapping"@), "@RequestMapping annotation"@)
            + pattern_if(contains(low, "@service"@), "@Service annotation"@) + pattern_if(
            contains(low, "@entity"@),
            "JPA @Entity annotation"@,
        ),
        _ => seq![],
    }
}

/// Appends `name` to `v` when `on` holds.
fn push_if(v: &mut Vec<String>, on: bool, name: &str)
    ensures
        string_views(final(v)@) == string_views(old(v)@) + pattern_if(on, name@),
{
    let ghost before = v@;
    if on {
        v.push(name.to_owned());
    }
    assert(string_views(v@) =~= string_views(before) + pattern_if(on, name@));
}

/// The patterns that a segment of `framework` with text `content` shows.
pub fn extract_segment_patterns(framework: &Framework, content: &str) -> (r: Vec<String>)
    ensures
        string_views(r@) == segment_patterns(*framework, lowercase(content@)),
{
    let low = lower_chars(content);
    let mut p: Vec<String> = Vec::new();
    match framework {
        Framework::React => {
            push_if(&mut p, contains_str(&low, "usestate"), "useState hook");
            push_if(&mut p, contains_str(&low, "useeffect"), "useEffect hook");
            push_if(&mut p, contains_str(&low, "jsx") || contains_str(&low, "tsx"), "JSX syntax");
            push_if(&mut p, contains_str(&low, "props"), "Props usage");
        },
        Framework::NestJS => {
            push_if(&mut p, contains_str(&low, "@controller"), "@Controller decorator");
            push_if(&mut p, contains_str(&low, "@injectable"), "@Injectable decorator");
            push_if(&mut p, contains_str(&low, "@get") || contains_str(&low, "@post"), "HTTP method decorators");
        },
        Framework::Flask => {
            push_if(&mut p, contains_str(&low, "@app.route"), "Flask route decorator");
            push_if(&mut p, contains_str(&low, "request"), "Flask request object");
            push_if(&mut p, contains_str(&low, "jsonify"), "Flask jsonify");
        },
        Framework::SpringBoot => {
            push_if(&mut p, contains_str(&low, "@restcontroller"), "@RestController annotation");
            push_if(&mut p, contains_str(&low, "@requestmapping"), "@RequestMapping annotation");
            push_if(&mut p, contains_str(&low, "@service"), "@Service annotation");
            push_if(&mut p, contains_str(&low, "@entity"), "JPA @Entity annotation");
        },
        _ => {},
    }
    assert(string_views(p@) =~= segment_patterns(*framework, lowercase(content@)));
    p
}

/// The mathematical content of a [`SegmentSummary`].
pub open spec fn segment_view(s: SegmentSummary) -> (Option<Framework>, Seq<char>, Seq<Seq<char>>) {
    (s.framework_context, s.content@, string_views(s.business_hints@))
}

/// The evidence that the segments `ss` give for `framework`: how many were
/// found in it, the patterns they show and their business hints, in order.
pub open spec fn evidence_of(framework: Framework, ss: Seq<(Option<Framework>, Seq<char>, Seq<Seq<char>>)>) -> (nat, Seq<Seq<char>>, Seq<Seq<char>>)
    decreases ss.len(),
{
    if ss.len() == 0 {
        (0, seq![], seq![])
    } else {
        let (n, ps, hs) = evidence_of(framework, ss.drop_last());
        let s = ss.last();
        if s.0 == Some(framework) {
            (n + 1, ps + segment_patterns(framework, lowercase(s.1)), hs + s.2)
        } else {
            (n, ps, hs)
        }
    }
}

/// The syntax-analysis evidence for `framework` in `segments`: `None` when
/// no segment was found in it.
pub fn extract_ast_evidence_for_framework(framework: &Framework, segments: &Vec<SegmentSummary>) -> (r: Option<ASTEvidence>)
    ensures
        ({
            let e = evidence_of(*framework, segments@.map_values(|s: SegmentSummary| segment_view(s)));
            &&& e.0 == 0 ==> r is None
            &&& e.0 > 0 ==> (r matches Some(x) && x.relevant_segments == e.0 && string_views(x.framework_specific_patterns@) == e.1 && string_views(x.business_domain_hints@) == e.2)
        }),
{
    let ghost ss = segments@.map_values(|s: SegmentSummary| segment_view(s));
    let mut count: usize = 0;
    let mut patterns: Vec<String> = Vec::new();
    let mut hints: Vec<String> = Vec::new();
    let mut i: usize = 0;
    while i < segments.len()
        invariant
            ss == segments@.map_values(|s: SegmentSummary| segment_view(s)),
            i <= segments@.len(),
            count <= i,
            (count as nat, string_views(patterns@), string_views(hints@)) == evidence_of(*framework, ss.take(i as int)),
        decreases segments@.len() - i,
    {
        let seg = &segments[i];
        assert(ss[i as int] == segment_view(*seg));
        let ghost bp = patterns@;
        let ghost bh = hints@;
        if seg.framework_context == Some(*framework) {
            count = count + 1;
            let mut found = extract_segment_patterns(framework, seg.content.as_str());
            patterns.append(&mut found);
            let mut j: usize = 0;
            let ghost mid = hints@;
            while j < seg.business_hints.len()
                invariant
                    j <= seg.business_hints@.len(),
                    string_views(hints@) == string_views(mid) + string_views(seg.business_hints@).take(j as int),
                decreases seg.business_hints@.len() - j,
            {
                let ghost b = hints@;
                hints.push(seg.business_hints[j].clone());
                assert(string_views(hints@) =~= string_views(b).push(seg.business_hints@[j as int]@));
                assert(string_views(seg.business_hints@).take(j + 1) =~= string_views(seg.business_hints@).take(j as int).push(seg.business_hints@[j as int]@));
                j = j + 1;
            }
            assert(string_views(seg.business_hints@).take(seg.business_hints@.len() as int) =~= string_views(seg.business_hints@));
            assert(string_views(patterns@) =~= string_views(bp) + segment_patterns(*framework, lowercase(seg.content@)));
        }
        proof {
            let t = ss.take(i + 1);
            assert(t.drop_last() =~= ss.take(i as int));
            assert(t.last() == ss[i as int]);
        }
        i = i + 1;
    }
    assert(ss.take(segments@.len() as int) =~= ss);
    if count == 0 {
        return None;
    }
    Some(ASTEvidence { relevant_segments: count, framework_specific_patterns: patterns, business_domain_hints: hints })
}

/// The path fragments that keep a file out of the language count.
pub open spec fn skip_fragments() -> Seq<Seq<char>> {
    seq![
        "node_modules"@,
        ".git"@,
        "target"@,
        "dist"@,
        "build"@,
        ".next"@,
        "__pycache__"@,
        ".venv"@,
        "venv"@,
        "env"@,
        ".env"@,
        ".idea"@,
        ".vscode"@,
        "coverage"@,
        ".nyc_output"@,
    ]
}

/// Whether a file at `path` stays out of the language count: its path holds
/// one of the skipped fragments.
pub fn should_skip_path(path: &str) -> (r: bool)
    ensures
        r == exists|i: int| 0 <= i < skip_fragments().len() && contains(path@, #[trigger] skip_fragments()[i]),
{
    let fragments: Vec<&str> = vec![
        "node_modules",
        ".git",
        "target",
        "dist",
        "build",
        ".next",
        "__pycache__",
        ".venv",
        "venv",
        "env",
        ".env",
        ".idea",
        ".vscode",
        "coverage",
        ".nyc_output",
    ];
    assert(fragments@.map_values(|s: &str| s@) =~= skip_fragments());
    let c = chars_of(path);
    let mut i: usize = 0;
    while i < fragments.len()
        invariant
            c@ == path@,
            fragments@.map_values(|s: &str| s@) == skip_fragments(),
            i <= fragments@.len(),
            forall|j: int| 0 <= j < i ==> !contains(path@, #[trigger] skip_fragments()[j]),
        decreases fragments@.len() - i,
    {
        assert(skip_fragments()[i as int] == fragments@[i as int]@);
        if contains_str(&c, fragments[i]) {
            return true;
        }
        i = i + 1;
    }
    false
}

/// The score of an ecosystem under syntax-aware detection, from the counts
/// of Python, TypeScript (`.ts` and `.tsx`), JavaScript (`.js` and `.jsx`),
/// Java and Rust files; `None` when it is no candidate.
pub open spec fn enhanced_score(e: LanguageEcosystem, py: nat, ts: nat, js: nat, java: nat, rs: nat) -> Option<nat> {
    match e {
        LanguageEcosystem::Python => if py > 0 { Some(py * 10) } else { None },
        LanguageEcosystem::TypeScript => if ts > 0 { Some(ts * 10) } else { None },
        LanguageEcosystem::JavaScript => if js > 0 { Some(js * 8) } else { None },
        LanguageEcosystem::Java => if java > 0 { Some(java * 10) } else { None },
        LanguageEcosystem::Rust => if rs > 0 { Some(rs * 10) } else { None },
        _ => None,
    }
}

/// The score of `e` for the tally `c`.
pub open spec fn enhanced_score_of(e: LanguageEcosystem, c: ExtensionCounts) -> Option<nat> {
    enhanced_score(
        e,
        c.count(".py"@),
        c.count(".ts"@) + c.count(".tsx"@),
        c.count(".js"@) + c.count(".jsx"@),
        c.count(".java"@),
        c.count(".rs"@),
    )
}

/// The primary ecosystem under syntax-aware detection: `Mixed` when no
/// ecosystem is a candidate, else a candidate with the highest score.
pub fn detect_enhanced_ecosystem(counts: &ExtensionCounts) -> (r: LanguageEcosystem)
    requires
        counts.count(".py"@) * 10 <= usize::MAX,
        (counts.count(".ts"@) + counts.count(".tsx"@)) * 10 <= usize::MAX,
        (counts.count(".js"@) + counts.count(".jsx"@)) * 8 <= usize::MAX,
        counts.count(".java"@) * 10 <= usize::MAX,
        counts.count(".rs"@) * 10 <= usize::MAX,
    ensures
        (forall|e: LanguageEcosystem| #[trigger] enhanced_score_of(e, *counts) is None) ==> r == LanguageEcosystem::Mixed,
        (exists|e: LanguageEcosystem| #[trigger] enhanced_score_of(e, *counts) is Some) ==> {
            &&& enhanced_score_of(r, *counts) is Some
            &&& forall|e: LanguageEcosystem| #[trigger] enhanced_score_of(e, *counts) matches Some(s) ==> s <= enhanced_score_of(r, *counts)->0
        },
{
    let py = counts.get(".py");
    let ts = counts.get(".ts") + counts.get(".tsx");
    let js = counts.get(".js") + counts.get(".jsx");
    let java = counts.get(".java");
    let rs = counts.get(".rs");
    let mut best = LanguageEcosystem::Mixed;
    let mut best_score: usize = 0;
    if py > 0 {
        best = LanguageEcosystem::Python;
        best_score = py * 10;
    }
    if ts > 0 && ts * 10 > best_score {
        best = LanguageEcosystem::TypeScript;
        best_score = ts * 10;
    }
    if js > 0 && js * 8 > best_score {
        best = LanguageEcosystem::JavaScript;
        best_score = js * 8;
    }
    if java > 0 && java * 10 > best_score {
        best = LanguageEcosystem::Java;
        best_score = java * 10;
    }
    if rs > 0 && rs * 10 > best_score {
        best = LanguageEcosystem::Rust;
        best_score = rs * 10;
    }
    proof {
        let sc = |e: LanguageEcosystem| enhanced_score_of(e, *counts);
        assert(sc(LanguageEcosystem::Deno) is None);
        assert(sc(LanguageEcosystem::Go) is None);
        assert(sc(LanguageEcosystem::Mixed) is None);
        assert(sc(LanguageEcosystem::Python) is None || sc(LanguageEcosystem::Python) is Some);
        assert(sc(LanguageEcosystem::TypeScript) is None || sc(LanguageEcosystem::TypeScript) is Some);
        assert(sc(LanguageEcosystem::JavaScript) is None || sc(LanguageEcosystem::JavaScript) is Some);
        assert(sc(LanguageEcosystem::Java) is None || sc(LanguageEcosystem::Java) is Some);
        assert(sc(LanguageEcosystem::Rust) is None || sc(LanguageEcosystem::Rust) is Some);
    }
    best
}

/// The Rust web frameworks, each with its crate name and the path prefix
/// that its use shows in source.
pub open spec fn rust_web_framework_markers(f: Framework) -> Option<(Seq<char>, Seq<char>, Seq<char>)> {
    match f {
        Framework::Axum => Some(("axum"@, "use axum::"@, "axum::"@)),
        Framework::Actix => Some(("actix-web"@, "use actix_web::"@, "actix_web::"@)),
        Framework::Warp => Some(("warp"@, "use warp::"@, "warp::"@)),
        _ => None,
    }
}

/// Whether a file's text shows the Rust web framework `framework`: it
/// mentions the crate, its import or its path (the detector searches every
/// file of the codebase for each).
pub fn file_shows_rust_framework(framework: &Framework, content: &str) -> (r: bool)
    ensures
        r == match rust_web_framework_markers(*framework) {
            Some((name, import, path)) => contains(content@, name) || contains(content@, import) || contains(content@, path),
            None => false,
        },
{
    let c = chars_of(content);
    match framework {
        Framework::Axum => contains_str(&c, "axum") || contains_str(&c, "use axum::") || contains_str(&c, "axum::"),
        Framework::Actix => contains_str(&c, "actix-web") || contains_str(&c, "use actix_web::") || contains_str(&c, "actix_web::"),
        Framework::Warp => contains_str(&c, "warp") || contains_str(&c, "use warp::") || contains_str(&c, "warp::"),
        _ => false,
    }
}

} // verus!
