//! Language-ecosystem and framework detection over the facts that a walk of a
//! codebase gathers: file counts per extension, file contents, manifests.
use vstd::prelude::*;
use crate::types::{Framework, LanguageEcosystem};
use crate::patterns::{escape, first_group, regex_escaped, regex_group1};
use crate::text::{concat_str, copy_range, find, find_chars, lemma_find, line_ranges, lines, matches_at, opt_string_view, split_second, split_second_exec, trim, trimmed_string, chars_of, contains, contains_str, starts_with, starts_with_at, str_eq, string_eq, string_from_chars, to_lower, lowercase};

verus! {

/// Where a piece of framework evidence was found.
#[derive(Debug, Clone, Copy, PartialEq, Eq, Structural, Hash)]
pub enum EvidenceType {
    ConfigFile,
    ImportPattern,
    FileStructure,
    ContentPattern,
}

/// Detects the ecosystem and frameworks of the codebase under `codebase_path`.
pub struct FrameworkDetector {
    pub codebase_path: String,
}

/// The keys of a tally's entries, in order.
pub open spec fn tally_keys(es: Seq<(String, usize)>) -> Seq<Seq<char>> {
    es.map_values(|e: (String, usize)| e.0@)
}

/// The position of the first key equal to `k`, from `i` on.
pub open spec fn first_key_from(keys: Seq<Seq<char>>, k: Seq<char>, i: int) -> Option<int>
    decreases keys.len() - i,
{
    if i < 0 || i >= keys.len() {
        None
    } else if keys[i] == k {
        Some(i)
    } else {
        first_key_from(keys, k, i + 1)
    }
}

proof fn lemma_first_key_from(keys: Seq<Seq<char>>, k: Seq<char>, i: int)
    requires
        0 <= i,
    ensures
        first_key_from(keys, k, i) matches Some(p) ==> i <= p < keys.len() && keys[p] == k
            && forall|j: int| i <= j < p ==> keys[j] != k,
        first_key_from(keys, k, i) is None ==> forall|j: int| i <= j < keys.len() ==> keys[j] != k,
    decreases keys.len() - i,
{
    if i < keys.len() && keys[i] != k {
        lemma_first_key_from(keys, k, i + 1);
    }
}

proof fn lemma_first_key_unique(keys: Seq<Seq<char>>, k: Seq<char>, p: int)
    requires
        0 <= p < keys.len(),
        keys[p] == k,
        forall|j: int| 0 <= j < p ==> keys[j] != k,
    ensures
        first_key_from(keys, k, 0) == Some(p),
{
    lemma_first_key_from(keys, k, 0);
    if let Some(q) = first_key_from(keys, k, 0) {
        assert(q == p);
    }
}

/// The number of files seen for each extension key (such as `.py`).
pub struct ExtensionCounts {
    pub entries: Vec<(String, usize)>,
}

impl ExtensionCounts {
    /// How many files were recorded under `key`.
    pub open spec fn count(&self, key: Seq<char>) -> nat {
        match first_key_from(tally_keys(self.entries@), key, 0) {
            Some(p) => self.entries@[p].1 as nat,
            None => 0,
        }
    }

    /// A tally with nothing recorded.
    pub fn new() -> (r: Self)
        ensures
            forall|k: Seq<char>| #[trigger] r.count(k) == 0,
    {
        ExtensionCounts { entries: Vec::new() }
    }

    /// The number of files recorded under `key`.
    pub fn get(&self, key: &str) -> (r: usize)
        ensures
            r == self.count(key@),
    {
        let ghost keys = tally_keys(self.entries@);
        let k = key.to_owned();
        let mut i: usize = 0;
        while i < self.entries.len()
            invariant
                keys == tally_keys(self.entries@),
                k@ == key@,
                i <= self.entries@.len(),
                first_key_from(keys, key@, 0) == first_key_from(keys, key@, i as int),
            decreases self.entries@.len() - i,
        {
            assert(keys[i as int] == self.entries@[i as int].0@);
            if string_eq(&self.entries[i].0, &k) {
                return self.entries[i].1;
            }
            i = i + 1;
        }
        0
    }

    /// Records one more file under `key`.
    pub fn record(&mut self, key: &str)
        requires
            old(self).count(key@) < usize::MAX,
        ensures
            final(self).count(key@) == old(self).count(key@) + 1,
            forall|k: Seq<char>| k != key@ ==> #[trigger] final(self).count(k) == old(self).count(k),
    {
        let ghost keys = tally_keys(self.entries@);
        let ghost kv = key@;
        let k = key.to_owned();
        let mut i: usize = 0;
        while i < self.entries.len()
            invariant
                keys == tally_keys(self.entries@),
                self.entries@ == old(self).entries@,
                kv == key@,
                k@ == kv,
                i <= self.entries@.len(),
                old(self).count(kv) < usize::MAX,
                first_key_from(keys, kv, 0) == first_key_from(keys, kv, i as int),
            decreases self.entries@.len() - i,
        {
            assert(keys[i as int] == self.entries@[i as int].0@);
            if string_eq(&self.entries[i].0, &k) {
                let n = self.entries[i].1;
                let ghost before = self.entries@;
                let name = self.entries[i].0.clone();
                self.entries.set(i, (name, n + 1));
                proof {
                    assert(tally_keys(self.entries@) =~= keys);
                    assert forall|k: Seq<char>| k != kv implies #[trigger] self.count(k) == old(
                        self,
                    ).count(k) by {
                        lemma_first_key_from(keys, k, 0);
                        if let Some(p) = first_key_from(keys, k, 0) {
                            assert(p != i);
                            assert(self.entries@[p] == before[p]);
                        }
                    }
                }
                return;
            }
            i = i + 1;
        }
        let ghost before = self.entries@;
        self.entries.push((k, 1));
        proof {
            lemma_first_key_from(keys, kv, 0);
            let nk = tally_keys(self.entries@);
            assert(nk =~= keys.push(kv));
            assert forall|j: int| 0 <= j < before.len() implies nk[j] != kv by {
                assert(nk[j] == keys[j]);
            }
            lemma_first_key_unique(nk, kv, before.len() as int);
            assert forall|k: Seq<char>| k != kv implies #[trigger] self.count(k) == old(self).count(
                k,
            ) by {
                lemma_first_key_from(keys, k, 0);
                lemma_first_key_from(nk, k, 0);
                match first_key_from(keys, k, 0) {
                    Some(p) => {
                        assert(nk[p] == k);
                        assert forall|j: int| 0 <= j < p implies nk[j] != k by {
                            assert(nk[j] == keys[j]);
                        }
                        lemma_first_key_unique(nk, k, p);
                        assert(self.entries@[p] == before[p]);
                    },
                    None => {
                        assert forall|j: int| 0 <= j < nk.len() implies nk[j] != k by {
                            if j < keys.len() {
                                assert(nk[j] == keys[j]);
                            }
                        }
                        if let Some(q) = first_key_from(nk, k, 0) {
                            assert(nk[q] == k);
                        }
                    },
                }
            }
        }
    }
}

/// The score that the ecosystem `e` gets from the file counts (Python, TS,
/// JS and Java files, TS counting `.ts` and `.tsx`), whether the project has
/// Deno markers (a `deno.json` or `https://deno.land/` imports) and whether
/// it has a `tsconfig.json`; `None` when `e` is no candidate.
pub open spec fn ecosystem_score(
    e: LanguageEcosystem,
    py: nat,
    ts: nat,
    js: nat,
    java: nat,
    deno: bool,
    tsconfig: bool,
) -> Option<nat> {
    match e {
        LanguageEcosystem::Python => if py > 0 { Some(py * 10) } else { None },
        LanguageEcosystem::Deno => if ts > 0 && deno { Some(ts * 10) } else { None },
        LanguageEcosystem::TypeScript => if ts > 0 && !deno { Some(ts * 10) } else { None },
        LanguageEcosystem::JavaScript => if js > 0 && !tsconfig { Some(js * 10) } else { None },
        LanguageEcosystem::Java => if java > 0 { Some(java * 10) } else { None },
        _ => None,
    }
}

/// Directory names that no search of a codebase descends into.
pub open spec fn ignored_for_search(name: Seq<char>) -> bool {
    ||| name == "venv"@
    ||| name == "env"@
    ||| name == ".env"@
    ||| name == "virtualenv"@
    ||| name == ".venv"@
    ||| name == "node_modules"@
    ||| name == ".pnpm-store"@
    ||| name == ".git"@
    ||| name == ".svn"@
    ||| name == ".hg"@
    ||| name == "target"@
    ||| name == "build"@
    ||| name == "dist"@
    ||| name == "out"@
    ||| name == "__pycache__"@
    ||| name == ".pytest_cache"@
    ||| name == ".idea"@
    ||| name == ".vscode"@
    ||| name == ".vs"@
    ||| name == "vendor"@
}

/// Directory names that the file count skips: those of a search, and the
/// tool's own output directory.
pub open spec fn ignored_for_counting(name: Seq<char>) -> bool {
    ignored_for_search(name) || name == ".specstory"@
}

/// Whether the extension filter `target` (`*.ext` or `ext`) accepts the
/// extension `ext`.
pub open spec fn extension_target_matches(target: Seq<char>, ext: Seq<char>) -> bool {
    if starts_with(target, "*."@) {
        target.subrange(2, target.len() as int) == ext
    } else {
        target == ext
    }
}

/// Whether one of `patterns` occurs in `content`.
pub open spec fn contains_any(content: Seq<char>, patterns: Seq<Seq<char>>) -> bool {
    exists|i: int| 0 <= i < patterns.len() && contains(content, #[trigger] patterns[i])
}

/// The views of a list of string slices.
pub open spec fn str_views(v: Seq<&str>) -> Seq<Seq<char>> {
    v.map_values(|s: &str| s@)
}

/// Whether `ext` is one of `allowed`.
pub open spec fn one_of(ext: Seq<char>, allowed: Seq<Seq<char>>) -> bool {
    exists|i: int| 0 <= i < allowed.len() && allowed[i] == ext
}

/// The lists of patterns that framework detection looks for in source files.
#[derive(Debug, Clone, Copy, PartialEq, Eq, Structural)]
pub enum PatternSet {
    FlaskImports,
    FlaskCode,
    ReactImports,
    ReactCode,
    SpringBootCode,
    DanetImports,
    DanetDecorators,
    NextIndicators,
    ApiCommunication,
}

/// The patterns of a set.
pub open spec fn set_patterns(set: PatternSet) -> Seq<Seq<char>> {
    match set {
        PatternSet::FlaskImports => seq![
            "from flask import"@,
            "import flask"@,
            "from flask import Flask"@,
            "from flask import request"@,
            "from flask import jsonify"@,
            "from flask import render_template"@,
            "Flask(__name__)"@,
        ],
        PatternSet::FlaskCode => seq![
            "@app.route"@,
            "app = Flask("@,
            ".run(debug="@,
            "request.json"@,
            "request.form"@,
            "session["@,
            "flash("@,
            "url_for("@,
            "redirect("@,
        ],
        PatternSet::ReactImports => seq![
            "import React"@,
            "from 'react'"@,
            "from \"react\""@,
            "import { useState"@,
            "import { useEffect"@,
            "import { Component"@,
            "import { FC"@,
            "import { FunctionComponent"@,
        ],
        PatternSet::ReactCode => seq![
            "ReactDOM.render"@,
            "createRoot"@,
            "render("@,
            "useState("@,
            "useEffect("@,
            "useContext("@,
            "props."@,
            "this.state"@,
            "this.setState"@,
        ],
        PatternSet::SpringBootCode => seq![
            "@SpringBootApplication"@,
            "@RestController"@,
            "@Controller"@,
            "@Service"@,
            "@Repository"@,
            "@Component"@,
            "@Autowired"@,
            "import org.springframework"@,
            "SpringApplication.run"@,
            "@GetMapping"@,
            "@PostMapping"@,
            "@RequestMapping"@,
        ],
        PatternSet::DanetImports => seq![
            "jsr:@danet/core"@,
            "jsr:@danet/cli"@,
            "https://deno.land/x/danet"@,
            "@danet/core"@,
            "from \"@danet/"@,
            "from 'jsr:@danet/"@,
        ],
        PatternSet::DanetDecorators => seq![
            "@Controller"@,
            "@Injectable"@,
            "@Module"@,
            "@Get"@,
            "@Post"@,
            "@Put"@,
            "@Delete"@,
            "@Patch"@,
        ],
        PatternSet::NextIndicators => seq!["next/"@, "import { NextPage"@],
        PatternSet::ApiCommunication => seq![
            "/api/"@,
            "/rest/"@,
            "fetch("@,
            "axios."@,
            "api.get"@,
            "api.post"@,
            "@RequestMapping"@,
            "@GetMapping"@,
            "@PostMapping"@,
            "app.get("@,
            "app.post("@,
            "router.get("@,
            "router.post("@,
        ],
    }
}

/// The extension filters under which a set is searched.
pub open spec fn set_extensions(set: PatternSet) -> Seq<Seq<char>> {
    match set {
        PatternSet::FlaskImports | PatternSet::FlaskCode => seq!["*.py"@],
        PatternSet::ReactImports | PatternSet::ReactCode => seq!["*.js"@, "*.jsx"@, "*.ts"@, "*.tsx"@],
        PatternSet::SpringBootCode => seq!["*.java"@],
        PatternSet::DanetImports | PatternSet::DanetDecorators => seq!["*.ts"@, "*.tsx"@],
        PatternSet::NextIndicators => seq!["*.js"@, "*.ts"@],
        PatternSet::ApiCommunication => seq!["*.js"@, "*.ts"@, "*.jsx"@, "*.tsx"@, "*.py"@, "*.java"@],
    }
}

/// Whether a file with extension `ext` and text `content` shows one of the
/// patterns of `set`: its lowercased extension passes one of the set's
/// filters and its text holds one of the set's patterns.
pub open spec fn file_shows(set: PatternSet, ext: Seq<char>, content: Seq<char>) -> bool {
    &&& exists|i: int|
        0 <= i < set_extensions(set).len() && extension_target_matches(
            #[trigger] set_extensions(set)[i],
            lowercase(ext),
        )
    &&& contains_any(content, set_patterns(set))
}

/// The JSX markers that `has_jsx_content` looks for in `.js` and `.ts` files.
pub open spec fn jsx_markers() -> Seq<Seq<char>> {
    seq!["React.createElement"@, "<div"@, "<span"@, "useState"@, "useEffect"@]
}

/// The Next.js markers that `has_nextjs_patterns` looks for.
pub open spec fn nextjs_markers() -> Seq<Seq<char>> {
    seq![
        "getServerSideProps"@,
        "getStaticProps"@,
        "'use client'"@,
        "'use server'"@,
        "next/router"@,
        "next/navigation"@,
    ]
}

/// Whether `ext` names a JavaScript or TypeScript source file.
pub open spec fn is_script_ext(ext: Seq<char>) -> bool {
    ext == "js"@ || ext == "ts"@ || ext == "jsx"@ || ext == "tsx"@
}

/// The version that a requirements line gives for a package it mentions:
/// the trimmed text after `==`, or `>=` and the trimmed text after `>=`.
pub open spec fn requirement_version(line: Seq<char>, pkg: Seq<char>) -> Option<Seq<char>> {
    if !contains(line, pkg) {
        None
    } else {
        match split_second(line, "=="@) {
            Some(v) => Some(trim(v)),
            None => match split_second(line, ">="@) {
                Some(v) => Some(">="@ + trim(v)),
                None => None,
            },
        }
    }
}

/// The version given by the first of the lines `ls[i..]` that gives one.
pub open spec fn requirements_version_from(ls: Seq<Seq<char>>, pkg: Seq<char>, i: int) -> Option<Seq<char>>
    decreases ls.len() - i,
{
    if i < 0 || i >= ls.len() {
        None
    } else {
        match requirement_version(ls[i], pkg) {
            Some(v) => Some(v),
            None => requirements_version_from(ls, pkg, i + 1),
        }
    }
}

/// The version of `pkg` in the text of a `requirements.txt`.
pub open spec fn requirements_version(content: Seq<char>, pkg: Seq<char>) -> Option<Seq<char>> {
    requirements_version_from(lines(content), pkg, 0)
}

/// What the `package.json` lookup gives for `pkg`: it finds `"pkg":`, then
/// takes the text between the quote that opens that key and the next quote,
/// trimmed (the key itself, when `pkg` holds no quote).
pub open spec fn package_entry(content: Seq<char>, pkg: Seq<char>) -> Option<Seq<char>> {
    let pat = seq!['"'] + pkg + seq!['"', ':'];
    match find(content, pat) {
        None => None,
        Some(start) => {
            let tail = content.subrange(start, content.len() as int);
            match find(tail, seq!['"']) {
                None => None,
                Some(vs) => {
                    let after = content.subrange(start + vs + 1, content.len() as int);
                    match find(after, seq!['"']) {
                        None => None,
                        Some(ve) => Some(trim(after.subrange(0, ve))),
                    }
                },
            }
        },
    }
}

/// The regex that finds the version of a Maven dependency of `group_id`.
pub open spec fn maven_pattern(group_id: Seq<char>) -> Seq<char> {
    "<groupId>"@ + regex_escaped(group_id)
        + "</groupId>\\s*<artifactId>[^<]*</artifactId>\\s*<version>([^<]+)</version>"@
}

/// The regex that finds the version of a Gradle dependency of `group_id`.
pub open spec fn gradle_pattern(group_id: Seq<char>) -> Seq<char> {
    "['\"]"@ + regex_escaped(group_id) + "[^'\"]+'([^'\"]+)['\"]"@
}

/// The regex that finds the version in a `jsr:` import of `package`.
pub open spec fn jsr_pattern(package: Seq<char>) -> Seq<char> {
    "jsr:"@ + regex_escaped(package) + "@(\\d+\\.\\d+\\.\\d+)"@
}

/// The Spring Boot version: from `pom.xml` if it gives one, else from
/// `build.gradle`.
pub open spec fn spring_boot_version(pom: Option<Seq<char>>, gradle: Option<Seq<char>>) -> Option<Seq<char>> {
    let g = "org.springframework.boot"@;
    match pom {
        Some(c) if regex_group1(maven_pattern(g), c) is Some => regex_group1(maven_pattern(g), c),
        _ => match gradle {
            Some(c) => regex_group1(gradle_pattern(g), c),
            None => None,
        },
    }
}

/// The Danet version in the first of `sources[i..]` that imports a
/// versioned `jsr:@danet/core`.
pub open spec fn danet_version_from(sources: Seq<Seq<char>>, i: int) -> Option<Seq<char>>
    decreases sources.len() - i,
{
    if i < 0 || i >= sources.len() {
        None
    } else {
        match regex_group1(jsr_pattern("@danet/core"@), sources[i]) {
            Some(v) => Some(v),
            None => danet_version_from(sources, i + 1),
        }
    }
}

/// The view of an optional string slice.
pub open spec fn opt_str_view(o: Option<&str>) -> Option<Seq<char>> {
    match o {
        Some(x) => Some(x@),
        None => None,
    }
}

/// Whether `f` is among `fs`.
pub open spec fn has_framework(fs: Seq<Framework>, f: Framework) -> bool {
    exists|i: int| 0 <= i < fs.len() && fs[i] == f
}

/// The common full-stack pairs that the detected frameworks `fs` form, in
/// the order the detector checks them: React with Express, Django with
/// React, FastAPI with React, Spring Boot with React.
pub open spec fn fullstack_pairs(fs: Seq<Framework>) -> Seq<(Framework, Framework)> {
    (if has_framework(fs, Framework::React) && has_framework(fs, Framework::Express) {
        seq![(Framework::React, Framework::Express)]
    } else {
        seq![]
    }) + (if has_framework(fs, Framework::Django) && has_framework(fs, Framework::React) {
        seq![(Framework::Django, Framework::React)]
    } else {
        seq![]
    }) + (if has_framework(fs, Framework::FastAPI) && has_framework(fs, Framework::React) {
        seq![(Framework::FastAPI, Framework::React)]
    } else {
        seq![]
    }) + (if has_framework(fs, Framework::SpringBoot) && has_framework(fs, Framework::React) {
        seq![(Framework::SpringBoot, Framework::React)]
    } else {
        seq![]
    })
}

/// The pairs of frameworks that should not both be detected (Danet and
/// NestJS; React and Next.js, which includes it) that `fs` holds.
pub open spec fn conflicting_pairs(fs: Seq<Framework>) -> Seq<(Framework, Framework)> {
    (if has_framework(fs, Framework::Danet) && has_framework(fs, Framework::NestJS) {
        seq![(Framework::Danet, Framework::NestJS)]
    } else {
        seq![]
    }) + (if has_framework(fs, Framework::React) && has_framework(fs, Framework::NextJS) {
        seq![(Framework::React, Framework::NextJS)]
    } else {
        seq![]
    })
}

/// Whether a framework serves APIs (and gains from API communication
/// evidence).
pub open spec fn api_capable(f: Framework) -> bool {
    f == Framework::Express || f == Framework::NestJS || f == Framework::FastAPI || f == Framework::Flask
        || f == Framework::Django || f == Framework::SpringBoot || f == Framework::Danet
}

/// The number of distinct evidence types among `ts`.
pub open spec fn distinct_evidence_count(ts: Seq<EvidenceType>) -> nat {
    (if ts.contains(EvidenceType::ConfigFile) { 1nat } else { 0nat }) + (if ts.contains(EvidenceType::ImportPattern) { 1nat } else { 0nat })
        + (if ts.contains(EvidenceType::FileStructure) { 1nat } else { 0nat }) + (if ts.contains(EvidenceType::ContentPattern) { 1nat } else { 0nat })
}

/// Whether `f` is among `fs` (exec).
fn holds_framework(fs: &Vec<Framework>, f: Framework) -> (r: bool)
    ensures
        r == has_framework(fs@, f),
{
    let mut i: usize = 0;
    while i < fs.len()
        invariant
            i <= fs@.len(),
            forall|j: int| 0 <= j < i ==> fs@[j] != f,
        decreases fs@.len() - i,
    {
        if fs[i] == f {
            return true;
        }
        i = i + 1;
    }
    false
}

/// Whether `t` is among `ts` (exec).
fn holds_evidence(ts: &Vec<EvidenceType>, t: EvidenceType) -> (r: bool)
    ensures
        r == ts@.contains(t),
{
    let mut i: usize = 0;
    while i < ts.len()
        invariant
            i <= ts@.len(),
            forall|j: int| 0 <= j < i ==> ts@[j] != t,
        decreases ts@.len() - i,
    {
        if ts[i] == t {
            assert(ts@[i as int] == t);
            return true;
        }
        i = i + 1;
    }
    false
}

impl FrameworkDetector {
    /// A detector for the codebase under `codebase_path`.
    pub fn new(codebase_path: String) -> (r: Self)
        ensures
            r.codebase_path@ == codebase_path@,
    {
        FrameworkDetector { codebase_path }
    }

    /// Whether a search of the codebase skips the directory `name`.
    pub fn is_ignored_for_search(&self, name: &str) -> (r: bool)
        ensures
            r == ignored_for_search(name@),
    {
        str_eq(name, "venv") || str_eq(name, "env") || str_eq(name, ".env") || str_eq(
            name,
            "virtualenv",
        ) || str_eq(name, ".venv") || str_eq(name, "node_modules") || str_eq(name, ".pnpm-store")
            || str_eq(name, ".git") || str_eq(name, ".svn") || str_eq(name, ".hg") || str_eq(
            name,
            "target",
        ) || str_eq(name, "build") || str_eq(name, "dist") || str_eq(name, "out") || str_eq(
            name,
            "__pycache__",
        ) || str_eq(name, ".pytest_cache") || str_eq(name, ".idea") || str_eq(name, ".vscode")
            || str_eq(name, ".vs") || str_eq(name, "vendor")
    }

    /// Whether the file count skips the directory `name`.
    pub fn is_ignored_for_counting(&self, name: &str) -> (r: bool)
        ensures
            r == ignored_for_counting(name@),
    {
        self.is_ignored_for_search(name) || str_eq(name, ".specstory")
    }

    /// The tally key of a file extension: a dot, then the extension.
    pub fn extension_key(&self, extension: &str) -> (r: String)
        ensures
            r@ == seq!['.'] + extension@,
    {
        proof {
            reveal_strlit(".");
        }
        concat_str(".", extension)
    }

    /// Whether one of the filters `extensions` (`*.ext` or `ext`) accepts the
    /// lowercase of `extension`.
    pub fn extension_matches(&self, extensions: &Vec<&str>, extension: &str) -> (r: bool)
        ensures
            r == exists|i: int|
                0 <= i < extensions@.len() && extension_target_matches(
                    #[trigger] extensions@[i]@,
                    lowercase(extension@),
                ),
    {
        let ext = to_lower(extension);
        let mut i: usize = 0;
        while i < extensions.len()
            invariant
                i <= extensions@.len(),
                ext@ == lowercase(extension@),
                forall|j: int|
                    0 <= j < i ==> !extension_target_matches(
                        #[trigger] extensions@[j]@,
                        lowercase(extension@),
                    ),
            decreases extensions@.len() - i,
        {
            let t = chars_of(extensions[i]);
            proof {
                reveal_strlit("*.");
                assert(t@.subrange(0, t@.len() as int) =~= t@);
            }
            let ok = if starts_with_at(&t, 0, t.len(), "*.") {
                let tail = string_from_chars(&t, 2, t.len());
                string_eq(&tail, &ext)
            } else {
                str_eq(extensions[i], ext.as_str())
            };
            if ok {
                return true;
            }
            i = i + 1;
        }
        false
    }

    /// Whether one of `patterns` occurs in `content`.
    pub fn content_has_any(&self, content: &str, patterns: &Vec<&str>) -> (r: bool)
        ensures
            r == contains_any(content@, str_views(patterns@)),
    {
        let c = chars_of(content);
        let mut i: usize = 0;
        while i < patterns.len()
            invariant
                i <= patterns@.len(),
                c@ == content@,
                forall|j: int| 0 <= j < i ==> !contains(content@, #[trigger] str_views(patterns@)[j]),
            decreases patterns@.len() - i,
        {
            if contains_str(&c, patterns[i]) {
                assert(str_views(patterns@)[i as int] == patterns@[i as int]@);
                return true;
            }
            assert(str_views(patterns@)[i as int] == patterns@[i as int]@);
            i = i + 1;
        }
        false
    }

    /// The patterns of `set`.
    pub fn patterns_of(&self, set: PatternSet) -> (r: Vec<&'static str>)
        ensures
            str_views(r@) == set_patterns(set),
    {
        let v: Vec<&'static str> = match set {
            PatternSet::FlaskImports => vec![
                "from flask import",
                "import flask",
                "from flask import Flask",
                "from flask import request",
                "from flask import jsonify",
                "from flask import render_template",
                "Flask(__name__)",
            ],
            PatternSet::FlaskCode => vec![
                "@app.route",
                "app = Flask(",
                ".run(debug=",
                "request.json",
                "request.form",
                "session[",
                "flash(",
                "url_for(",
                "redirect(",
            ],
            PatternSet::ReactImports => vec![
                "import React",
                "from 'react'",
                "from \"react\"",
                "import { useState",
                "import { useEffect",
                "import { Component",
                "import { FC",
                "import { FunctionComponent",
            ],
            PatternSet::ReactCode => vec![
                "ReactDOM.render",
                "createRoot",
                "render(",
                "useState(",
                "useEffect(",
                "useContext(",
                "props.",
                "this.state",
                "this.setState",
            ],
            PatternSet::SpringBootCode => vec![
                "@SpringBootApplication",
                "@RestController",
                "@Controller",
                "@Service",
                "@Repository",
                "@Component",
                "@Autowired",
                "import org.springframework",
                "SpringApplication.run",
                "@GetMapping",
                "@PostMapping",
                "@RequestMapping",
            ],
            PatternSet::DanetImports => vec![
                "jsr:@danet/core",
                "jsr:@danet/cli",
                "https://deno.land/x/danet",
                "@danet/core",
                "from \"@danet/",
                "from 'jsr:@danet/",
            ],
            PatternSet::DanetDecorators => vec![
                "@Controller",
                "@Injectable",
                "@Module",
                "@Get",
                "@Post",
                "@Put",
                "@Delete",
                "@Patch",
            ],
            PatternSet::NextIndicators => vec!["next/", "import { NextPage"],
            PatternSet::ApiCommunication => vec![
                "/api/",
                "/rest/",
                "fetch(",
                "axios.",
                "api.get",
                "api.post",
                "@RequestMapping",
                "@GetMapping",
                "@PostMapping",
                "app.get(",
                "app.post(",
                "router.get(",
                "router.post(",
            ],
        };
        assert(str_views(v@) =~= set_patterns(set));
        v
    }

    /// The extension filters of `set`.
    pub fn extensions_of(&self, set: PatternSet) -> (r: Vec<&'static str>)
        ensures
            str_views(r@) == set_extensions(set),
    {
        let v: Vec<&'static str> = match set {
            PatternSet::FlaskImports | PatternSet::FlaskCode => vec!["*.py"],
            PatternSet::ReactImports | PatternSet::ReactCode => vec!["*.js", "*.jsx", "*.ts", "*.tsx"],
            PatternSet::SpringBootCode => vec!["*.java"],
            PatternSet::DanetImports | PatternSet::DanetDecorators => vec!["*.ts", "*.tsx"],
            PatternSet::NextIndicators => vec!["*.js", "*.ts"],
            PatternSet::ApiCommunication => vec!["*.js", "*.ts", "*.jsx", "*.tsx", "*.py", "*.java"],
        };
        assert(str_views(v@) =~= set_extensions(set));
        v
    }

    /// Whether a file with extension `extension` and text `content` shows
    /// one of the patterns of `set` (one file of `has_patterns_in_files`).
    pub fn file_shows_patterns(&self, set: PatternSet, extension: &str, content: &str) -> (r: bool)
        ensures
            r == file_shows(set, extension@, content@),
    {
        let exts = self.extensions_of(set);
        if !self.extension_matches(&exts, extension) {
            proof {
                assert forall|i: int| 0 <= i < set_extensions(set).len() implies !extension_target_matches(
                    #[trigger] set_extensions(set)[i],
                    lowercase(extension@),
                ) by {
                    assert(set_extensions(set)[i] == exts@[i]@);
                }
            }
            return false;
        }
        proof {
            let i = choose|i: int|
                0 <= i < exts@.len() && extension_target_matches(
                    #[trigger] exts@[i]@,
                    lowercase(extension@),
                );
            assert(set_extensions(set)[i] == exts@[i]@);
        }
        let pats = self.patterns_of(set);
        self.content_has_any(content, &pats)
    }

    /// One file of `has_import_pattern`: a `.py` file whose text holds
    /// `pattern`.
    pub fn python_file_has(&self, extension: &str, content: &str, pattern: &str) -> (r: bool)
        ensures
            r == (extension@ == "py"@ && contains(content@, pattern@)),
    {
        str_eq(extension, "py") && contains_str(&chars_of(content), pattern)
    }

    /// One file of `has_url_imports`: a `.ts` or `.js` file that imports
    /// from `https://deno.land/`.
    pub fn file_has_url_import(&self, extension: &str, content: &str) -> (r: bool)
        ensures
            r == ((extension@ == "ts"@ || extension@ == "js"@) && contains(
                content@,
                "https://deno.land/"@,
            )),
    {
        (str_eq(extension, "ts") || str_eq(extension, "js")) && contains_str(
            &chars_of(content),
            "https://deno.land/",
        )
    }

    /// One file of `has_js_import_pattern`: a JS/TS source file whose text
    /// holds `pattern`.
    pub fn script_file_has(&self, extension: &str, content: &str, pattern: &str) -> (r: bool)
        ensures
            r == (is_script_ext(extension@) && contains(content@, pattern@)),
    {
        (str_eq(extension, "js") || str_eq(extension, "ts") || str_eq(extension, "jsx") || str_eq(
            extension,
            "tsx",
        )) && contains_str(&chars_of(content), pattern)
    }

    /// One file of `has_decorator_pattern`: a `.ts` or `.js` file whose text
    /// holds `pattern`.
    pub fn decorator_file_has(&self, extension: &str, content: &str, pattern: &str) -> (r: bool)
        ensures
            r == ((extension@ == "ts"@ || extension@ == "js"@) && contains(content@, pattern@)),
    {
        (str_eq(extension, "ts") || str_eq(extension, "js")) && contains_str(
            &chars_of(content),
            pattern,
        )
    }

    /// One file of `has_jsx_content`: any `.jsx` or `.tsx` file, or a `.js`
    /// or `.ts` file with a JSX marker in its text.
    pub fn file_shows_jsx(&self, extension: &str, content: &str) -> (r: bool)
        ensures
            r == (extension@ == "jsx"@ || extension@ == "tsx"@ || ((extension@ == "js"@
                || extension@ == "ts"@) && contains_any(content@, jsx_markers()))),
    {
        if str_eq(extension, "jsx") || str_eq(extension, "tsx") {
            return true;
        }
        if str_eq(extension, "js") || str_eq(extension, "ts") {
            let markers: Vec<&str> = vec!["React.createElement", "<div", "<span", "useState", "useEffect"];
            assert(str_views(markers@) =~= jsx_markers());
            return self.content_has_any(content, &markers);
        }
        false
    }

    /// One file of `has_nextjs_patterns`: a JS/TS source file with a Next.js
    /// marker in its text.
    pub fn file_shows_nextjs(&self, extension: &str, content: &str) -> (r: bool)
        ensures
            r == (is_script_ext(extension@) && contains_any(content@, nextjs_markers())),
    {
        if str_eq(extension, "ts") || str_eq(extension, "tsx") || str_eq(extension, "js") || str_eq(
            extension,
            "jsx",
        ) {
            let markers: Vec<&str> = vec![
                "getServerSideProps",
                "getStaticProps",
                "'use client'",
                "'use server'",
                "next/router",
                "next/navigation",
            ];
            assert(str_views(markers@) =~= nextjs_markers());
            return self.content_has_any(content, &markers);
        }
        false
    }

    /// Whether the project is a Deno project: it has a `deno.json`, a
    /// `deno.jsonc`, imports from `https://deno.land/` or a `deno.lock`.
    pub fn is_deno_project(
        &self,
        has_deno_json: bool,
        has_deno_jsonc: bool,
        has_url_imports: bool,
        has_deno_lock: bool,
    ) -> (r: bool)
        ensures
            r == (has_deno_json || has_deno_jsonc || has_url_imports || has_deno_lock),
    {
        if has_deno_json || has_deno_jsonc {
            return true;
        }
        if has_url_imports {
            return true;
        }
        if has_deno_lock {
            return true;
        }
        false
    }

    /// Whether Danet decorators count: decorators were found and so were
    /// Danet imports (which tells Danet from NestJS).
    pub fn has_danet_decorators(&self, decorators_found: bool, danet_imports_found: bool) -> (r: bool)
        ensures
            r == (decorators_found && danet_imports_found),
    {
        if decorators_found {
            return danet_imports_found;
        }
        false
    }

    /// Whether `deno.json` or `deno.jsonc` (their texts, where they could be
    /// read) mentions a `launch-server` task or `danet`.
    pub fn has_danet_tasks(&self, deno_json: Option<&str>, deno_jsonc: Option<&str>) -> (r: bool)
        ensures
            r == ((deno_json matches Some(c) && (contains(c@, "launch-server"@) || contains(
                c@,
                "danet"@,
            ))) || (deno_jsonc matches Some(c) && (contains(c@, "launch-server"@) || contains(
                c@,
                "danet"@,
            )))),
    {
        if let Some(content) = deno_json {
            let c = chars_of(content);
            if contains_str(&c, "launch-server") || contains_str(&c, "danet") {
                return true;
            }
        }
        if let Some(content) = deno_jsonc {
            let c = chars_of(content);
            if contains_str(&c, "launch-server") || contains_str(&c, "danet") {
                return true;
            }
        }
        false
    }

    /// The directories whose presence suggests a Danet project layout.
    pub fn danet_structure_dirs(&self) -> (r: Vec<&'static str>)
        ensures
            str_views(r@) == seq![
                "src/controllers"@,
                "src/modules"@,
                "src/services"@,
                "controllers"@,
                "modules"@,
                "services"@,
            ],
    {
        let v: Vec<&'static str> = vec![
            "src/controllers",
            "src/modules",
            "src/services",
            "controllers",
            "modules",
            "services",
        ];
        assert(str_views(v@) =~= seq![
            "src/controllers"@,
            "src/modules"@,
            "src/services"@,
            "controllers"@,
            "modules"@,
            "services"@,
        ]);
        v
    }

    /// Whether the project has a Danet layout: one of the structure
    /// directories exists and the project is a Deno project.
    pub fn has_danet_structure(&self, structure_dir_found: bool, is_deno: bool) -> (r: bool)
        ensures
            r == (structure_dir_found && is_deno),
    {
        if structure_dir_found {
            return is_deno;
        }
        false
    }

    /// The version of `package_name` in `requirements.txt` (its text, where
    /// it could be read).
    pub fn extract_version_from_requirements(&self, requirements: Option<&str>, package_name: &str) -> (r: Option<String>)
        ensures
            opt_string_view(r) == match requirements {
                Some(c) => requirements_version(c@, package_name@),
                None => None,
            },
    {
        let content = match requirements {
            Some(c) => c,
            None => return None,
        };
        let cs = chars_of(content);
        let ranges = line_ranges(&cs);
        let ghost ls = lines(content@);
        let ghost pkg = package_name@;
        let mut i: usize = 0;
        while i < ranges.len()
            invariant
                cs@ == content@,
                requirements == Some(content),
                ls == lines(content@),
                pkg == package_name@,
                ranges@.len() == ls.len(),
                forall|k: int|
                    0 <= k < ranges@.len() ==> {
                        &&& (#[trigger] ranges@[k]).0 <= ranges@[k].1 <= cs@.len()
                        &&& cs@.subrange(ranges@[k].0 as int, ranges@[k].1 as int) == ls[k]
                    },
                i <= ranges@.len(),
                requirements_version_from(ls, pkg, 0) == requirements_version_from(ls, pkg, i as int),
            decreases ranges@.len() - i,
        {
            let (a, b) = ranges[i];
            let line = copy_range(&cs, a, b);
            assert(line@ == ls[i as int]);
            assert(requirements_version_from(ls, pkg, i as int) == match requirement_version(
                ls[i as int],
                pkg,
            ) {
                Some(v) => Some(v),
                None => requirements_version_from(ls, pkg, i + 1),
            });
            if contains_str(&line, package_name) {
                match split_second_exec(&line, "==") {
                    Some(v) => {
                        let t = trimmed_string(&v);
                        assert(requirement_version(line@, pkg) == Some(t@));
                        return Some(t);
                    },
                    None => {},
                }
                match split_second_exec(&line, ">=") {
                    Some(v) => {
                        let t = trimmed_string(&v);
                        proof {
                            reveal_strlit(">=");
                        }
                        let out = concat_str(">=", t.as_str());
                        assert(requirement_version(line@, pkg) == Some(out@));
                        return Some(out);
                    },
                    None => {},
                }
            }
            i = i + 1;
        }
        None
    }

    /// What the `package.json` lookup gives for `package_name` (see
    /// `package_entry`): the quoted key itself, not a version, when the key
    /// holds no quote.
    pub fn extract_version_from_package(&self, package_json: Option<&str>, package_name: &str) -> (r: Option<String>)
        ensures
            opt_string_view(r) == match package_json {
                Some(c) => package_entry(c@, package_name@),
                None => None,
            },
            !package_name@.contains('"') && r is Some ==> r->0@ == trim(package_name@),
    {
        let content = match package_json {
            Some(c) => c,
            None => return None,
        };
        let cs = chars_of(content);
        let q = "\"";
        proof {
            reveal_strlit("\"");
            reveal_strlit("\":");
        }
        let pat_s = concat_str(q, package_name);
        let pat = concat_str(pat_s.as_str(), "\":");
        let pv = chars_of(pat.as_str());
        let qv = chars_of(q);
        assert(pv@ =~= seq!['"'] + package_name@ + seq!['"', ':']);
        assert(qv@ =~= seq!['"']);
        proof {
            lemma_find(cs@, pv@);
        }
        let start = match find_chars(&cs, &pv) {
            None => return None,
            Some(st) => st,
        };
        let n = cs.len();
        let tail = copy_range(&cs, start, n);
        proof {
            lemma_find(tail@, qv@);
        }
        let vs = match find_chars(&tail, &qv) {
            None => return None,
            Some(x) => x,
        };
        let after = copy_range(&cs, start + vs + 1, n);
        proof {
            lemma_find(after@, qv@);
        }
        let ve = match find_chars(&after, &qv) {
            None => return None,
            Some(x) => x,
        };
        let piece = copy_range(&after, 0, ve);
        let r = trimmed_string(&piece);
        proof {
            if !package_name@.contains('"') {
                let pk = package_name@;
                let m: int = pk.len() as int;
                assert(matches_at(cs@, pv@, start as int));
                assert(cs@[start as int] == pv@[0]);
                assert(matches_at(tail@, qv@, 0)) by {
                    assert(tail@.subrange(0, 1) =~= qv@);
                }
                assert(vs == 0);
                assert forall|j: int| 0 <= j < pk.len() implies after@[j] == pk[j] by {
                    assert(after@[j] == cs@[start + 1 + j]);
                    assert(cs@.subrange(start as int, start + pv@.len())[1 + j] == pv@[1 + j]);
                }
                assert(after@[m] == '"') by {
                    assert(after@[m] == cs@[start + 1 + m]);
                    assert(cs@.subrange(start as int, start + pv@.len())[1 + m] == pv@[1 + m]);
                }
                assert(matches_at(after@, qv@, m)) by {
                    assert(after@.subrange(m, m + 1) =~= qv@);
                }
                assert forall|j: int| 0 <= j < pk.len() implies !matches_at(after@, qv@, j) by {
                    if matches_at(after@, qv@, j) {
                        assert(after@.subrange(j, j + 1)[0] == qv@[0]);
                        assert(pk[j] == '"');
                        assert(pk.contains('"'));
                    }
                }
                assert(ve == pk.len());
                assert(piece@ =~= pk);
            }
        }
        Some(r)
    }

    /// The Maven version of a dependency of `group_id` in the text of a
    /// `pom.xml`: group 1 of `maven_pattern` on it.
    pub fn extract_maven_version(&self, content: &str, group_id: &str) -> (r: Option<String>)
        ensures
            opt_string_view(r) == regex_group1(maven_pattern(group_id@), content@),
    {
        let escaped = escape(group_id);
        let head = concat_str("<groupId>", escaped.as_str());
        let pattern = concat_str(
            head.as_str(),
            "</groupId>\\s*<artifactId>[^<]*</artifactId>\\s*<version>([^<]+)</version>",
        );
        assert(pattern@ =~= maven_pattern(group_id@));
        first_group(pattern.as_str(), content)
    }

    /// The Gradle version of a dependency of `group_id` in the text of a
    /// `build.gradle`: group 1 of `gradle_pattern` on it.
    pub fn extract_gradle_version(&self, content: &str, group_id: &str) -> (r: Option<String>)
        ensures
            opt_string_view(r) == regex_group1(gradle_pattern(group_id@), content@),
    {
        let escaped = escape(group_id);
        let head = concat_str("['\"]", escaped.as_str());
        let pattern = concat_str(head.as_str(), "[^'\"]+'([^'\"]+)['\"]");
        assert(pattern@ =~= gradle_pattern(group_id@));
        first_group(pattern.as_str(), content)
    }

    /// The version in a `jsr:` import of `package` in `content`: group 1 of
    /// `jsr_pattern` on it.
    pub fn extract_jsr_version(&self, content: &str, package: &str) -> (r: Option<String>)
        ensures
            opt_string_view(r) == regex_group1(jsr_pattern(package@), content@),
    {
        let escaped = escape(package);
        let head = concat_str("jsr:", escaped.as_str());
        let pattern = concat_str(head.as_str(), "@(\\d+\\.\\d+\\.\\d+)");
        assert(pattern@ =~= jsr_pattern(package@));
        first_group(pattern.as_str(), content)
    }

    /// The Spring Boot version from `pom.xml`, else from `build.gradle`
    /// (their texts, where they could be read).
    pub fn extract_spring_boot_version(&self, pom: Option<&str>, gradle: Option<&str>) -> (r: Option<String>)
        ensures
            opt_string_view(r) == spring_boot_version(opt_str_view(pom), opt_str_view(gradle)),
    {
        if let Some(pom_content) = pom {
            if let Some(version) = self.extract_maven_version(pom_content, "org.springframework.boot") {
                return Some(version);
            }
        }
        if let Some(gradle_content) = gradle {
            return self.extract_gradle_version(gradle_content, "org.springframework.boot");
        }
        None
    }

    /// The Danet version: from the first TypeScript source that imports a
    /// versioned `jsr:@danet/core`, else from `deno.json`.
    pub fn extract_danet_version(&self, sources: &Vec<String>, deno_json: Option<&str>) -> (r: Option<String>)
        ensures
            opt_string_view(r) == match danet_version_from(sources@.map_values(|s: String| s@), 0) {
                Some(v) => Some(v),
                None => match deno_json {
                    Some(c) => regex_group1(jsr_pattern("@danet/core"@), c@),
                    None => None,
                },
            },
    {
        let ghost sv = sources@.map_values(|s: String| s@);
        let mut i: usize = 0;
        while i < sources.len()
            invariant
                sv == sources@.map_values(|s: String| s@),
                i <= sources@.len(),
                danet_version_from(sv, 0) == danet_version_from(sv, i as int),
            decreases sources@.len() - i,
        {
            assert(sv[i as int] == sources@[i as int]@);
            if let Some(v) = self.extract_jsr_version(sources[i].as_str(), "@danet/core") {
                return Some(v);
            }
            i = i + 1;
        }
        if let Some(content) = deno_json {
            return self.extract_jsr_version(content, "@danet/core");
        }
        None
    }

    /// The common full-stack pairs among the detected frameworks.
    pub fn fullstack_pairs(&self, frameworks: &Vec<Framework>) -> (r: Vec<(Framework, Framework)>)
        ensures
            r@ == fullstack_pairs(frameworks@),
    {
        let react = holds_framework(frameworks, Framework::React);
        let mut r: Vec<(Framework, Framework)> = Vec::new();
        if react && holds_framework(frameworks, Framework::Express) {
            r.push((Framework::React, Framework::Express));
        }
        if holds_framework(frameworks, Framework::Django) && react {
            r.push((Framework::Django, Framework::React));
        }
        if holds_framework(frameworks, Framework::FastAPI) && react {
            r.push((Framework::FastAPI, Framework::React));
        }
        if holds_framework(frameworks, Framework::SpringBoot) && react {
            r.push((Framework::SpringBoot, Framework::React));
        }
        assert(r@ =~= fullstack_pairs(frameworks@));
        r
    }

    /// The conflicting pairs among the detected frameworks.
    pub fn conflicting_pairs(&self, frameworks: &Vec<Framework>) -> (r: Vec<(Framework, Framework)>)
        ensures
            r@ == conflicting_pairs(frameworks@),
    {
        let mut r: Vec<(Framework, Framework)> = Vec::new();
        if holds_framework(frameworks, Framework::Danet) && holds_framework(frameworks, Framework::NestJS) {
            r.push((Framework::Danet, Framework::NestJS));
        }
        if holds_framework(frameworks, Framework::React) && holds_framework(frameworks, Framework::NextJS) {
            r.push((Framework::React, Framework::NextJS));
        }
        assert(r@ =~= conflicting_pairs(frameworks@));
        r
    }

    /// Whether a framework serves APIs.
    pub fn is_api_capable(&self, framework: Framework) -> (r: bool)
        ensures
            r == api_capable(framework),
    {
        matches!(
            framework,
            Framework::Express | Framework::NestJS | Framework::FastAPI | Framework::Flask | Framework::Django
                | Framework::SpringBoot | Framework::Danet
        )
    }

    /// The number of distinct evidence types among `types`.
    pub fn evidence_diversity(&self, types: &Vec<EvidenceType>) -> (r: usize)
        ensures
            r == distinct_evidence_count(types@),
            r <= 4,
    {
        let mut n: usize = 0;
        if holds_evidence(types, EvidenceType::ConfigFile) {
            n = n + 1;
        }
        if holds_evidence(types, EvidenceType::ImportPattern) {
            n = n + 1;
        }
        if holds_evidence(types, EvidenceType::FileStructure) {
            n = n + 1;
        }
        if holds_evidence(types, EvidenceType::ContentPattern) {
            n = n + 1;
        }
        n
    }

    /// The ecosystem scores of a tally, as `ecosystem_score` takes them.
    pub open spec fn score_of(
        e: LanguageEcosystem,
        counts: ExtensionCounts,
        has_deno_json: bool,
        has_url_imports: bool,
        has_tsconfig: bool,
    ) -> Option<nat> {
        ecosystem_score(
            e,
            counts.count(".py"@),
            counts.count(".ts"@) + counts.count(".tsx"@),
            counts.count(".js"@),
            counts.count(".java"@),
            has_deno_json || has_url_imports,
            has_tsconfig,
        )
    }

    /// Whether `r` is a primary ecosystem of the tally: `Mixed` when no
    /// ecosystem is a candidate, else a candidate with the highest score.
    pub open spec fn is_primary_ecosystem(
        r: LanguageEcosystem,
        counts: ExtensionCounts,
        has_deno_json: bool,
        has_url_imports: bool,
        has_tsconfig: bool,
    ) -> bool {
        &&& (forall|e: LanguageEcosystem| #[trigger] Self::score_of(e, counts, has_deno_json, has_url_imports, has_tsconfig) is None)
            ==> r == LanguageEcosystem::Mixed
        &&& (exists|e: LanguageEcosystem| #[trigger] Self::score_of(e, counts, has_deno_json, has_url_imports, has_tsconfig) is Some)
            ==> {
            &&& Self::score_of(r, counts, has_deno_json, has_url_imports, has_tsconfig) is Some
            &&& forall|e: LanguageEcosystem| #[trigger]
                Self::score_of(e, counts, has_deno_json, has_url_imports, has_tsconfig) matches Some(s) ==> s
                    <= Self::score_of(r, counts, has_deno_json, has_url_imports, has_tsconfig)->0
        }
    }

    /// The primary ecosystem: `Mixed` when no ecosystem is a candidate, else a
    /// candidate with the highest score (ten points per file).
    pub fn detect_language_ecosystem(
        &self,
        file_counts: &ExtensionCounts,
        has_deno_json: bool,
        has_url_imports: bool,
        has_tsconfig: bool,
    ) -> (r: LanguageEcosystem)
        requires
            file_counts.count(".py"@) * 10 <= usize::MAX,
            (file_counts.count(".ts"@) + file_counts.count(".tsx"@)) * 10 <= usize::MAX,
            file_counts.count(".js"@) * 10 <= usize::MAX,
            file_counts.count(".java"@) * 10 <= usize::MAX,
        ensures
            (forall|e: LanguageEcosystem|
                #[trigger] Self::score_of(e, *file_counts, has_deno_json, has_url_imports, has_tsconfig)
                    is None) ==> r == LanguageEcosystem::Mixed,
            (exists|e: LanguageEcosystem|
                #[trigger] Self::score_of(e, *file_counts, has_deno_json, has_url_imports, has_tsconfig)
                    is Some) ==> {
                &&& Self::score_of(r, *file_counts, has_deno_json, has_url_imports, has_tsconfig) is Some
                &&& forall|e: LanguageEcosystem| #[trigger]
                    Self::score_of(e, *file_counts, has_deno_json, has_url_imports, has_tsconfig)
                        matches Some(s) ==> s <= Self::score_of(
                        r,
                        *file_counts,
                        has_deno_json,
                        has_url_imports,
                        has_tsconfig,
                    )->0
            },
            Self::is_primary_ecosystem(r, *file_counts, has_deno_json, has_url_imports, has_tsconfig),
    {
        let py = file_counts.get(".py");
        let ts = file_counts.get(".ts") + file_counts.get(".tsx");
        let js = file_counts.get(".js");
        let java = file_counts.get(".java");
        let deno = has_deno_json || has_url_imports;
        let mut best = LanguageEcosystem::Mixed;
        let mut best_score: usize = 0;
        if py > 0 {
            best = LanguageEcosystem::Python;
            best_score = py * 10;
        }
        if ts > 0 && ts * 10 > best_score {
            best = if deno {
                LanguageEcosystem::Deno
            } else {
                LanguageEcosystem::TypeScript
            };
            best_score = ts * 10;
        }
        if js > 0 && !has_tsconfig && js * 10 > best_score {
            best = LanguageEcosystem::JavaScript;
            best_score = js * 10;
        }
        if java > 0 && java * 10 > best_score {
            best = LanguageEcosystem::Java;
            best_score = java * 10;
        }
        proof {
            let sc = |e: LanguageEcosystem|
                Self::score_of(e, *file_counts, has_deno_json, has_url_imports, has_tsconfig);
            assert(sc(LanguageEcosystem::Rust) is None);
            assert(sc(LanguageEcosystem::Go) is None);
            assert(sc(LanguageEcosystem::Mixed) is None);
            assert(sc(LanguageEcosystem::Python) is None || sc(LanguageEcosystem::Python) is Some);
            assert(sc(LanguageEcosystem::Deno) is None || sc(LanguageEcosystem::Deno) is Some);
            assert(sc(LanguageEcosystem::TypeScript) is None || sc(LanguageEcosystem::TypeScript)
                is Some);
            assert(sc(LanguageEcosystem::JavaScript) is None || sc(LanguageEcosystem::JavaScript)
                is Some);
            assert(sc(LanguageEcosystem::Java) is None || sc(LanguageEcosystem::Java) is Some);
        }
        best
    }
}


/// Without Deno markers, TypeScript scores ten points for each `.ts` and
/// each `.tsx` file, and Python ten for each `.py` file; with them, the same
/// TypeScript files score for Deno instead.
pub proof fn law_script_scores(counts: ExtensionCounts, has_deno_json: bool, has_url_imports: bool, has_tsconfig: bool)
    ensures
        !has_deno_json && !has_url_imports && counts.count(".ts"@) + counts.count(".tsx"@) > 0 ==> FrameworkDetector::score_of(
            LanguageEcosystem::TypeScript,
            counts,
            has_deno_json,
            has_url_imports,
            has_tsconfig,
        ) == Some(10 * (counts.count(".ts"@) + counts.count(".tsx"@))),
        (has_deno_json || has_url_imports) && counts.count(".ts"@) + counts.count(".tsx"@) > 0 ==> FrameworkDetector::score_of(
            LanguageEcosystem::Deno,
            counts,
            has_deno_json,
            has_url_imports,
            has_tsconfig,
        ) == Some(10 * (counts.count(".ts"@) + counts.count(".tsx"@))),
        counts.count(".py"@) > 0 ==> FrameworkDetector::score_of(
            LanguageEcosystem::Python,
            counts,
            has_deno_json,
            has_url_imports,
            has_tsconfig,
        ) == Some(10 * counts.count(".py"@)),
        counts.count(".py"@) == 0 ==> FrameworkDetector::score_of(
            LanguageEcosystem::Python,
            counts,
            has_deno_json,
            has_url_imports,
            has_tsconfig,
        ) is None,
        !has_tsconfig && counts.count(".js"@) > 0 ==> FrameworkDetector::score_of(
            LanguageEcosystem::JavaScript,
            counts,
            has_deno_json,
            has_url_imports,
            has_tsconfig,
        ) == Some(10 * counts.count(".js"@)),
        has_tsconfig ==> FrameworkDetector::score_of(
            LanguageEcosystem::JavaScript,
            counts,
            has_deno_json,
            has_url_imports,
            has_tsconfig,
        ) is None,
        counts.count(".java"@) > 0 ==> FrameworkDetector::score_of(
            LanguageEcosystem::Java,
            counts,
            has_deno_json,
            has_url_imports,
            has_tsconfig,
        ) == Some(10 * counts.count(".java"@)),
        FrameworkDetector::score_of(LanguageEcosystem::Rust, counts, has_deno_json, has_url_imports, has_tsconfig) is None,
        FrameworkDetector::score_of(LanguageEcosystem::Go, counts, has_deno_json, has_url_imports, has_tsconfig) is None,
        FrameworkDetector::score_of(LanguageEcosystem::Mixed, counts, has_deno_json, has_url_imports, has_tsconfig) is None,
{
}

/// A tally with more `.ts` and `.tsx` files together than `.py` files never
/// has Python as its primary ecosystem; with more of them than `.py`, `.js`
/// and `.java` files each and no Deno markers, it is TypeScript.
pub proof fn law_more_typescript_files_win(
    r: LanguageEcosystem,
    counts: ExtensionCounts,
    has_deno_json: bool,
    has_url_imports: bool,
    has_tsconfig: bool,
)
    requires
        FrameworkDetector::is_primary_ecosystem(r, counts, has_deno_json, has_url_imports, has_tsconfig),
    ensures
        counts.count(".ts"@) + counts.count(".tsx"@) > counts.count(".py"@) ==> r != LanguageEcosystem::Python,
        !has_deno_json && !has_url_imports && counts.count(".ts"@) + counts.count(".tsx"@) > counts.count(".py"@)
            && counts.count(".ts"@) + counts.count(".tsx"@) > counts.count(".js"@)
            && counts.count(".ts"@) + counts.count(".tsx"@) > counts.count(".java"@) ==> r == LanguageEcosystem::TypeScript,
{
    let ts = counts.count(".ts"@) + counts.count(".tsx"@);
    let sc = |e: LanguageEcosystem| FrameworkDetector::score_of(e, counts, has_deno_json, has_url_imports, has_tsconfig);
    law_script_scores(counts, has_deno_json, has_url_imports, has_tsconfig);
    if ts > counts.count(".py"@) {
        let ts_e = if has_deno_json || has_url_imports { LanguageEcosystem::Deno } else { LanguageEcosystem::TypeScript };
        assert(sc(ts_e) == Some(10 * ts));
        assert(sc(ts_e) is Some);
        if r == LanguageEcosystem::Python {
            assert(sc(ts_e) matches Some(s) ==> s <= sc(r)->0);
            assert(false);
        }
        if !has_deno_json && !has_url_imports && ts > counts.count(".js"@) && ts > counts.count(".java"@) {
            assert(sc(LanguageEcosystem::TypeScript) matches Some(s) ==> s <= sc(r)->0);
            assert(sc(r) is Some);
            assert(r != LanguageEcosystem::Deno);
            assert(r != LanguageEcosystem::JavaScript);
            assert(r != LanguageEcosystem::Java);
            assert(r != LanguageEcosystem::Rust);
            assert(r != LanguageEcosystem::Go);
            assert(r != LanguageEcosystem::Mixed);
        }
    }
}
} // verus!
