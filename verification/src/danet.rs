//! Telling Danet (Deno) projects from NestJS (Node.js) ones: the Deno
//! configuration, the imports and decorators of source files, and the
//! comparison with NestJS.
use vstd::prelude::*;
use crate::text::{chars_of, contains, contains_str, starts_with, starts_with_at, str_eq, string_views};

verus! {

/// The kind of a piece of evidence for a Danet project.
#[derive(Debug, Clone, Copy, PartialEq, Eq, Structural)]
pub enum DanetEvidenceType {
    DenoConfig,
    DanetImport,
    DenoUrlImport,
    NativeTypeScript,
    DenoBuiltinTools,
    DenoPermissions,
    ModuleStructure,
}

/// The Deno features that a project uses.
pub struct DenoFeatures {
    pub native_typescript: bool,
    pub builtin_tooling: Vec<String>,
    pub import_system: ImportSystemType,
    pub permissions_model: Option<String>,
    pub std_library_usage: Vec<String>,
}

/// How a project imports its dependencies.
#[derive(Debug, Clone, Copy, PartialEq, Eq, Structural)]
pub enum ImportSystemType {
    EsModulesWithUrls,
    ImportMap,
    Mixed,
    Unknown,
}

/// A Danet construct found in a source file.
pub struct DanetPattern {
    pub pattern_type: DanetPatternType,
    pub file_path: String,
    pub description: String,
    pub nestjs_equivalent: Option<String>,
}

/// The kind of a Danet construct.
#[derive(Debug, Clone, Copy, PartialEq, Eq, Structural)]
pub enum DanetPatternType {
    Controller,
    Service,
    Module,
    Middleware,
    Guard,
    Injectable,
    Decorator,
}

/// Tells Danet projects from NestJS ones.
pub struct DanetDetector;

/// What the JSON text of a Deno configuration holds for the detector, when
/// it parses: whether it has `imports`, the keys of its `tasks` object (if
/// it has one), and the JSON text of its `permissions` (if it has them).
pub uninterp spec fn deno_config_view(content: Seq<char>) -> Option<(bool, Option<Seq<Seq<char>>>, Option<Seq<char>>)>;

/// The view of an optional list of strings.
pub open spec fn opt_strings_view(o: Option<Vec<String>>) -> Option<Seq<Seq<char>>> {
    match o {
        Some(v) => Some(string_views(v@)),
        None => None,
    }
}

/// `serde_json::from_str::<Value>` on a Deno configuration, then `get` of
/// `imports`, of `tasks` (its object's keys) and of `permissions` (its JSON
/// text, by `Display`). What these give is named, not written out: the
/// result is `deno_config_view` of the text, `None` when it does not parse.
#[verifier::external_body]
fn read_deno_config(content: &str) -> (r: Option<(bool, Option<Vec<String>>, Option<String>)>)
    ensures
        match r {
            None => deno_config_view(content@) is None,
            Some(x) => deno_config_view(content@) == Some(
                (x.0, opt_strings_view(x.1), crate::text::opt_string_view(x.2)),
            ),
        },
{
    let config: serde_json::Value = match serde_json::from_str(content) {
        Ok(v) => v,
        Err(_) => return None,
    };
    let tasks = match config.get("tasks") {
        Some(serde_json::Value::Object(m)) => Some(m.keys().cloned().collect()),
        _ => None,
    };
    let permissions = match config.get("permissions") {
        Some(p) => Some(p.to_string()),
        None => None,
    };
    Some((config.get("imports").is_some(), tasks, permissions))
}

/// The task names of a configuration that run a Deno tool (start with
/// `deno `), in order.
pub open spec fn deno_tool_tasks(names: Seq<Seq<char>>) -> Seq<Seq<char>>
    decreases names.len(),
{
    if names.len() == 0 {
        seq![]
    } else {
        deno_tool_tasks(names.drop_last()) + if starts_with(names.last(), "deno "@) {
            seq![names.last()]
        } else {
            seq![]
        }
    }
}

/// The mathematical content of [`DenoFeatures`].
pub struct DenoFeaturesView {
    pub native_typescript: bool,
    pub builtin_tooling: Seq<Seq<char>>,
    pub import_system: ImportSystemType,
    pub permissions_model: Option<Seq<char>>,
    pub std_library_usage: Seq<Seq<char>>,
}

impl View for DenoFeatures {
    type V = DenoFeaturesView;

    open spec fn view(&self) -> DenoFeaturesView {
        DenoFeaturesView {
            native_typescript: self.native_typescript,
            builtin_tooling: string_views(self.builtin_tooling@),
            import_system: self.import_system,
            permissions_model: crate::text::opt_string_view(self.permissions_model),
            std_library_usage: string_views(self.std_library_usage@),
        }
    }
}

/// The Deno features after a configuration with this view is read: an
/// import map when it has `imports`, the Deno tool tasks added to the
/// built-in tooling, and the permissions recorded when it has them.
pub open spec fn features_with_config(
    f: DenoFeaturesView,
    view: Option<(bool, Option<Seq<Seq<char>>>, Option<Seq<char>>)>,
) -> DenoFeaturesView {
    match view {
        None => f,
        Some((imports, tasks, permissions)) => {
            let import_system = if imports {
                ImportSystemType::ImportMap
            } else {
                f.import_system
            };
            let builtin_tooling = match tasks {
                Some(names) => f.builtin_tooling + deno_tool_tasks(names),
                None => f.builtin_tooling,
            };
            let permissions_model = match permissions {
                Some(p) => Some(p),
                None => f.permissions_model,
            };
            DenoFeaturesView { import_system, builtin_tooling, permissions_model, ..f }
        },
    }
}

/// The comparison with NestJS for a project that is, or is not, a Danet
/// project with this import system.
pub open spec fn nestjs_comparison(is_danet: bool, import_system: ImportSystemType) -> Seq<Seq<char>> {
    if is_danet {
        seq![
            "✓ Uses Deno runtime instead of Node.js"@,
            "✓ Native TypeScript support without compilation step"@,
            "✓ ES modules with URL imports instead of npm packages"@,
            "✓ Built-in tooling (deno fmt, deno lint) instead of separate packages"@,
            "✓ Deno permission model for enhanced security"@,
        ] + if import_system == ImportSystemType::ImportMap {
            seq!["✓ Import maps for dependency management"@]
        } else {
            seq![]
        }
    } else {
        seq![
            "× Standard Node.js/NestJS project structure"@,
            "× Requires TypeScript compilation step"@,
            "× Uses npm/yarn package management"@,
        ]
    }
}

/// The decorators that mark Danet constructs, with the kind and description
/// of each and its NestJS equivalent.
pub open spec fn danet_decorators() -> Seq<(Seq<char>, DanetPatternType, Seq<char>, Seq<char>)> {
    seq![
        ("@Controller"@, DanetPatternType::Controller, "Controller decorator found"@, "@Controller from @nestjs/common"@),
        ("@Injectable"@, DanetPatternType::Injectable, "Injectable decorator found"@, "@Injectable from @nestjs/common"@),
        ("@Module"@, DanetPatternType::Module, "Module decorator found"@, "@Module from @nestjs/common"@),
    ]
}

/// The mathematical content of a [`DanetPattern`].
pub open spec fn pattern_view(p: DanetPattern) -> (DanetPatternType, Seq<char>, Seq<char>, Option<Seq<char>>) {
    (p.pattern_type, p.file_path@, p.description@, crate::text::opt_string_view(p.nestjs_equivalent))
}

/// The Danet constructs of a source file: one for each decorator it holds,
/// in the order of `danet_decorators`.
pub open spec fn patterns_in(path: Seq<char>, content: Seq<char>, ds: Seq<(Seq<char>, DanetPatternType, Seq<char>, Seq<char>)>) -> Seq<(DanetPatternType, Seq<char>, Seq<char>, Option<Seq<char>>)>
    decreases ds.len(),
{
    if ds.len() == 0 {
        seq![]
    } else {
        let d = ds.last();
        patterns_in(path, content, ds.drop_last()) + if contains(content, d.0) {
            seq![(d.1, path, d.2, Some(d.3))]
        } else {
            seq![]
        }
    }
}

impl DanetDetector {
    /// A detector.
    pub fn new() -> (r: Self) {
        DanetDetector
    }

    /// Reads the Deno configuration text `config_content` into `features`
    /// (see `features_with_config`); text that is no JSON changes nothing.
    pub fn parse_deno_config(&self, config_content: &str, features: &mut DenoFeatures)
        ensures
            final(features)@ == features_with_config(old(features)@, deno_config_view(config_content@)),
    {
        let parsed = read_deno_config(config_content);
        if let Some((imports, tasks, permissions)) = parsed {
            if imports {
                features.import_system = ImportSystemType::ImportMap;
            }
            if let Some(names) = tasks {
                let mut tools: Vec<String> = Vec::new();
                let mut i: usize = 0;
                while i < names.len()
                    invariant
                        i <= names@.len(),
                        string_views(tools@) == deno_tool_tasks(string_views(names@).take(i as int)),
                    decreases names@.len() - i,
                {
                    let n = chars_of(names[i].as_str());
                    assert(n@.subrange(0, n@.len() as int) =~= n@);
                    let ghost before = tools@;
                    let is_tool = starts_with_at(&n, 0, n.len(), "deno ");
                    assert(is_tool == starts_with(names@[i as int]@, "deno "@));
                    if is_tool {
                        tools.push(names[i].clone());
                    }
                    proof {
                        let t = string_views(names@).take(i + 1);
                        assert(t.drop_last() =~= string_views(names@).take(i as int));
                        assert(t.last() == names@[i as int]@);
                        if is_tool {
                            assert(string_views(tools@) =~= string_views(before).push(names@[i as int]@));
                        }
                        assert(string_views(tools@) =~= deno_tool_tasks(t));
                    }
                    i = i + 1;
                }
                assert(string_views(names@).take(names@.len() as int) =~= string_views(names@));
                let ghost prior = features.builtin_tooling@;
                features.builtin_tooling.append(&mut tools);
                assert(string_views(features.builtin_tooling@) =~= string_views(prior) + deno_tool_tasks(string_views(names@)));
            }
            if let Some(p) = permissions {
                features.permissions_model = Some(p);
            }
        }
    }

    /// What a source file's text shows about its imports: a Danet import, a
    /// Danet import by Deno URL, a NestJS import.
    pub fn classify_imports(&self, content: &str) -> (r: (bool, bool, bool))
        ensures
            r.0 == (contains(content@, "from \"danet\""@) || contains(content@, "from 'danet'"@)),
            r.1 == contains(content@, "from \"https://deno.land/x/danet"@),
            r.2 == contains(content@, "from \"@nestjs/"@),
    {
        let c = chars_of(content);
        (
            contains_str(&c, "from \"danet\"") || contains_str(&c, "from 'danet'"),
            contains_str(&c, "from \"https://deno.land/x/danet"),
            contains_str(&c, "from \"@nestjs/"),
        )
    }

    /// Whether the text of `src/main.ts` shows Deno-specific code.
    pub fn main_shows_deno(&self, content: &str) -> (r: bool)
        ensures
            r == (contains(content@, "Deno.serve"@) || contains(content@, "deno.land"@)),
    {
        let c = chars_of(content);
        contains_str(&c, "Deno.serve") || contains_str(&c, "deno.land")
    }

    /// Whether a file with this extension and path counts as a TypeScript
    /// source of the project (not under `node_modules`).
    pub fn counts_as_typescript(&self, extension: &str, path: &str) -> (r: bool)
        ensures
            r == (extension@ == "ts"@ && !contains(path@, "node_modules"@)),
    {
        str_eq(extension, "ts") && !contains_str(&chars_of(path), "node_modules")
    }

    /// The Danet constructs of the source file at `file_path` with text
    /// `content`.
    pub fn patterns_in_file(&self, file_path: &str, content: &str) -> (r: Vec<DanetPattern>)
        ensures
            r@.map_values(|p: DanetPattern| pattern_view(p)) == patterns_in(file_path@, content@, danet_decorators()),
    {
        let c = chars_of(content);
        let decorators: Vec<(&str, DanetPatternType, &str, &str)> = vec![
            ("@Controller", DanetPatternType::Controller, "Controller decorator found", "@Controller from @nestjs/common"),
            ("@Injectable", DanetPatternType::Injectable, "Injectable decorator found", "@Injectable from @nestjs/common"),
            ("@Module", DanetPatternType::Module, "Module decorator found", "@Module from @nestjs/common"),
        ];
        let ghost ds = danet_decorators();
        assert(decorators@.map_values(|d: (&str, DanetPatternType, &str, &str)| (d.0@, d.1, d.2@, d.3@)) =~= ds);
        let mut out: Vec<DanetPattern> = Vec::new();
        let mut i: usize = 0;
        while i < decorators.len()
            invariant
                c@ == content@,
                ds == danet_decorators(),
                decorators@.map_values(|d: (&str, DanetPatternType, &str, &str)| (d.0@, d.1, d.2@, d.3@)) == ds,
                i <= decorators@.len(),
                out@.map_values(|p: DanetPattern| pattern_view(p)) == patterns_in(file_path@, content@, ds.take(i as int)),
            decreases decorators@.len() - i,
        {
            let d = decorators[i];
            assert(ds[i as int] == (d.0@, d.1, d.2@, d.3@));
            let ghost before = out@;
            if contains_str(&c, d.0) {
                out.push(DanetPattern {
                    pattern_type: d.1,
                    file_path: file_path.to_owned(),
                    description: d.2.to_owned(),
                    nestjs_equivalent: Some(d.3.to_owned()),
                });
            }
            proof {
                let t = ds.take(i + 1);
                assert(t.drop_last() =~= ds.take(i as int));
                assert(t.last() == ds[i as int]);
                assert(out@.map_values(|p: DanetPattern| pattern_view(p)) =~= patterns_in(file_path@, content@, t));
            }
            i = i + 1;
        }
        assert(ds.take(3) =~= ds);
        out
    }

    /// How a Danet project differs from a NestJS one, for a project that is,
    /// or is not, a Danet project with this import system.
    pub fn generate_nestjs_comparison(&self, is_danet_project: bool, import_system: ImportSystemType) -> (r: Vec<String>)
        ensures
            string_views(r@) == nestjs_comparison(is_danet_project, import_system),
    {
        let mut v: Vec<String> = Vec::new();
        if is_danet_project {
            v.push("✓ Uses Deno runtime instead of Node.js".to_owned());
            v.push("✓ Native TypeScript support without compilation step".to_owned());
            v.push("✓ ES modules with URL imports instead of npm packages".to_owned());
            v.push("✓ Built-in tooling (deno fmt, deno lint) instead of separate packages".to_owned());
            v.push("✓ Deno permission model for enhanced security".to_owned());
            if import_system == ImportSystemType::ImportMap {
                v.push("✓ Import maps for dependency management".to_owned());
            }
        } else {
            v.push("× Standard Node.js/NestJS project structure".to_owned());
            v.push("× Requires TypeScript compilation step".to_owned());
            v.push("× Uses npm/yarn package management".to_owned());
        }
        assert(string_views(v@) =~= nestjs_comparison(is_danet_project, import_system));
        v
    }
}

impl Default for DanetDetector {
    fn default() -> (r: Self) {
        DanetDetector::new()
    }
}

} // verus!
