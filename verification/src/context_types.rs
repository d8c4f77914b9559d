//! The vocabulary of hierarchical context analysis: segment and file kinds,
//! cross-reference tables, validation results and edge-case reports.
use std::collections::HashMap;
use std::path::PathBuf;
use std::time::{Duration, SystemTime};
use vstd::prelude::*;
use crate::text::{insert_sorted, lemma_push_to_set, lemma_sorted_no_duplicates, string_eq, string_views, strictly_sorted};

verus! {

/// The identifier of a code segment.
pub type SegmentId = String;

#[verifier::external_type_specification]
#[verifier::external_body]
pub struct ExSystemTime(SystemTime);

#[verifier::external_type_specification]
#[verifier::external_body]
pub struct ExPathBuf(PathBuf);

/// `SystemTime::now`: the current time. Nothing is promised about the value,
/// which depends on the clock.
#[verifier::external_body]
fn current_time() -> (r: SystemTime) {
    SystemTime::now()
}

/// `Duration::from_secs`: a duration of `secs` seconds. `Duration` is opaque
/// here, so the contract does not say which duration it is.
#[verifier::external_body]
fn seconds(secs: u64) -> (r: Duration) {
    Duration::from_secs(secs)
}

/// The architectural setting of a segment.
pub struct ArchitecturalContext {
    pub layer: ArchitecturalLayer,
    pub patterns: Vec<String>,
    pub responsibilities: Vec<String>,
    pub interaction_style: InteractionStyle,
}

/// The dependencies of a project, by kind.
pub struct DependencyOverview {
    pub direct_dependencies: HashMap<String, String>,
    pub framework_dependencies: Vec<String>,
    pub development_dependencies: Vec<String>,
    pub dependency_categories: HashMap<String, Vec<String>>,
}

#[derive(Debug, Clone, Copy, PartialEq, Eq, Structural)]
pub enum FileType {
    SourceCode,
    Configuration,
    Documentation,
    Test,
    Build,
    Asset,
}

#[derive(Debug, Clone, Copy, PartialEq, Eq, Structural)]
pub enum FileRole {
    EntryPoint,
    CoreLogic,
    Configuration,
    Documentation,
    Testing,
    Utility,
    Integration,
}

#[derive(Debug, Clone, Copy, PartialEq, Eq, Structural)]
pub enum SegmentType {
    FunctionDefinition,
    ClassDefinition,
    InterfaceDefinition,
    ModuleImport,
    ConfigurationBlock,
    ApiEndpoint,
    DataStructure,
    BusinessLogic,
}

#[derive(Debug, Clone, Copy, PartialEq, Eq, Structural)]
pub enum CrossReferenceType {
    FunctionalDependency,
    DataFlow,
    ArchitecturalRelationship,
    NamingConvention,
    BusinessRule,
}

#[derive(Debug, Clone, Copy, PartialEq, Eq, Structural)]
pub enum ArchitecturalLayer {
    Presentation,
    Business,
    Data,
    Infrastructure,
    Cross,
}

#[derive(Debug, Clone, Copy, PartialEq, Eq, Structural)]
pub enum InteractionStyle {
    Synchronous,
    Asynchronous,
    EventDriven,
    RequestResponse,
    Pipeline,
}


/// The keys of a table's entries, in order.
pub open spec fn entry_keys(es: Seq<(String, Vec<String>)>) -> Seq<Seq<char>> {
    es.map_values(|e: (String, Vec<String>)| e.0@)
}

/// The position of the first key equal to `k`, from `i` on.
pub open spec fn key_position_from(keys: Seq<Seq<char>>, k: Seq<char>, i: int) -> Option<int>
    decreases keys.len() - i,
{
    if i < 0 || i >= keys.len() {
        None
    } else if keys[i] == k {
        Some(i)
    } else {
        key_position_from(keys, k, i + 1)
    }
}

pub proof fn lemma_key_position_from(keys: Seq<Seq<char>>, k: Seq<char>, i: int)
    requires
        0 <= i,
    ensures
        key_position_from(keys, k, i) matches Some(p) ==> i <= p < keys.len() && keys[p] == k
            && forall|j: int| i <= j < p ==> keys[j] != k,
        key_position_from(keys, k, i) is None ==> forall|j: int| i <= j < keys.len() ==> keys[j] != k,
    decreases keys.len() - i,
{
    if i < keys.len() && keys[i] != k {
        lemma_key_position_from(keys, k, i + 1);
    }
}

/// A key that is first found at `p` stays first found at `p` after keys are
/// appended.
pub proof fn lemma_key_position_push(keys: Seq<Seq<char>>, x: Seq<char>, k: Seq<char>, i: int)
    requires
        0 <= i <= keys.len(),
    ensures
        key_position_from(keys.push(x), k, i) == match key_position_from(keys, k, i) {
            Some(p) => Some(p),
            None => if k == x {
                Some(keys.len() as int)
            } else {
                None
            },
        },
    decreases keys.len() - i,
{
    let pushed = keys.push(x);
    if i < keys.len() {
        assert(pushed[i] == keys[i]);
        lemma_key_position_push(keys, x, k, i + 1);
    } else {
        assert(pushed[i] == x);
        assert(key_position_from(pushed, k, i + 1) is None);
    }
}

/// Whether table `after` is table `before` with `target` appended to the
/// list of `source`: in the first entry for `source` when there is one (all
/// other entries unchanged), else in a new entry at the end.
pub open spec fn appended(before: RelationTable, after: RelationTable, source: Seq<char>, target: Seq<char>) -> bool {
    let b = before.entries@;
    let a = after.entries@;
    match key_position_from(entry_keys(b), source, 0) {
        Some(p) => {
            &&& a.len() == b.len()
            &&& forall|i: int| 0 <= i < b.len() && i != p ==> #[trigger] a[i] == b[i]
            &&& a[p].0@ == source
            &&& string_views(a[p].1@) == string_views(b[p].1@).push(target)
        },
        None => {
            &&& a.len() == b.len() + 1
            &&& a.take(b.len() as int) == b
            &&& a.last().0@ == source
            &&& string_views(a.last().1@) == seq![target]
        },
    }
}

/// A relation from segment identifiers to lists of segment identifiers.
pub struct RelationTable {
    pub entries: Vec<(String, Vec<String>)>,
}

impl RelationTable {
    /// The list that `k` maps to, if any (its first entry).
    pub open spec fn lookup(&self, k: Seq<char>) -> Option<Seq<Seq<char>>> {
        match key_position_from(entry_keys(self.entries@), k, 0) {
            Some(p) => Some(string_views(self.entries@[p].1@)),
            None => None,
        }
    }

    /// The list that `k` maps to, empty if it maps to none.
    pub open spec fn targets(&self, k: Seq<char>) -> Seq<Seq<char>> {
        match self.lookup(k) {
            Some(v) => v,
            None => seq![],
        }
    }

    /// Whether no two entries have the same key.
    pub open spec fn keys_distinct(&self) -> bool {
        entry_keys(self.entries@).no_duplicates()
    }

    /// An empty table.
    pub fn new() -> (r: Self)
        ensures
            r.entries@.len() == 0,
            r.keys_distinct(),
            forall|k: Seq<char>| r.lookup(k) is None,
    {
        RelationTable { entries: Vec::new() }
    }

    /// Appends `target` to the list of `source`, creating the list if needed.
    pub fn add(&mut self, source: String, target: String)
        ensures
            appended(*old(self), *final(self), source@, target@),
            old(self).keys_distinct() ==> final(self).keys_distinct(),
            final(self).lookup(source@) == Some(old(self).targets(source@).push(target@)),
            forall|k: Seq<char>| k != source@ ==> final(self).lookup(k) == old(self).lookup(k),
    {
        let ghost old_keys = entry_keys(self.entries@);
        let ghost sv = source@;
        let ghost tv = target@;
        let mut i: usize = 0;
        while i < self.entries.len()
            invariant
                entry_keys(self.entries@) == old_keys,
                self.entries@ == old(self).entries@,
                old_keys == entry_keys(old(self).entries@),
                sv == source@,
                tv == target@,
                i <= self.entries@.len(),
                key_position_from(old_keys, sv, 0) == key_position_from(old_keys, sv, i as int),
            decreases self.entries@.len() - i,
        {
            assert(old_keys[i as int] == self.entries@[i as int].0@);
            if string_eq(&self.entries[i].0, &source) {
                assert(self.entries@[i as int].0@ == sv);
                assert(old_keys[i as int] == sv);
                let ghost before = self.entries@;
                let mut entry = self.entries.remove(i);
                entry.1.push(target);
                self.entries.insert(i, entry);
                proof {
                    assert(entry_keys(self.entries@) =~= old_keys);
                    lemma_key_position_from(old_keys, sv, 0);
                    assert forall|k: Seq<char>| k != sv implies self.lookup(k) == old(self).lookup(
                        k,
                    ) by {
                        lemma_key_position_from(old_keys, k, 0);
                        if let Some(p) = key_position_from(old_keys, k, 0) {
                            assert(old_keys[i as int] == sv);
                            assert(p != i);
                            assert(self.entries@[p] == before[p]);
                        }
                    }
                    assert(string_views(self.entries@[i as int].1@) =~= string_views(
                        before[i as int].1@,
                    ).push(tv));
                }
                return;
            }
            i = i + 1;
        }
        let ghost before = self.entries@;
        let mut list: Vec<String> = Vec::new();
        list.push(target);
        self.entries.push((source, list));
        proof {
            assert(entry_keys(self.entries@) =~= old_keys.push(sv));
            assert forall|k: Seq<char>| #![auto] self.lookup(k) == (if k == sv {
                Some(seq![tv])
            } else {
                old(self).lookup(k)
            }) by {
                lemma_key_position_push(old_keys, sv, k, 0);
                lemma_key_position_from(old_keys, k, 0);
                lemma_key_position_from(old_keys, sv, 0);
                if let Some(p) = key_position_from(old_keys, k, 0) {
                    assert(self.entries@[p] == before[p]);
                }
                assert(self.entries@[before.len() as int] == (source, list));
                assert(string_views(list@) =~= seq![tv]);
            }
            assert(old(self).targets(sv).push(tv) =~= seq![tv]);
            assert(key_position_from(old_keys, sv, 0) is None);
            assert(self.entries@.take(before.len() as int) =~= before);
            assert(self.entries@.last() == (source, list));
            assert(string_views(list@) =~= seq![tv]);
            assert(appended(*old(self), *self, sv, tv));
            if old(self).keys_distinct() {
                lemma_key_position_from(old_keys, sv, 0);
                let ks = entry_keys(self.entries@);
                assert forall|x: int, y: int| 0 <= x < ks.len() && 0 <= y < ks.len() && x != y implies ks[x] != ks[y] by {
                    if y == old_keys.len() {
                        assert(old_keys[x] != sv);
                    } else if x == old_keys.len() {
                        assert(old_keys[y] != sv);
                    } else {
                        assert(ks[x] == old_keys[x] && ks[y] == old_keys[y]);
                    }
                }
            }
        }
    }

    /// The list that `k` maps to, if any.
    pub fn get(&self, k: &String) -> (r: Option<&Vec<String>>)
        ensures
            match r {
                Some(v) => self.lookup(k@) == Some(string_views(v@)),
                None => self.lookup(k@) is None,
            },
    {
        let mut i: usize = 0;
        while i < self.entries.len()
            invariant
                i <= self.entries@.len(),
                key_position_from(entry_keys(self.entries@), k@, 0) == key_position_from(
                    entry_keys(self.entries@),
                    k@,
                    i as int,
                ),
            decreases self.entries@.len() - i,
        {
            if string_eq(&self.entries[i].0, k) {
                return Some(&self.entries[i].1);
            }
            i = i + 1;
        }
        None
    }
}

/// The cross references between segments, by kind.
pub struct CrossReferenceMap {
    pub functional_dependencies: RelationTable,
    pub data_flow: RelationTable,
    pub architectural_relationships: RelationTable,
    pub naming_conventions: RelationTable,
}

/// The segments that `id` is related to in any of the three relations.
pub open spec fn related_set(m: CrossReferenceMap, id: Seq<char>) -> Set<Seq<char>> {
    m.functional_dependencies.targets(id).to_set() + m.data_flow.targets(id).to_set()
        + m.architectural_relationships.targets(id).to_set()
}

/// Inserts each string of `items` into the strictly sorted `out`.
fn insert_all(out: &mut Vec<String>, items: &Vec<String>)
    requires
        strictly_sorted(string_views(old(out)@)),
    ensures
        strictly_sorted(string_views(final(out)@)),
        string_views(final(out)@).to_set() == string_views(old(out)@).to_set() + string_views(
            items@,
        ).to_set(),
{
    let ghost start = string_views(out@).to_set();
    let mut i: usize = 0;
    while i < items.len()
        invariant
            i <= items@.len(),
            strictly_sorted(string_views(out@)),
            string_views(out@).to_set() == start + string_views(items@).take(i as int).to_set(),
        decreases items@.len() - i,
    {
        let ghost before = string_views(out@).to_set();
        insert_sorted(out, items[i].clone());
        assert(string_views(items@).take(i + 1) =~= string_views(items@).take(i as int).push(
            items@[i as int]@,
        ));
        proof {
            lemma_push_to_set(string_views(items@).take(i as int), items@[i as int]@);
        }
        assert(string_views(out@).to_set() =~= start + string_views(items@).take(i + 1).to_set());
        i = i + 1;
    }
    assert(string_views(items@).take(items@.len() as int) =~= string_views(items@));
}

impl CrossReferenceMap {
    /// Whether each of the four tables has distinct keys.
    pub open spec fn well_formed(&self) -> bool {
        &&& self.functional_dependencies.keys_distinct()
        &&& self.data_flow.keys_distinct()
        &&& self.architectural_relationships.keys_distinct()
        &&& self.naming_conventions.keys_distinct()
    }

    /// A map with no cross references.
    pub fn new() -> (r: Self)
        ensures
            r.well_formed(),
            r.functional_dependencies.entries@.len() == 0,
            r.data_flow.entries@.len() == 0,
            r.architectural_relationships.entries@.len() == 0,
            r.naming_conventions.entries@.len() == 0,
            forall|k: Seq<char>| r.functional_dependencies.lookup(k) is None,
            forall|k: Seq<char>| r.data_flow.lookup(k) is None,
            forall|k: Seq<char>| r.architectural_relationships.lookup(k) is None,
            forall|k: Seq<char>| r.naming_conventions.lookup(k) is None,
    {
        CrossReferenceMap {
            functional_dependencies: RelationTable::new(),
            data_flow: RelationTable::new(),
            architectural_relationships: RelationTable::new(),
            naming_conventions: RelationTable::new(),
        }
    }

    /// Records that `source` depends on `target`.
    pub fn add_functional_dependency(&mut self, source: SegmentId, target: SegmentId)
        ensures
            appended(old(self).functional_dependencies, final(self).functional_dependencies, source@, target@),
            old(self).well_formed() ==> final(self).well_formed(),
            final(self).functional_dependencies.lookup(source@) == Some(
                old(self).functional_dependencies.targets(source@).push(target@),
            ),
            forall|k: Seq<char>|
                k != source@ ==> final(self).functional_dependencies.lookup(k) == old(
                    self,
                ).functional_dependencies.lookup(k),
            final(self).data_flow == old(self).data_flow,
            final(self).architectural_relationships == old(self).architectural_relationships,
            final(self).naming_conventions == old(self).naming_conventions,
    {
        self.functional_dependencies.add(source, target);
    }

    /// Records that data flows from `source` to `target`.
    pub fn add_data_flow(&mut self, source: SegmentId, target: SegmentId)
        ensures
            appended(old(self).data_flow, final(self).data_flow, source@, target@),
            old(self).well_formed() ==> final(self).well_formed(),
            final(self).data_flow.lookup(source@) == Some(
                old(self).data_flow.targets(source@).push(target@),
            ),
            forall|k: Seq<char>|
                k != source@ ==> final(self).data_flow.lookup(k) == old(self).data_flow.lookup(k),
            final(self).functional_dependencies == old(self).functional_dependencies,
            final(self).architectural_relationships == old(self).architectural_relationships,
            final(self).naming_conventions == old(self).naming_conventions,
    {
        self.data_flow.add(source, target);
    }

    /// The segments related to `segment_id` by dependency, data flow or
    /// architecture, sorted and without repeats.
    pub fn get_related_segments(&self, segment_id: &SegmentId) -> (r: Vec<SegmentId>)
        ensures
            strictly_sorted(string_views(r@)),
            string_views(r@).no_duplicates(),
            string_views(r@).to_set() == related_set(*self, segment_id@),
    {
        let mut related: Vec<String> = Vec::new();
        let ghost empty = string_views(related@);
        assert(empty.to_set() =~= Set::<Seq<char>>::empty());
        let ghost id = segment_id@;
        match self.functional_dependencies.get(segment_id) {
            Some(deps) => insert_all(&mut related, deps),
            None => {},
        }
        let ghost s1 = string_views(related@).to_set();
        assert(s1 =~= self.functional_dependencies.targets(id).to_set());
        match self.data_flow.get(segment_id) {
            Some(flows) => insert_all(&mut related, flows),
            None => {},
        }
        let ghost s2 = string_views(related@).to_set();
        assert(s2 =~= s1 + self.data_flow.targets(id).to_set());
        match self.architectural_relationships.get(segment_id) {
            Some(arch) => insert_all(&mut related, arch),
            None => {},
        }
        assert(string_views(related@).to_set() =~= related_set(*self, id));
        proof {
            lemma_sorted_no_duplicates(string_views(related@));
        }
        related
    }
}


/// The outcome of validating the cross references of a context.
pub struct ValidationResult {
    pub is_valid: bool,
    pub warnings: Vec<ValidationWarning>,
    pub circular_dependencies: Option<Vec<SegmentId>>,
    pub missing_references: Vec<MissingReference>,
    pub orphaned_contexts: Vec<SegmentId>,
    pub validation_timestamp: SystemTime,
}

impl ValidationResult {
    /// A valid result with nothing found yet, stamped with the current time.
    pub fn new() -> (r: Self)
        ensures
            r.is_valid,
            r.warnings@.len() == 0,
            r.circular_dependencies is None,
            r.missing_references@.len() == 0,
            r.orphaned_contexts@.len() == 0,
    {
        ValidationResult {
            is_valid: true,
            warnings: Vec::new(),
            circular_dependencies: None,
            missing_references: Vec::new(),
            orphaned_contexts: Vec::new(),
            validation_timestamp: current_time(),
        }
    }

    /// Records a warning; a result with a warning is not valid.
    pub fn add_warning(&mut self, warning: ValidationWarning)
        ensures
            !final(self).is_valid,
            final(self).warnings@ == old(self).warnings@.push(warning),
            final(self).validation_timestamp == old(self).validation_timestamp,
            final(self).circular_dependencies == old(self).circular_dependencies,
            final(self).missing_references@ == old(self).missing_references@,
            final(self).orphaned_contexts@ == old(self).orphaned_contexts@,
    {
        self.is_valid = false;
        self.warnings.push(warning);
    }
}

/// A problem found while validating cross references.
pub struct ValidationWarning {
    pub warning_type: ValidationWarningType,
    pub message: String,
    pub affected_segments: Vec<SegmentId>,
    pub severity: ValidationSeverity,
}

#[derive(Debug, Clone, Copy, PartialEq, Eq, Structural)]
pub enum ValidationWarningType {
    CircularDependency,
    MissingReference,
    OrphanedContext,
    WeakCrossReference,
    IncompleteDependencyGraph,
}

#[derive(Debug, Clone, Copy, PartialEq, Eq, Structural)]
pub enum ValidationSeverity {
    Low,
    Medium,
    High,
    Critical,
}

/// A reference to a segment that does not exist.
pub struct MissingReference {
    pub source_segment: SegmentId,
    pub missing_target: String,
    pub reference_type: CrossReferenceType,
    pub context: String,
}

/// The edge cases found in a project and what to do about them.
pub struct EdgeCaseAnalysisResult {
    pub edge_cases_detected: Vec<EdgeCase>,
    pub project_characteristics: ProjectCharacteristics,
    pub handling_recommendations: Vec<HandlingRecommendation>,
    pub performance_impact: PerformanceImpact,
    pub analysis_timestamp: SystemTime,
}

impl EdgeCaseAnalysisResult {
    /// An empty report with default characteristics and impact, stamped
    /// with the current time.
    pub fn new() -> (r: Self)
        ensures
            r.edge_cases_detected@.len() == 0,
            r.handling_recommendations@.len() == 0,
            r.project_characteristics.total_files == 0,
            r.project_characteristics.total_directories == 0,
            r.project_characteristics.languages_detected@.len() == 0,
            r.project_characteristics.max_nesting_depth == 0,
            !r.project_characteristics.has_symbolic_links,
            !r.project_characteristics.has_permission_issues,
            r.performance_impact.memory_usage_estimate == MemoryUsageEstimate::Low,
            r.performance_impact.processing_complexity == ProcessingComplexity::Simple,
            r.performance_impact.parallelization_potential == ParallelizationPotential::Moderate,
    {
        EdgeCaseAnalysisResult {
            edge_cases_detected: Vec::new(),
            project_characteristics: ProjectCharacteristics::default(),
            handling_recommendations: Vec::new(),
            performance_impact: PerformanceImpact::default(),
            analysis_timestamp: current_time(),
        }
    }
}

impl Default for ProjectCharacteristics {
    /// No files, directories or languages, no nesting, no links or
    /// permission issues, and a zero analysis time.
    fn default() -> (r: Self)
        ensures
            r.total_files == 0,
            r.total_directories == 0,
            r.languages_detected@.len() == 0,
            r.max_nesting_depth == 0,
            !r.has_symbolic_links,
            !r.has_permission_issues,
    {
        ProjectCharacteristics {
            total_files: 0,
            total_directories: 0,
            languages_detected: Vec::new(),
            max_nesting_depth: 0,
            has_symbolic_links: false,
            has_permission_issues: false,
            estimated_analysis_time: seconds(0),
        }
    }
}

impl Default for PerformanceImpact {
    /// Low memory, simple processing, moderate parallelism, zero duration.
    fn default() -> (r: Self)
        ensures
            r.memory_usage_estimate == MemoryUsageEstimate::Low,
            r.processing_complexity == ProcessingComplexity::Simple,
            r.parallelization_potential == ParallelizationPotential::Moderate,
    {
        PerformanceImpact {
            expected_analysis_duration: seconds(0),
            memory_usage_estimate: MemoryUsageEstimate::Low,
            processing_complexity: ProcessingComplexity::Simple,
            parallelization_potential: ParallelizationPotential::Moderate,
        }
    }
}

/// A peculiarity of a project that the analysis has to handle.
pub struct EdgeCase {
    pub case_type: EdgeCaseType,
    pub description: String,
    pub affected_components: Vec<String>,
    pub severity: EdgeCaseSeverity,
    pub mitigation_applied: bool,
}

#[derive(Debug, Clone, Copy, PartialEq, Eq, Structural)]
pub enum EdgeCaseType {
    EmptyProject,
    SingleFileProject,
    LargeProject,
    MultiLanguageProject,
    SymbolicLinkProject,
    DeepNesting,
    CircularSymlinks,
    BrokenSymlinks,
    PermissionIssues,
    EncodingIssues,
}

#[derive(Debug, Clone, Copy, PartialEq, Eq, Structural)]
pub enum EdgeCaseSeverity {
    Info,
    Warning,
    Error,
    Critical,
}

/// Size, languages and file-system traits of a project.
pub struct ProjectCharacteristics {
    pub total_files: usize,
    pub total_directories: usize,
    pub languages_detected: Vec<String>,
    pub max_nesting_depth: usize,
    pub has_symbolic_links: bool,
    pub has_permission_issues: bool,
    pub estimated_analysis_time: Duration,
}

/// How to handle one kind of edge case.
pub struct HandlingRecommendation {
    pub edge_case_type: EdgeCaseType,
    pub recommendation: String,
    pub priority: RecommendationPriority,
    pub estimated_effort: String,
}

#[derive(Debug, Clone, Copy, PartialEq, Eq, Structural)]
pub enum RecommendationPriority {
    Low,
    Medium,
    High,
    Critical,
}

/// The expected cost of analysing a project.
pub struct PerformanceImpact {
    pub expected_analysis_duration: Duration,
    pub memory_usage_estimate: MemoryUsageEstimate,
    pub processing_complexity: ProcessingComplexity,
    pub parallelization_potential: ParallelizationPotential,
}

#[derive(Debug, Clone, Copy, PartialEq, Eq, Structural)]
pub enum MemoryUsageEstimate {
    Low,
    Medium,
    High,
    VeryHigh,
}

#[derive(Debug, Clone, Copy, PartialEq, Eq, Structural)]
pub enum ProcessingComplexity {
    Simple,
    Moderate,
    Complex,
    VeryComplex,
}

#[derive(Debug, Clone, Copy, PartialEq, Eq, Structural)]
pub enum ParallelizationPotential {
    Unparallelizable,
    Limited,
    Moderate,
    High,
}

/// How deeply a project's directories nest.
pub struct DeepNestingInfo {
    pub max_depth: usize,
    pub paths_exceeding_threshold: Vec<PathBuf>,
    pub nesting_threshold: usize,
    pub performance_warning: bool,
}

#[derive(Debug, Clone, Copy, PartialEq, Eq, Structural)]
pub enum ImprovementType {
    CrossReferenceEnrichment,
    ConfidenceRecalibration,
    MissingContextFilling,
    PerformanceOptimization,
    ConsistencyNormalization,
}

/// What is added is read back: after a dependency from `source` to
/// `target` is added (as `add_functional_dependency` leaves the map), the
/// segments related to `source` include `target` and all they included
/// before.
pub proof fn law_added_dependency_is_related(before: CrossReferenceMap, after: CrossReferenceMap, source: Seq<char>, target: Seq<char>)
    requires
        after.functional_dependencies.lookup(source) == Some(before.functional_dependencies.targets(source).push(target)),
        after.data_flow == before.data_flow,
        after.architectural_relationships == before.architectural_relationships,
    ensures
        related_set(after, source).contains(target),
        related_set(before, source).subset_of(related_set(after, source)),
{
    let old_list = before.functional_dependencies.targets(source);
    let new_list = after.functional_dependencies.targets(source);
    assert(new_list == old_list.push(target));
    assert(new_list[old_list.len() as int] == target);
    assert(new_list.to_set().contains(target));
    assert forall|x: Seq<char>| old_list.to_set().contains(x) implies new_list.to_set().contains(x) by {
        let k = choose|k: int| 0 <= k < old_list.len() && old_list[k] == x;
        assert(new_list[k] == x);
    }
}

/// What is added as a data flow is read back the same way.
pub proof fn law_added_data_flow_is_related(before: CrossReferenceMap, after: CrossReferenceMap, source: Seq<char>, target: Seq<char>)
    requires
        after.data_flow.lookup(source) == Some(before.data_flow.targets(source).push(target)),
        after.functional_dependencies == before.functional_dependencies,
        after.architectural_relationships == before.architectural_relationships,
    ensures
        related_set(after, source).contains(target),
        related_set(before, source).subset_of(related_set(after, source)),
{
    let old_list = before.data_flow.targets(source);
    let new_list = after.data_flow.targets(source);
    assert(new_list == old_list.push(target));
    assert(new_list[old_list.len() as int] == target);
    assert(new_list.to_set().contains(target));
    assert forall|x: Seq<char>| old_list.to_set().contains(x) implies new_list.to_set().contains(x) by {
        let k = choose|k: int| 0 <= k < old_list.len() && old_list[k] == x;
        assert(new_list[k] == x);
    }
}

} // verus!
