//! The checks that hierarchical context management makes on a project's
//! segments and cross-references: circular dependencies, missing targets,
//! orphaned segments, edge cases of project shape, and segment naming.
use vstd::prelude::*;
use crate::context_types::{
    related_set, CrossReferenceMap, CrossReferenceType, EdgeCase, EdgeCaseAnalysisResult,
    EdgeCaseSeverity, EdgeCaseType, HandlingRecommendation, MissingReference, RecommendationPriority,
    RelationTable, SegmentId, ValidationResult, ValidationSeverity, ValidationWarning,
    ValidationWarningType, appended, entry_keys, key_position_from,
};
use crate::text::{
    chars_of, concat_str, contains, contains_str, decimal, decimal_string, lower_chars, lowercase,
    str_eq, string_eq, string_from_chars, string_views, to_lower, word_ranges, words,
};

verus! {

/// Whether the cross-references relate segment `u` to segment `v`, both
/// among the segments `ids`.
pub open spec fn depends_on(ids: Seq<Seq<char>>, m: CrossReferenceMap, u: Seq<char>, v: Seq<char>) -> bool {
    ids.contains(u) && ids.contains(v) && related_set(m, u).contains(v)
}

/// Whether step `t` of the path `c` goes along a relation between segments
/// of `ids`.
pub open spec fn cycle_step(ids: Seq<Seq<char>>, m: CrossReferenceMap, c: Seq<Seq<char>>, t: int) -> bool {
    depends_on(ids, m, c[t], c[t + 1])
}

/// Whether `c` is a circular dependency among the segments `ids`: a path of
/// at least one step along the cross-references between these segments that
/// ends where it starts.
pub open spec fn is_cycle(ids: Seq<Seq<char>>, m: CrossReferenceMap, c: Seq<Seq<char>>) -> bool {
    &&& c.len() >= 2
    &&& c[0] == c.last()
    &&& forall|t: int| 0 <= t < c.len() - 1 ==> #[trigger] cycle_step(ids, m, c, t)
}

/// Whether the cross-references among the segments `ids` have a circular
/// dependency.
pub open spec fn has_cycle(ids: Seq<Seq<char>>, m: CrossReferenceMap) -> bool {
    exists|c: Seq<Seq<char>>| #[trigger] is_cycle(ids, m, c)
}

/// Whether every segment of `order` depends only on segments before it.
pub open spec fn peeled(ids: Seq<Seq<char>>, m: CrossReferenceMap, order: Seq<Seq<char>>) -> bool {
    forall|i: int, v: Seq<char>|
        0 <= i < order.len() && #[trigger] depends_on(ids, m, order[i], v) ==> order.take(i).contains(v)
}

proof fn lemma_cycle_descends(
    ids: Seq<Seq<char>>,
    m: CrossReferenceMap,
    order: Seq<Seq<char>>,
    c: Seq<Seq<char>>,
    i0: int,
    t: int,
)
    requires
        peeled(ids, m, order),
        is_cycle(ids, m, c),
        0 <= i0 < order.len(),
        order[i0] == c[0],
        1 <= t < c.len(),
    ensures
        exists|j: int| 0 <= j < i0 && order[j] == c[t],
    decreases t,
{
    assert(cycle_step(ids, m, c, t - 1));
    if t == 1 {
        assert(depends_on(ids, m, order[i0], c[1]));
        assert(order.take(i0).contains(c[1]));
        let j = choose|j: int| 0 <= j < order.take(i0).len() && order.take(i0)[j] == c[1];
        assert(order[j] == c[1]);
    } else {
        lemma_cycle_descends(ids, m, order, c, i0, t - 1);
        let j = choose|j: int| 0 <= j < i0 && order[j] == c[t - 1];
        assert(depends_on(ids, m, order[j], c[t]));
        assert(order.take(j).contains(c[t]));
        let k = choose|k: int| 0 <= k < order.take(j).len() && order.take(j)[k] == c[t];
        assert(order[k] == c[t]);
    }
}

proof fn lemma_no_cycle_from(ids: Seq<Seq<char>>, m: CrossReferenceMap, order: Seq<Seq<char>>, c: Seq<Seq<char>>, i0: int)
    requires
        peeled(ids, m, order),
        0 <= i0 < order.len(),
        order[i0] == c[0],
    ensures
        !is_cycle(ids, m, c),
    decreases i0,
{
    if is_cycle(ids, m, c) {
        lemma_cycle_descends(ids, m, order, c, i0, c.len() - 1);
        let j = choose|j: int| 0 <= j < i0 && order[j] == c[c.len() - 1];
        lemma_no_cycle_from(ids, m, order, c, j);
    }
}

/// Segments that can all be put in an order where each depends only on
/// earlier ones have no circular dependency.
pub proof fn lemma_peeled_acyclic(ids: Seq<Seq<char>>, m: CrossReferenceMap, order: Seq<Seq<char>>)
    requires
        peeled(ids, m, order),
        forall|x: Seq<char>| ids.contains(x) ==> order.contains(x),
    ensures
        !has_cycle(ids, m),
{
    if has_cycle(ids, m) {
        let c = choose|c: Seq<Seq<char>>| is_cycle(ids, m, c);
        assert(cycle_step(ids, m, c, 0));
        assert(order.contains(c[0]));
        let i0 = choose|i: int| 0 <= i < order.len() && order[i] == c[0];
        lemma_no_cycle_from(ids, m, order, c, i0);
    }
}

/// How many of `s` hold.
pub open spec fn count_true(s: Seq<bool>) -> nat
    decreases s.len(),
{
    if s.len() == 0 {
        0
    } else {
        count_true(s.drop_last()) + if s.last() {
            1nat
        } else {
            0nat
        }
    }
}

proof fn lemma_count_true_bound(s: Seq<bool>)
    ensures
        count_true(s) <= s.len(),
    decreases s.len(),
{
    if s.len() > 0 {
        lemma_count_true_bound(s.drop_last());
    }
}

proof fn lemma_count_true_set(s: Seq<bool>, i: int)
    requires
        0 <= i < s.len(),
        !s[i],
    ensures
        count_true(s.update(i, true)) == count_true(s) + 1,
    decreases s.len(),
{
    if i == s.len() - 1 {
        assert(s.update(i, true).drop_last() =~= s.drop_last());
    } else {
        assert(s.update(i, true).drop_last() =~= s.drop_last().update(i, true));
        lemma_count_true_set(s.drop_last(), i);
    }
}

/// Step `t` of the walk `path` follows `next`.
pub open spec fn walk_step(next: Seq<usize>, path: Seq<usize>, t: int) -> bool {
    path[t + 1] == next[path[t] as int]
}

/// A circular dependency through the segments `rem`, where segment `q`
/// depends on segment `next[q]`: the walk from the first segment along
/// `next`, up to its first repeat.
fn walk_to_cycle(rem: &Vec<String>, next: &Vec<usize>, Ghost(ids): Ghost<Seq<Seq<char>>>, Ghost(m): Ghost<CrossReferenceMap>) -> (c: Vec<String>)
    requires
        rem@.len() > 0,
        next@.len() == rem@.len(),
        forall|q: int| 0 <= q < rem@.len() ==> (#[trigger] next@[q]) < rem@.len() && depends_on(ids, m, rem@[q]@, rem@[next@[q] as int]@),
    ensures
        is_cycle(ids, m, string_views(c@)),
{
    let n = rem.len();
    let mut on_path: Vec<bool> = Vec::new();
    let mut z: usize = 0;
    while z < n
        invariant
            z <= n,
            on_path@.len() == z,
            forall|x: int| 0 <= x < z ==> !on_path@[x],
        decreases n - z,
    {
        on_path.push(false);
        z = z + 1;
    }
    proof {
        assert(count_true(on_path@) == 0) by {
            lemma_count_true_zero(on_path@);
        }
        lemma_count_true_set(on_path@, 0);
    }
    on_path.set(0, true);
    let mut path: Vec<usize> = Vec::new();
    path.push(0);
    proof {
        assert forall|x: int| 0 <= x < n implies (on_path@[x] <==> path@.contains(x as usize)) by {
            if x == 0 {
                assert(path@[0] == 0);
            } else {
                if path@.contains(x as usize) {
                    let w = choose|w: int| 0 <= w < path@.len() && path@[w] == x as usize;
                    assert(w == 0);
                }
            }
        }
    }
    loop
        invariant
            n == rem@.len(),
            next@.len() == n,
            forall|q: int| 0 <= q < n ==> (#[trigger] next@[q]) < n && depends_on(ids, m, rem@[q]@, rem@[next@[q] as int]@),
            on_path@.len() == n,
            path@.len() >= 1,
            forall|t: int| 0 <= t < path@.len() ==> (#[trigger] path@[t]) < n,
            forall|x: int| 0 <= x < n ==> (on_path@[x] <==> path@.contains(x as usize)),
            count_true(on_path@) == path@.len(),
            forall|t: int| 0 <= t < path@.len() - 1 ==> #[trigger] walk_step(next@, path@, t),
        decreases n - path@.len(),
    {
        let cur = path[path.len() - 1];
        let j = next[cur];
        if on_path[j] {
            assert(path@.contains(j));
            let mut p: usize = 0;
            while p < path.len() && path[p] != j
                invariant
                    p <= path@.len(),
                    forall|t: int| 0 <= t < p ==> path@[t] != j,
                decreases path@.len() - p,
            {
                p = p + 1;
            }
            proof {
                if p == path@.len() {
                    let w = choose|w: int| 0 <= w < path@.len() && path@[w] == j;
                    assert(path@[w] != j);
                }
            }
            let len = path.len();
            let mut c: Vec<String> = Vec::new();
            let mut k: usize = p;
            while k < len
                invariant
                    p <= k <= len,
                    len == path@.len(),
                    forall|t: int| 0 <= t < path@.len() ==> (#[trigger] path@[t]) < n,
                    n == rem@.len(),
                    string_views(c@) == Seq::new((k - p) as nat, |t: int| rem@[path@[p + t] as int]@),
                decreases len - k,
            {
                let ghost before = string_views(c@);
                c.push(rem[path[k]].clone());
                assert(string_views(c@) =~= before.push(rem@[path@[k as int] as int]@));
                assert(string_views(c@) =~= Seq::new((k + 1 - p) as nat, |t: int| rem@[path@[p + t] as int]@));
                k = k + 1;
            }
            let ghost body = string_views(c@);
            c.push(rem[j].clone());
            proof {
                let cv = string_views(c@);
                assert(cv =~= body.push(rem@[j as int]@));
                assert(cv.len() == len - p + 1);
                assert(cv[0] == rem@[path@[p as int] as int]@);
                assert forall|t: int| 0 <= t < cv.len() - 1 implies #[trigger] cycle_step(ids, m, cv, t) by {
                    let a = path@[p + t];
                    assert(cv[t] == rem@[a as int]@);
                    if t < len - p - 1 {
                        assert(walk_step(next@, path@, p + t));
                        assert(cv[t + 1] == rem@[path@[p + t + 1] as int]@);
                    } else {
                        assert(p + t == len - 1);
                        assert(cv[t + 1] == rem@[j as int]@);
                    }
                    assert(next@[a as int] < n);
                }
            }
            return c;
        }
        proof {
            assert(!path@.contains(j));
            lemma_count_true_set(on_path@, j as int);
            lemma_count_true_bound(on_path@.update(j as int, true));
        }
        let ghost old_path = path@;
        path.push(j);
        on_path.set(j, true);
        proof {
            assert forall|t: int| 0 <= t < path@.len() - 1 implies #[trigger] walk_step(next@, path@, t) by {
                if t < old_path.len() - 1 {
                    assert(walk_step(next@, old_path, t));
                }
            }
            assert forall|x: int| 0 <= x < n implies (on_path@[x] <==> path@.contains(x as usize)) by {
                if x == j {
                    assert(path@[path@.len() - 1] == j);
                } else {
                    if path@.contains(x as usize) {
                        let w = choose|w: int| 0 <= w < path@.len() && path@[w] == x as usize;
                        assert(old_path[w] == x as usize);
                    }
                    if old_path.contains(x as usize) {
                        let w = choose|w: int| 0 <= w < old_path.len() && old_path[w] == x as usize;
                        assert(path@[w] == x as usize);
                    }
                }
            }
        }
    }
}

proof fn lemma_count_true_zero(s: Seq<bool>)
    requires
        forall|x: int| 0 <= x < s.len() ==> !s[x],
    ensures
        count_true(s) == 0,
    decreases s.len(),
{
    if s.len() > 0 {
        lemma_count_true_zero(s.drop_last());
    }
}

/// The position of a segment among `rem` that segment `rem[k]` depends on,
/// if there is one.
fn successor_index(refs: &CrossReferenceMap, rem: &Vec<String>, k: usize, Ghost(ids): Ghost<Seq<Seq<char>>>) -> (r: Option<usize>)
    requires
        k < rem@.len(),
        forall|x: int| 0 <= x < rem@.len() ==> ids.contains(#[trigger] rem@[x]@),
    ensures
        r matches Some(q) ==> q < rem@.len() && depends_on(ids, *refs, rem@[k as int]@, rem@[q as int]@),
        r is None ==> forall|v: Seq<char>| #[trigger] depends_on(ids, *refs, rem@[k as int]@, v) ==> !string_views(rem@).contains(v),
{
    let related = refs.get_related_segments(&rem[k]);
    let ghost rs = related_set(*refs, rem@[k as int]@);
    assert(string_views(related@).to_set() == rs);
    let mut q: usize = 0;
    while q < rem.len()
        invariant
            k < rem@.len(),
            forall|x: int| 0 <= x < rem@.len() ==> ids.contains(#[trigger] rem@[x]@),
            rs == related_set(*refs, rem@[k as int]@),
            q <= rem@.len(),
            string_views(related@).to_set() == rs,
            forall|x: int| 0 <= x < q ==> !rs.contains(#[trigger] rem@[x]@),
        decreases rem@.len() - q,
    {
        if holds_string(&related, &rem[q]) {
            assert(rs.contains(rem@[q as int]@));
            assert(ids.contains(rem@[k as int]@));
            assert(ids.contains(rem@[q as int]@));
            return Some(q);
        }
        q = q + 1;
    }
    proof {
        assert forall|v: Seq<char>| #[trigger] depends_on(ids, *refs, rem@[k as int]@, v) implies !string_views(rem@).contains(v) by {
            if string_views(rem@).contains(v) {
                let w = choose|w: int| 0 <= w < string_views(rem@).len() && string_views(rem@)[w] == v;
                assert(rem@[w]@ == v);
            }
        }
    }
    None
}

/// Whether `x` is one of `v`.
fn holds_string(v: &Vec<String>, x: &String) -> (r: bool)
    ensures
        r == string_views(v@).contains(x@),
{
    let mut i: usize = 0;
    while i < v.len()
        invariant
            i <= v@.len(),
            forall|j: int| 0 <= j < i ==> v@[j]@ != x@,
        decreases v@.len() - i,
    {
        if string_eq(&v[i], x) {
            assert(string_views(v@)[i as int] == x@);
            return true;
        }
        i = i + 1;
    }
    proof {
        if string_views(v@).contains(x@) {
            let j = choose|j: int| 0 <= j < string_views(v@).len() && string_views(v@)[j] == x@;
            assert(v@[j]@ == x@);
        }
    }
    false
}

/// The circular dependencies among the segments `segment_ids`: a cycle of
/// segments, each depending on the next through the cross-references, when
/// there is one, else `None`. Segments that depend only on segments already
/// set aside are set aside in turn; when some remain, each of them depends on
/// another that remains, and following those dependencies leads round a
/// cycle.
pub fn detect_circular_dependencies(segment_ids: &Vec<SegmentId>, refs: &CrossReferenceMap) -> (r: Option<Vec<SegmentId>>)
    ensures
        r is Some <==> has_cycle(string_views(segment_ids@), *refs),
        r matches Some(c) ==> is_cycle(string_views(segment_ids@), *refs, string_views(c@)),
{
    let ghost ids = string_views(segment_ids@);
    let mut remaining: Vec<String> = Vec::new();
    let mut i: usize = 0;
    while i < segment_ids.len()
        invariant
            ids == string_views(segment_ids@),
            i <= segment_ids@.len(),
            string_views(remaining@) == ids.take(i as int),
        decreases segment_ids@.len() - i,
    {
        let ghost before = remaining@;
        remaining.push(segment_ids[i].clone());
        assert(string_views(remaining@) =~= string_views(before).push(segment_ids@[i as int]@));
        assert(string_views(remaining@) =~= ids.take(i + 1));
        i = i + 1;
    }
    assert(ids.take(ids.len() as int) =~= ids);
    proof {
        assert forall|x: int| 0 <= x < remaining@.len() implies ids.contains(#[trigger] remaining@[x]@) by {
            assert(string_views(remaining@)[x] == remaining@[x]@);
        }
    }
    let ghost mut order: Seq<Seq<char>> = seq![];
    let mut next: Vec<usize> = Vec::new();
    let mut stuck = false;
    while !stuck && remaining.len() > 0
        invariant
            ids == string_views(segment_ids@),
            forall|x: int| 0 <= x < remaining@.len() ==> ids.contains(#[trigger] remaining@[x]@),
            forall|x: Seq<char>| ids.contains(x) ==> string_views(remaining@).contains(x) || order.contains(x),
            peeled(ids, *refs, order),
            stuck ==> remaining@.len() > 0 && next@.len() == remaining@.len() && forall|q: int|
                0 <= q < remaining@.len() ==> (#[trigger] next@[q]) < remaining@.len() && depends_on(
                    ids,
                    *refs,
                    remaining@[q]@,
                    remaining@[next@[q] as int]@,
                ),
        decreases remaining@.len() + if stuck {
            0int
        } else {
            1int
        },
    {
        let n = remaining.len();
        let mut found: Option<usize> = None;
        let mut nx: Vec<usize> = Vec::new();
        let mut k: usize = 0;
        while k < n && found.is_none()
            invariant
                n == remaining@.len(),
                k <= n,
                forall|x: int| 0 <= x < remaining@.len() ==> ids.contains(#[trigger] remaining@[x]@),
                found matches Some(f) ==> f < n && forall|v: Seq<char>| #[trigger] depends_on(ids, *refs, remaining@[f as int]@, v) ==> !string_views(remaining@).contains(v),
                found is None ==> nx@.len() == k && forall|q: int| 0 <= q < k ==> (#[trigger] nx@[q]) < n && depends_on(
                    ids,
                    *refs,
                    remaining@[q]@,
                    remaining@[nx@[q] as int]@,
                ),
            decreases n - k,
        {
            match successor_index(refs, &remaining, k, Ghost(ids)) {
                Some(q) => {
                    nx.push(q);
                },
                None => {
                    found = Some(k);
                },
            }
            k = k + 1;
        }
        match found {
            Some(f) => {
                let ghost u = remaining@[f as int]@;
                let ghost before = remaining@;
                let ghost old_order = order;
                remaining.remove(f);
                proof {
                    order = order.push(u);
                    assert forall|x: int| 0 <= x < remaining@.len() implies ids.contains(#[trigger] remaining@[x]@) by {
                        if x < f {
                            assert(remaining@[x] == before[x]);
                        } else {
                            assert(remaining@[x] == before[x + 1]);
                        }
                    }
                    assert forall|x: Seq<char>| ids.contains(x) implies string_views(remaining@).contains(x) || order.contains(x) by {
                        if string_views(before).contains(x) && x != u {
                            let w = choose|w: int| 0 <= w < string_views(before).len() && string_views(before)[w] == x;
                            if w < f {
                                assert(remaining@[w] == before[w]);
                                assert(string_views(remaining@)[w] == x);
                            } else {
                                assert(w != f);
                                assert(remaining@[w - 1] == before[w]);
                                assert(string_views(remaining@)[w - 1] == x);
                            }
                        } else if x == u {
                            assert(order[order.len() - 1] == u);
                        } else {
                            assert(old_order.contains(x));
                            let w = choose|w: int| 0 <= w < old_order.len() && old_order[w] == x;
                            assert(order[w] == x);
                        }
                    }
                    assert forall|a: int, v: Seq<char>| 0 <= a < order.len() && #[trigger] depends_on(ids, *refs, order[a], v) implies order.take(a).contains(v) by {
                        if a < old_order.len() {
                            assert(order[a] == old_order[a]);
                            assert(old_order.take(a).contains(v));
                            assert(order.take(a) =~= old_order.take(a));
                        } else {
                            assert(order[a] == u);
                            assert(!string_views(before).contains(v));
                            assert(old_order.contains(v));
                            assert(order.take(a) =~= old_order);
                        }
                    }
                }
            },
            None => {
                next = nx;
                stuck = true;
            },
        }
    }
    if remaining.len() == 0 {
        proof {
            assert forall|x: Seq<char>| ids.contains(x) implies order.contains(x) by {
                assert(!string_views(remaining@).contains(x));
            }
            lemma_peeled_acyclic(ids, *refs, order);
        }
        None
    } else {
        let c = walk_to_cycle(&remaining, &next, Ghost(ids), Ghost(*refs));
        Some(c)
    }
}

/// The missing references of a relation table: one for each (source,
/// target) pair, in table order, whose target is not among the known
/// segments.
pub open spec fn missing_pairs(es: Seq<(String, Vec<String>)>, known: Seq<Seq<char>>) -> Seq<(Seq<char>, Seq<char>, CrossReferenceType, Seq<char>)>
    decreases es.len(),
{
    if es.len() == 0 {
        seq![]
    } else {
        missing_pairs(es.drop_last(), known) + missing_targets(es.last().0@, string_views(es.last().1@), known)
    }
}

/// The missing references from `source` to the targets `ts` not among
/// `known`.
pub open spec fn missing_targets(source: Seq<char>, ts: Seq<Seq<char>>, known: Seq<Seq<char>>) -> Seq<(Seq<char>, Seq<char>, CrossReferenceType, Seq<char>)>
    decreases ts.len(),
{
    if ts.len() == 0 {
        seq![]
    } else {
        missing_targets(source, ts.drop_last(), known) + if known.contains(ts.last()) {
            seq![]
        } else {
            seq![(source, ts.last(), CrossReferenceType::FunctionalDependency, "Functional dependency target not found"@)]
        }
    }
}

/// The mathematical content of a [`MissingReference`].
pub open spec fn missing_view(m: MissingReference) -> (Seq<char>, Seq<char>, CrossReferenceType, Seq<char>) {
    (m.source_segment@, m.missing_target@, m.reference_type, m.context@)
}

proof fn lemma_missing_targets_push(source: Seq<char>, ts: Seq<Seq<char>>, t: Seq<char>, known: Seq<Seq<char>>)
    ensures
        missing_targets(source, ts.push(t), known).len() == missing_targets(source, ts, known).len() + if known.contains(t) {
            0int
        } else {
            1int
        },
{
    assert(ts.push(t).drop_last() =~= ts);
}

proof fn lemma_missing_pairs_update(es: Seq<(String, Vec<String>)>, p: int, e: (String, Vec<String>), known: Seq<Seq<char>>)
    requires
        0 <= p < es.len(),
        e.0@ == es[p].0@,
    ensures
        missing_pairs(es.update(p, e), known).len() == missing_pairs(es, known).len() - missing_targets(
            es[p].0@,
            string_views(es[p].1@),
            known,
        ).len() + missing_targets(e.0@, string_views(e.1@), known).len(),
    decreases es.len(),
{
    if p == es.len() - 1 {
        assert(es.update(p, e).drop_last() =~= es.drop_last());
    } else {
        assert(es.update(p, e).drop_last() =~= es.drop_last().update(p, e));
        assert(es.drop_last()[p] == es[p]);
        lemma_missing_pairs_update(es.drop_last(), p, e, known);
    }
}

/// Adding a dependency adds exactly one missing reference when its target
/// is not among the known segments, and none when it is; added to an empty
/// table, the one missing reference is that dependency.
pub proof fn law_unknown_target_is_missing(
    before: RelationTable,
    after: RelationTable,
    source: Seq<char>,
    target: Seq<char>,
    known: Seq<Seq<char>>,
)
    requires
        appended(before, after, source, target),
    ensures
        missing_pairs(after.entries@, known).len() == missing_pairs(before.entries@, known).len() + if known.contains(target) {
            0int
        } else {
            1int
        },
        before.entries@.len() == 0 ==> missing_pairs(after.entries@, known) == if known.contains(target) {
            seq![]
        } else {
            seq![(source, target, CrossReferenceType::FunctionalDependency, "Functional dependency target not found"@)]
        },
{
    let b = before.entries@;
    let a = after.entries@;
    match key_position_from(entry_keys(b), source, 0) {
        Some(p) => {
            crate::context_types::lemma_key_position_from(entry_keys(b), source, 0);
            assert(a =~= b.update(p, a[p]));
            assert(entry_keys(b)[p] == b[p].0@);
            lemma_missing_pairs_update(b, p, a[p], known);
            lemma_missing_targets_push(source, string_views(b[p].1@), target, known);
            if b.len() == 0 {
                assert(false);
            }
        },
        None => {
            assert(a.drop_last() =~= b);
            lemma_missing_targets_push(source, seq![], target, known);
            assert(seq![target] =~= Seq::<Seq<char>>::empty().push(target));
            assert(missing_targets(source, Seq::<Seq<char>>::empty(), known) =~= Seq::empty());
            if b.len() == 0 {
                assert(missing_pairs(b, known) =~= Seq::empty());
                assert(seq![target].drop_last() =~= Seq::<Seq<char>>::empty());
                assert(seq![target].last() == target);
            }
        },
    }
}

/// The references of the functional dependencies whose target is not
/// among `known_ids`, in table order.
pub fn find_missing_references(refs: &CrossReferenceMap, known_ids: &Vec<SegmentId>) -> (r: Vec<MissingReference>)
    ensures
        r@.map_values(|m: MissingReference| missing_view(m)) == missing_pairs(refs.functional_dependencies.entries@, string_views(known_ids@)),
{
    let table: &RelationTable = &refs.functional_dependencies;
    let ghost es = table.entries@;
    let ghost known = string_views(known_ids@);
    let mut out: Vec<MissingReference> = Vec::new();
    let mut i: usize = 0;
    while i < table.entries.len()
        invariant
            es == table.entries@,
            known == string_views(known_ids@),
            i <= es.len(),
            out@.map_values(|m: MissingReference| missing_view(m)) == missing_pairs(es.take(i as int), known),
        decreases es.len() - i,
    {
        let source = &table.entries[i].0;
        let targets = &table.entries[i].1;
        let ghost before = out@;
        let ghost ts = string_views(targets@);
        let mut j: usize = 0;
        while j < targets.len()
            invariant
                ts == string_views(targets@),
                known == string_views(known_ids@),
                j <= targets@.len(),
                out@.map_values(|m: MissingReference| missing_view(m)) == before.map_values(|m: MissingReference| missing_view(m)) + missing_targets(source@, ts.take(j as int), known),
            decreases targets@.len() - j,
        {
            let t = &targets[j];
            let ghost prev = out@;
            let known_target = holds_string(known_ids, t);
            if !known_target {
                out.push(MissingReference {
                    source_segment: source.clone(),
                    missing_target: t.clone(),
                    reference_type: CrossReferenceType::FunctionalDependency,
                    context: "Functional dependency target not found".to_owned(),
                });
            }
            proof {
                let tt = ts.take(j + 1);
                assert(tt.drop_last() =~= ts.take(j as int));
                assert(tt.last() == t@);
                if !known_target {
                    assert(out@.map_values(|m: MissingReference| missing_view(m)) =~= prev.map_values(|m: MissingReference| missing_view(m)).push(
                        (source@, t@, CrossReferenceType::FunctionalDependency, "Functional dependency target not found"@),
                    ));
                } else {
                    assert(out@ == prev);
                }
                assert(out@.map_values(|m: MissingReference| missing_view(m)) =~= before.map_values(|m: MissingReference| missing_view(m)) + missing_targets(source@, tt, known));
            }
            j = j + 1;
        }
        proof {
            assert(ts.take(targets@.len() as int) =~= ts);
            let t = es.take(i + 1);
            assert(t.drop_last() =~= es.take(i as int));
            assert(t.last() == es[i as int]);
            assert(missing_pairs(t, known) == missing_pairs(es.take(i as int), known) + missing_targets(source@, ts, known));
            assert(out@.map_values(|m: MissingReference| missing_view(m)) =~= missing_pairs(t, known));
        }
        i = i + 1;
    }
    assert(es.take(es.len() as int) =~= es);
    out
}

/// The segments of `ids`, in order, that the cross-references relate to
/// nothing.
pub open spec fn orphans(ids: Seq<Seq<char>>, m: CrossReferenceMap) -> Seq<Seq<char>>
    decreases ids.len(),
{
    if ids.len() == 0 {
        seq![]
    } else {
        orphans(ids.drop_last(), m) + if related_set(m, ids.last()).is_empty() {
            seq![ids.last()]
        } else {
            seq![]
        }
    }
}

/// The segments among `segment_ids` that the cross-references relate to
/// nothing.
pub fn find_orphaned_contexts(segment_ids: &Vec<SegmentId>, refs: &CrossReferenceMap) -> (r: Vec<SegmentId>)
    ensures
        string_views(r@) == orphans(string_views(segment_ids@), *refs),
{
    let ghost ids = string_views(segment_ids@);
    let mut out: Vec<SegmentId> = Vec::new();
    let mut i: usize = 0;
    while i < segment_ids.len()
        invariant
            ids == string_views(segment_ids@),
            i <= ids.len(),
            string_views(out@) == orphans(ids.take(i as int), *refs),
        decreases ids.len() - i,
    {
        let id = &segment_ids[i];
        let related = refs.get_related_segments(id);
        let ghost before = out@;
        let empty = related.len() == 0;
        proof {
            if empty {
                assert(string_views(related@).to_set() =~= Set::<Seq<char>>::empty());
            } else {
                assert(string_views(related@).to_set().contains(string_views(related@)[0]));
            }
        }
        if empty {
            out.push(id.clone());
        }
        proof {
            let t = ids.take(i + 1);
            assert(t.drop_last() =~= ids.take(i as int));
            assert(t.last() == id@);
            assert(string_views(out@) =~= orphans(t, *refs));
        }
        i = i + 1;
    }
    assert(ids.take(ids.len() as int) =~= ids);
    out
}

/// The Rust `Debug` text of a list of strings, as `format!("{:?}", v)`
/// writes it.
pub uninterp spec fn debug_text(v: Seq<Seq<char>>) -> Seq<char>;

/// `format!("{:?}", v)` on a list of strings. Its text is named, not
/// written out: the result is `debug_text` of the strings.
#[verifier::external_body]
fn debug_strings(v: &Vec<String>) -> (r: String)
    ensures
        r@ == debug_text(string_views(v@)),
{
    format!("{:?}", v)
}

/// The mathematical content of a [`ValidationWarning`].
pub open spec fn warning_view(w: ValidationWarning) -> (ValidationWarningType, Seq<char>, Seq<Seq<char>>, ValidationSeverity) {
    (w.warning_type, w.message@, string_views(w.affected_segments@), w.severity)
}

/// The warnings that validation of the segments `ids` with these
/// cross-references gives, in order: circular dependencies, missing
/// references, orphaned segments.
/// The circular dependency found, if any, is `cyc`.
pub open spec fn validation_warnings(ids: Seq<Seq<char>>, m: CrossReferenceMap, cyc: Option<Seq<Seq<char>>>) -> Seq<(ValidationWarningType, Seq<char>, Seq<Seq<char>>, ValidationSeverity)> {
    let cycle = match cyc {
        Some(c) => seq![(
            ValidationWarningType::CircularDependency,
            "Circular dependencies detected: "@ + debug_text(c),
            c,
            ValidationSeverity::High,
        )],
        None => seq![],
    };
    let missing = missing_pairs(m.functional_dependencies.entries@, ids);
    let miss = if missing.len() > 0 {
        seq![(
            ValidationWarningType::MissingReference,
            "Missing references found: "@ + decimal(missing.len()),
            missing.map_values(|p: (Seq<char>, Seq<char>, CrossReferenceType, Seq<char>)| p.0),
            ValidationSeverity::Medium,
        )]
    } else {
        seq![]
    };
    let orphaned = orphans(ids, m);
    let orph = if orphaned.len() > 0 {
        seq![(
            ValidationWarningType::OrphanedContext,
            "Orphaned contexts found: "@ + decimal(orphaned.len()),
            orphaned,
            ValidationSeverity::Low,
        )]
    } else {
        seq![]
    };
    cycle + miss + orph
}

/// The segments of an optional cycle.
pub open spec fn cycle_view(o: Option<Vec<SegmentId>>) -> Option<Seq<Seq<char>>> {
    match o {
        Some(c) => Some(string_views(c@)),
        None => None,
    }
}

/// Owned copies of the strings of `v`.
fn copy_strings(v: &Vec<String>) -> (r: Vec<String>)
    ensures
        string_views(r@) == string_views(v@),
{
    let mut r: Vec<String> = Vec::new();
    let mut k: usize = 0;
    while k < v.len()
        invariant
            k <= v@.len(),
            string_views(r@) == string_views(v@).take(k as int),
        decreases v@.len() - k,
    {
        let ghost b = r@;
        r.push(v[k].clone());
        assert(string_views(r@) =~= string_views(b).push(v@[k as int]@));
        assert(string_views(v@).take(k + 1) =~= string_views(v@).take(k as int).push(v@[k as int]@));
        k = k + 1;
    }
    assert(string_views(v@).take(v@.len() as int) =~= string_views(v@));
    r
}

/// Validates the cross-references among the segments `segment_ids`: the
/// result records a circular dependency (exactly when there is one), the
/// missing references and the orphaned segments, with a warning for each
/// kind found, and is valid exactly when there is none.
pub fn validate_cross_references(segment_ids: &Vec<SegmentId>, refs: &CrossReferenceMap) -> (r: ValidationResult)
    ensures
        r.warnings@.map_values(|w: ValidationWarning| warning_view(w)) == validation_warnings(
            string_views(segment_ids@),
            *refs,
            cycle_view(r.circular_dependencies),
        ),
        r.is_valid == (validation_warnings(string_views(segment_ids@), *refs, cycle_view(r.circular_dependencies)).len() == 0),
        r.circular_dependencies is Some <==> has_cycle(string_views(segment_ids@), *refs),
        r.circular_dependencies matches Some(c) ==> is_cycle(string_views(segment_ids@), *refs, string_views(c@)),
        r.missing_references@.map_values(|m: MissingReference| missing_view(m)) == missing_pairs(refs.functional_dependencies.entries@, string_views(segment_ids@)),
        string_views(r.orphaned_contexts@) == orphans(string_views(segment_ids@), *refs),
{
    let ghost ids = string_views(segment_ids@);
    let mut result = ValidationResult::new();
    let ghost w0 = result.warnings@;
    assert(w0.map_values(|w: ValidationWarning| warning_view(w)) =~= Seq::<(ValidationWarningType, Seq<char>, Seq<Seq<char>>, ValidationSeverity)>::empty());
    let cycles = detect_circular_dependencies(segment_ids, refs);
    if let Some(cycle) = cycles {
        let text = debug_strings(&cycle);
        proof {
            reveal_strlit("Circular dependencies detected: ");
        }
        let message = concat_str("Circular dependencies detected: ", text.as_str());
        let affected = copy_strings(&cycle);
        result.circular_dependencies = Some(cycle);
        result.add_warning(ValidationWarning {
            warning_type: ValidationWarningType::CircularDependency,
            message,
            affected_segments: affected,
            severity: ValidationSeverity::High,
        });
    }
    let ghost w1 = result.warnings@.map_values(|w: ValidationWarning| warning_view(w));
    let missing = find_missing_references(refs, segment_ids);
    let ghost mp = missing_pairs(refs.functional_dependencies.entries@, ids);
    assert(missing@.len() == mp.len()) by {
        assert(missing@.map_values(|m: MissingReference| missing_view(m)).len() == missing@.len());
    }
    if missing.len() > 0 {
        let n = decimal_string(missing.len() as u64);
        let message = concat_str("Missing references found: ", n.as_str());
        let mut affected: Vec<SegmentId> = Vec::new();
        let mut k: usize = 0;
        while k < missing.len()
            invariant
                k <= missing@.len(),
                missing@.map_values(|m: MissingReference| missing_view(m)) == mp,
                string_views(affected@) == mp.map_values(|p: (Seq<char>, Seq<char>, CrossReferenceType, Seq<char>)| p.0).take(k as int),
            decreases missing@.len() - k,
        {
            let ghost b = affected@;
            assert(missing@.map_values(|m: MissingReference| missing_view(m))[k as int] == missing_view(missing@[k as int]));
            assert(missing_view(missing@[k as int]).0 == mp[k as int].0);
            affected.push(missing[k].source_segment.clone());
            assert(string_views(affected@) =~= string_views(b).push(missing@[k as int].source_segment@));
            assert(mp.map_values(|p: (Seq<char>, Seq<char>, CrossReferenceType, Seq<char>)| p.0).take(k + 1) =~= mp.map_values(|p: (Seq<char>, Seq<char>, CrossReferenceType, Seq<char>)| p.0).take(k as int).push(mp[k as int].0));
            k = k + 1;
        }
        assert(mp.map_values(|p: (Seq<char>, Seq<char>, CrossReferenceType, Seq<char>)| p.0).take(missing@.len() as int) =~= mp.map_values(|p: (Seq<char>, Seq<char>, CrossReferenceType, Seq<char>)| p.0));
        result.missing_references = missing;
        result.add_warning(ValidationWarning {
            warning_type: ValidationWarningType::MissingReference,
            message,
            affected_segments: affected,
            severity: ValidationSeverity::Medium,
        });
    } else {
        result.missing_references = missing;
    }
    let orphaned = find_orphaned_contexts(segment_ids, refs);
    if orphaned.len() > 0 {
        let n = decimal_string(orphaned.len() as u64);
        let message = concat_str("Orphaned contexts found: ", n.as_str());
        let mut affected: Vec<SegmentId> = Vec::new();
        let mut k: usize = 0;
        while k < orphaned.len()
            invariant
                k <= orphaned@.len(),
                string_views(affected@) == string_views(orphaned@).take(k as int),
            decreases orphaned@.len() - k,
        {
            let ghost b = affected@;
            affected.push(orphaned[k].clone());
            assert(string_views(affected@) =~= string_views(b).push(orphaned@[k as int]@));
            assert(string_views(orphaned@).take(k + 1) =~= string_views(orphaned@).take(k as int).push(orphaned@[k as int]@));
            k = k + 1;
        }
        assert(string_views(orphaned@).take(orphaned@.len() as int) =~= string_views(orphaned@));
        result.orphaned_contexts = orphaned;
        result.add_warning(ValidationWarning {
            warning_type: ValidationWarningType::OrphanedContext,
            message,
            affected_segments: affected,
            severity: ValidationSeverity::Low,
        });
    } else {
        result.orphaned_contexts = orphaned;
    }
    proof {
        reveal_strlit("Missing references found: ");
        reveal_strlit("Orphaned contexts found: ");
        assert(result.warnings@.map_values(|w: ValidationWarning| warning_view(w)) =~= validation_warnings(
            ids,
            *refs,
            cycle_view(result.circular_dependencies),
        ));
    }
    result
}

/// The mathematical content of an [`EdgeCase`].
pub open spec fn edge_case_view(e: EdgeCase) -> (EdgeCaseType, Seq<char>, Seq<Seq<char>>, EdgeCaseSeverity, bool) {
    (e.case_type, e.description@, string_views(e.affected_components@), e.severity, e.mitigation_applied)
}

/// The mathematical content of a [`HandlingRecommendation`].
pub open spec fn recommendation_view(h: HandlingRecommendation) -> (EdgeCaseType, Seq<char>, RecommendationPriority, Seq<char>) {
    (h.edge_case_type, h.recommendation@, h.priority, h.estimated_effort@)
}

/// The edge cases of a project with this many source files (at its top
/// level) and files: empty, a single source file, more than ten thousand
/// files.
pub open spec fn edge_cases_of(source_files: nat, files: nat) -> Seq<(EdgeCaseType, Seq<char>, Seq<Seq<char>>, EdgeCaseSeverity, bool)> {
    (if source_files == 0 {
        seq![(EdgeCaseType::EmptyProject, "Project contains no source files"@, seq!["entire_project"@], EdgeCaseSeverity::Warning, true)]
    } else {
        seq![]
    }) + (if source_files == 1 {
        seq![(EdgeCaseType::SingleFileProject, "Project contains only one source file"@, seq!["single_file"@], EdgeCaseSeverity::Info, true)]
    } else {
        seq![]
    }) + (if files > 10000 {
        seq![(
            EdgeCaseType::LargeProject,
            "Large project with "@ + decimal(files) + " files detected"@,
            seq!["entire_project"@],
            EdgeCaseSeverity::Warning,
            true,
        )]
    } else {
        seq![]
    })
}

/// The handling recommendations for those edge cases.
pub open spec fn edge_recommendations_of(source_files: nat, files: nat) -> Seq<(EdgeCaseType, Seq<char>, RecommendationPriority, Seq<char>)> {
    (if source_files == 0 {
        seq![(EdgeCaseType::EmptyProject, "Analysis will be limited to project structure only"@, RecommendationPriority::Medium, "Low"@)]
    } else {
        seq![]
    }) + (if source_files == 1 {
        seq![(EdgeCaseType::SingleFileProject, "Cross-reference analysis will be simplified"@, RecommendationPriority::Low, "Low"@)]
    } else {
        seq![]
    }) + (if files > 10000 {
        seq![(EdgeCaseType::LargeProject, "Batch processing and memory optimization will be applied"@, RecommendationPriority::High, "High"@)]
    } else {
        seq![]
    })
}

fn one_string(s: &str) -> (r: Vec<String>)
    ensures
        string_views(r@) == seq![s@],
{
    let mut v: Vec<String> = Vec::new();
    v.push(s.to_owned());
    assert(string_views(v@) =~= seq![s@]);
    v
}

/// The edge-case analysis of a project with `source_files` source files and
/// `project_files` files at its top level, in which `languages` were found.
pub fn handle_edge_cases(source_files: usize, project_files: usize, languages: Vec<String>) -> (r: EdgeCaseAnalysisResult)
    ensures
        r.edge_cases_detected@.map_values(|e: EdgeCase| edge_case_view(e)) == edge_cases_of(source_files as nat, project_files as nat),
        r.handling_recommendations@.map_values(|h: HandlingRecommendation| recommendation_view(h)) == edge_recommendations_of(source_files as nat, project_files as nat),
        r.project_characteristics.total_files == project_files,
        r.project_characteristics.languages_detected@ == languages@,
{
    let mut result = EdgeCaseAnalysisResult::new();
    if source_files == 0 {
        result.edge_cases_detected.push(EdgeCase {
            case_type: EdgeCaseType::EmptyProject,
            description: "Project contains no source files".to_owned(),
            affected_components: one_string("entire_project"),
            severity: EdgeCaseSeverity::Warning,
            mitigation_applied: true,
        });
        result.handling_recommendations.push(HandlingRecommendation {
            edge_case_type: EdgeCaseType::EmptyProject,
            recommendation: "Analysis will be limited to project structure only".to_owned(),
            priority: RecommendationPriority::Medium,
            estimated_effort: "Low".to_owned(),
        });
    }
    if source_files == 1 {
        result.edge_cases_detected.push(EdgeCase {
            case_type: EdgeCaseType::SingleFileProject,
            description: "Project contains only one source file".to_owned(),
            affected_components: one_string("single_file"),
            severity: EdgeCaseSeverity::Info,
            mitigation_applied: true,
        });
        result.handling_recommendations.push(HandlingRecommendation {
            edge_case_type: EdgeCaseType::SingleFileProject,
            recommendation: "Cross-reference analysis will be simplified".to_owned(),
            priority: RecommendationPriority::Low,
            estimated_effort: "Low".to_owned(),
        });
    }
    if project_files > 10000 {
        let n = decimal_string(project_files as u64);
        let head = concat_str("Large project with ", n.as_str());
        let description = concat_str(head.as_str(), " files detected");
        result.edge_cases_detected.push(EdgeCase {
            case_type: EdgeCaseType::LargeProject,
            description,
            affected_components: one_string("entire_project"),
            severity: EdgeCaseSeverity::Warning,
            mitigation_applied: true,
        });
        result.handling_recommendations.push(HandlingRecommendation {
            edge_case_type: EdgeCaseType::LargeProject,
            recommendation: "Batch processing and memory optimization will be applied".to_owned(),
            priority: RecommendationPriority::High,
            estimated_effort: "High".to_owned(),
        });
    }
    result.project_characteristics.total_files = project_files;
    result.project_characteristics.languages_detected = languages;
    assert(result.edge_cases_detected@.map_values(|e: EdgeCase| edge_case_view(e)) =~= edge_cases_of(source_files as nat, project_files as nat));
    assert(result.handling_recommendations@.map_values(|h: HandlingRecommendation| recommendation_view(h)) =~= edge_recommendations_of(source_files as nat, project_files as nat));
    result
}

/// Whether a lowercase extension names a source file.
pub open spec fn is_source_ext(e: Seq<char>) -> bool {
    e == "ts"@ || e == "js"@ || e == "tsx"@ || e == "jsx"@ || e == "py"@ || e == "java"@ || e == "rs"@ || e == "go"@
}

/// Whether a file with this extension (in any case) is a source file.
pub fn is_source_extension(extension: &str) -> (r: bool)
    ensures
        r == is_source_ext(lowercase(extension@)),
{
    let low = to_lower(extension);
    let e = low.as_str();
    str_eq(e, "ts") || str_eq(e, "js") || str_eq(e, "tsx") || str_eq(e, "jsx") || str_eq(e, "py")
        || str_eq(e, "java") || str_eq(e, "rs") || str_eq(e, "go")
}

/// The language of a lowercase extension, if it names one.
pub open spec fn language_of(e: Seq<char>) -> Option<Seq<char>> {
    if e == "ts"@ || e == "tsx"@ {
        Some("TypeScript"@)
    } else if e == "js"@ || e == "jsx"@ {
        Some("JavaScript"@)
    } else if e == "py"@ {
        Some("Python"@)
    } else if e == "java"@ {
        Some("Java"@)
    } else if e == "rs"@ {
        Some("Rust"@)
    } else if e == "go"@ {
        Some("Go"@)
    } else {
        None
    }
}

/// Adds to `languages` the language of a file with this extension (in any
/// case), unless it is already there.
pub fn note_language(languages: &mut Vec<String>, extension: &str)
    ensures
        match language_of(lowercase(extension@)) {
            Some(l) => string_views(final(languages)@) == if string_views(old(languages)@).contains(l) {
                string_views(old(languages)@)
            } else {
                string_views(old(languages)@).push(l)
            },
            None => final(languages)@ == old(languages)@,
        },
{
    let low = to_lower(extension);
    let e = low.as_str();
    let name = if str_eq(e, "ts") || str_eq(e, "tsx") {
        "TypeScript"
    } else if str_eq(e, "js") || str_eq(e, "jsx") {
        "JavaScript"
    } else if str_eq(e, "py") {
        "Python"
    } else if str_eq(e, "java") {
        "Java"
    } else if str_eq(e, "rs") {
        "Rust"
    } else if str_eq(e, "go") {
        "Go"
    } else {
        return;
    };
    let owned = name.to_owned();
    if !holds_string(languages, &owned) {
        let ghost before = languages@;
        languages.push(owned);
        assert(string_views(languages@) =~= string_views(before).push(name@));
    }
}

/// The name of a segment: the first word of its text, or `unknown`.
pub open spec fn segment_name(content: Seq<char>) -> Seq<char> {
    if words(content).len() > 0 {
        words(content)[0]
    } else {
        "unknown"@
    }
}

/// The name of a segment with text `content`.
pub fn extract_segment_name(content: &str) -> (r: String)
    ensures
        r@ == segment_name(content@),
{
    let cs = chars_of(content);
    let ranges = word_ranges(&cs);
    if ranges.len() > 0 {
        let (a, b) = ranges[0];
        string_from_chars(&cs, a, b)
    } else {
        "unknown".to_owned()
    }
}

/// The business purpose of a segment, by its lowercase text.
pub open spec fn business_purpose(low: Seq<char>) -> Option<Seq<char>> {
    if contains(low, "user"@) || contains(low, "auth"@) {
        Some("User management and authentication"@)
    } else if contains(low, "api"@) || contains(low, "endpoint"@) {
        Some("API service endpoint"@)
    } else if contains(low, "database"@) || contains(low, "model"@) {
        Some("Data persistence and modeling"@)
    } else if contains(low, "test"@) {
        Some("Testing and quality assurance"@)
    } else {
        None
    }
}

/// The business purpose of a segment with text `content`.
pub fn infer_business_purpose(content: &str) -> (r: Option<String>)
    ensures
        crate::text::opt_string_view(r) == business_purpose(lowercase(content@)),
{
    let low = lower_chars(content);
    if contains_str(&low, "user") || contains_str(&low, "auth") {
        Some("User management and authentication".to_owned())
    } else if contains_str(&low, "api") || contains_str(&low, "endpoint") {
        Some("API service endpoint".to_owned())
    } else if contains_str(&low, "database") || contains_str(&low, "model") {
        Some("Data persistence and modeling".to_owned())
    } else if contains_str(&low, "test") {
        Some("Testing and quality assurance".to_owned())
    } else {
        None
    }
}

/// Whether two segments should be cross-referenced: the text of one
/// mentions the file stem of the other (both lowercased).
pub fn should_create_cross_reference(content1: &str, stem1: &str, content2: &str, stem2: &str) -> (r: bool)
    ensures
        r == (contains(lowercase(content1@), lowercase(stem2@)) || contains(
            lowercase(content2@),
            lowercase(stem1@),
        )),
{
    let c1 = lower_chars(content1);
    let c2 = lower_chars(content2);
    let s1 = to_lower(stem1);
    let s2 = to_lower(stem2);
    contains_str(&c1, s2.as_str()) || contains_str(&c2, s1.as_str())
}

/// An orphaned segment is one of the segments asked about, and the
/// cross-references relate it to nothing.
pub proof fn law_orphans_are_unrelated(ids: Seq<Seq<char>>, m: CrossReferenceMap)
    ensures
        forall|i: int| 0 <= i < orphans(ids, m).len() ==> ids.contains(#[trigger] orphans(ids, m)[i]) && related_set(m, orphans(ids, m)[i]).is_empty(),
    decreases ids.len(),
{
    if ids.len() > 0 {
        let prev = ids.drop_last();
        law_orphans_are_unrelated(prev, m);
        let o = orphans(ids, m);
        let po = orphans(prev, m);
        assert forall|i: int| 0 <= i < o.len() implies ids.contains(#[trigger] o[i]) && related_set(m, o[i]).is_empty() by {
            if i < po.len() {
                assert(o[i] == po[i]);
                let k = choose|k: int| 0 <= k < prev.len() && prev[k] == po[i];
                assert(ids[k] == prev[k]);
            } else {
                assert(o[i] == ids.last());
                assert(ids[ids.len() - 1] == ids.last());
            }
        }
    }
}

/// A missing reference points at a target that is not among the known
/// segments, from a source of the table.
pub proof fn law_missing_targets_unknown(es: Seq<(String, Vec<String>)>, known: Seq<Seq<char>>)
    ensures
        forall|i: int| 0 <= i < missing_pairs(es, known).len() ==> !known.contains(#[trigger] missing_pairs(es, known)[i].1),
    decreases es.len(),
{
    if es.len() > 0 {
        law_missing_targets_unknown(es.drop_last(), known);
        lemma_missing_targets_unknown(es.last().0@, string_views(es.last().1@), known);
        let a = missing_pairs(es.drop_last(), known);
        let b = missing_targets(es.last().0@, string_views(es.last().1@), known);
        assert forall|i: int| 0 <= i < missing_pairs(es, known).len() implies !known.contains(#[trigger] missing_pairs(es, known)[i].1) by {
            if i < a.len() {
                assert(missing_pairs(es, known)[i] == a[i]);
            } else {
                assert(missing_pairs(es, known)[i] == b[i - a.len()]);
            }
        }
    }
}

proof fn lemma_missing_targets_unknown(source: Seq<char>, ts: Seq<Seq<char>>, known: Seq<Seq<char>>)
    ensures
        forall|i: int| 0 <= i < missing_targets(source, ts, known).len() ==> !known.contains(#[trigger] missing_targets(source, ts, known)[i].1),
    decreases ts.len(),
{
    if ts.len() > 0 {
        lemma_missing_targets_unknown(source, ts.drop_last(), known);
        let a = missing_targets(source, ts.drop_last(), known);
        assert forall|i: int| 0 <= i < missing_targets(source, ts, known).len() implies !known.contains(#[trigger] missing_targets(source, ts, known)[i].1) by {
            if i < a.len() {
                assert(missing_targets(source, ts, known)[i] == a[i]);
            }
        }
    }
}

/// A result of cross-reference validation is valid exactly when it holds
/// no circular dependency, no missing reference and no orphaned segment.
pub proof fn law_valid_means_clean(ids: Seq<Seq<char>>, m: CrossReferenceMap, cyc: Option<Seq<Seq<char>>>)
    ensures
        (validation_warnings(ids, m, cyc).len() == 0) == (cyc is None && missing_pairs(m.functional_dependencies.entries@, ids).len() == 0 && orphans(ids, m).len() == 0),
{
}

/// What cross-reference enrichment reads of a segment: its identifier, its
/// text, and the stem of its file's name.
pub type SegmentFacts = (String, String, String);

/// The views of segment facts.
pub open spec fn facts_view(s: Seq<SegmentFacts>) -> Seq<(Seq<char>, Seq<char>, Seq<char>)> {
    s.map_values(|f: SegmentFacts| (f.0@, f.1@, f.2@))
}

/// Whether enrichment references segment `b` from segment `a`: they differ,
/// and the text of one mentions the file stem of the other (both lowercased).
pub open spec fn links(a: (Seq<char>, Seq<char>, Seq<char>), b: (Seq<char>, Seq<char>, Seq<char>)) -> bool {
    a.0 != b.0 && (contains(lowercase(a.1), lowercase(b.2)) || contains(lowercase(b.1), lowercase(a.2)))
}

/// The identifiers of the segments of `segs` that `a` gets references to,
/// in order.
pub open spec fn linked_ids(a: (Seq<char>, Seq<char>, Seq<char>), segs: Seq<(Seq<char>, Seq<char>, Seq<char>)>) -> Seq<Seq<char>>
    decreases segs.len(),
{
    if segs.len() == 0 {
        seq![]
    } else {
        linked_ids(a, segs.drop_last()) + if links(a, segs.last()) {
            seq![segs.last().0]
        } else {
            seq![]
        }
    }
}

/// The number of references enrichment adds from the segments `srcs` to the
/// segments `segs`.
pub open spec fn links_total(srcs: Seq<(Seq<char>, Seq<char>, Seq<char>)>, segs: Seq<(Seq<char>, Seq<char>, Seq<char>)>) -> nat
    decreases srcs.len(),
{
    if srcs.len() == 0 {
        0
    } else {
        links_total(srcs.drop_last(), segs) + linked_ids(srcs.last(), segs).len()
    }
}

/// The list of a table entry `t` after the targets `xs` are appended to it
/// (no entry is made when there are none).
pub open spec fn with_targets(t: Option<Seq<Seq<char>>>, xs: Seq<Seq<char>>) -> Option<Seq<Seq<char>>> {
    if xs.len() == 0 {
        t
    } else {
        match t {
            Some(v) => Some(v + xs),
            None => Some(xs),
        }
    }
}

proof fn lemma_linked_ids_len(a: (Seq<char>, Seq<char>, Seq<char>), segs: Seq<(Seq<char>, Seq<char>, Seq<char>)>)
    ensures
        linked_ids(a, segs).len() <= segs.len(),
    decreases segs.len(),
{
    if segs.len() > 0 {
        lemma_linked_ids_len(a, segs.drop_last());
    }
}

/// Adds the implicit dependencies between segments: from each segment of
/// `segments` to each other one that it should reference (see `links`), in
/// the order of `segments`. The result is the number of references added.
pub fn enrich_cross_references(refs: &mut CrossReferenceMap, segments: &Vec<SegmentFacts>) -> (added: usize)
    requires
        forall|i: int, j: int| 0 <= i < j < segments@.len() ==> (#[trigger] segments@[i]).0@ != (#[trigger] segments@[j]).0@,
        segments@.len() * segments@.len() <= usize::MAX,
    ensures
        forall|i: int| 0 <= i < segments@.len() ==> #[trigger] final(refs).functional_dependencies.lookup(segments@[i].0@) == with_targets(
            old(refs).functional_dependencies.lookup(segments@[i].0@),
            linked_ids(facts_view(segments@)[i], facts_view(segments@)),
        ),
        forall|k: Seq<char>| (forall|i: int| 0 <= i < segments@.len() ==> (#[trigger] segments@[i]).0@ != k)
            ==> #[trigger] final(refs).functional_dependencies.lookup(k) == old(refs).functional_dependencies.lookup(k),
        final(refs).data_flow == old(refs).data_flow,
        final(refs).architectural_relationships == old(refs).architectural_relationships,
        final(refs).naming_conventions == old(refs).naming_conventions,
        old(refs).well_formed() ==> final(refs).well_formed(),
        added == links_total(facts_view(segments@), facts_view(segments@)),
{
    let ghost fs = facts_view(segments@);
    let ghost start = old(refs).functional_dependencies;
    let n = segments.len();
    let mut added: usize = 0;
    let mut i: usize = 0;
    while i < n
        invariant
            n == segments@.len(),
            fs == facts_view(segments@),
            forall|a: int, b: int| 0 <= a < b < segments@.len() ==> (#[trigger] segments@[a]).0@ != (#[trigger] segments@[b]).0@,
            n * n <= usize::MAX,
            i <= n,
            forall|p: int| 0 <= p < i ==> #[trigger] refs.functional_dependencies.lookup(segments@[p].0@) == with_targets(
                start.lookup(segments@[p].0@),
                linked_ids(fs[p], fs),
            ),
            forall|p: int| i <= p < n ==> #[trigger] refs.functional_dependencies.lookup(segments@[p].0@) == start.lookup(
                segments@[p].0@,
            ),
            forall|k: Seq<char>| (forall|p: int| 0 <= p < segments@.len() ==> (#[trigger] segments@[p]).0@ != k)
                ==> #[trigger] refs.functional_dependencies.lookup(k) == start.lookup(k),
            refs.data_flow == old(refs).data_flow,
            refs.architectural_relationships == old(refs).architectural_relationships,
            refs.naming_conventions == old(refs).naming_conventions,
            added == links_total(fs.take(i as int), fs),
            added <= i * n,
            old(refs).well_formed() ==> refs.well_formed(),
        decreases n - i,
    {
        let ghost a = fs[i as int];
        let ghost aid = segments@[i as int].0@;
        let ghost t0 = refs.functional_dependencies.lookup(aid);
        assert(t0 == start.lookup(aid));
        let ghost outer = refs.functional_dependencies;
        let ghost added0 = added;
        let mut j: usize = 0;
        while j < n
            invariant
                n == segments@.len(),
                fs == facts_view(segments@),
                forall|x: int, y: int| 0 <= x < y < segments@.len() ==> (#[trigger] segments@[x]).0@ != (#[trigger] segments@[y]).0@,
                n * n <= usize::MAX,
                i < n,
                j <= n,
                a == fs[i as int],
                aid == segments@[i as int].0@,
                aid == a.0,
                refs.functional_dependencies.lookup(aid) == with_targets(t0, linked_ids(a, fs.take(j as int))),
                forall|k: Seq<char>| k != aid ==> #[trigger] refs.functional_dependencies.lookup(k) == outer.lookup(k),
                refs.data_flow == old(refs).data_flow,
                refs.architectural_relationships == old(refs).architectural_relationships,
                refs.naming_conventions == old(refs).naming_conventions,
                added == added0 + linked_ids(a, fs.take(j as int)).len(),
                added0 <= i * n,
                old(refs).well_formed() ==> refs.well_formed(),
            decreases n - j,
        {
            assert(fs.take(j + 1).drop_last() =~= fs.take(j as int));
            assert(fs.take(j + 1).last() == fs[j as int]);
            proof {
                lemma_linked_ids_len(a, fs.take(j as int));
                assert(added0 + j <= i * n + n) by (nonlinear_arith)
                    requires
                        added0 <= i * n,
                        j <= n,
                ;
                assert(i * n + n <= n * n) by (nonlinear_arith)
                    requires
                        i < n,
                ;
            }
            let seg_a = &segments[i];
            let seg_b = &segments[j];
            let differ = !string_eq(&seg_a.0, &seg_b.0);
            if differ && should_create_cross_reference(seg_a.1.as_str(), seg_a.2.as_str(), seg_b.1.as_str(), seg_b.2.as_str()) {
                let ghost before = refs.functional_dependencies;
                refs.add_functional_dependency(seg_a.0.clone(), seg_b.0.clone());
                assert(refs.functional_dependencies.lookup(aid) == Some(before.targets(aid).push(fs[j as int].0)));
                assert(linked_ids(a, fs.take(j + 1)) == linked_ids(a, fs.take(j as int)).push(fs[j as int].0));
                added = added + 1;
            } else {
                assert(linked_ids(a, fs.take(j + 1)) == linked_ids(a, fs.take(j as int)));
            }
            j = j + 1;
        }
        assert(fs.take(n as int) =~= fs);
        assert(fs.take(i + 1).drop_last() =~= fs.take(i as int));
        assert(fs.take(i + 1).last() == fs[i as int]);
        proof {
            lemma_linked_ids_len(a, fs);
            assert(added0 + n <= (i + 1) * n) by (nonlinear_arith)
                requires
                    added0 <= i * n,
            ;
            assert forall|p: int| i + 1 <= p < n implies #[trigger] refs.functional_dependencies.lookup(segments@[p].0@)
                == start.lookup(segments@[p].0@) by {
                assert(segments@[p].0@ != aid);
            }
            assert forall|p: int| 0 <= p < i implies #[trigger] refs.functional_dependencies.lookup(segments@[p].0@)
                == with_targets(start.lookup(segments@[p].0@), linked_ids(fs[p], fs)) by {
                assert(segments@[p].0@ != aid);
            }
            assert forall|k: Seq<char>| (forall|p: int| 0 <= p < segments@.len() ==> (#[trigger] segments@[p]).0@ != k)
                implies #[trigger] refs.functional_dependencies.lookup(k) == start.lookup(k) by {
                assert(segments@[i as int].0@ != k);
            }
        }
        i = i + 1;
    }
    assert(fs.take(n as int) =~= fs);
    added
}

/// Enrichment only adds: every reference a segment had stays first in its
/// list, and a segment is never made to reference itself.
pub proof fn law_enrichment_only_adds(
    t: Option<Seq<Seq<char>>>,
    a: (Seq<char>, Seq<char>, Seq<char>),
    segs: Seq<(Seq<char>, Seq<char>, Seq<char>)>,
)
    ensures
        t matches Some(v) ==> with_targets(t, linked_ids(a, segs)) matches Some(w) && w.take(v.len() as int) == v,
        !linked_ids(a, segs).contains(a.0),
    decreases segs.len(),
{
    let xs = linked_ids(a, segs);
    if let Some(v) = t {
        if xs.len() > 0 {
            assert((v + xs).take(v.len() as int) =~= v);
        } else {
            assert(v.take(v.len() as int) =~= v);
        }
    }
    if segs.len() > 0 {
        law_enrichment_only_adds(t, a, segs.drop_last());
        let prev = linked_ids(a, segs.drop_last());
        if links(a, segs.last()) {
            assert(xs == prev.push(segs.last().0));
            assert forall|k: int| 0 <= k < xs.len() implies xs[k] != a.0 by {
                if k < prev.len() {
                    assert(xs[k] == prev[k]);
                }
            }
        } else {
            assert(xs =~= prev);
        }
    }
}

/// The purpose a segment has after filling: its own when it has one, else
/// the one inferred from its text.
pub open spec fn filled_purpose(purpose: Option<Seq<char>>, content: Seq<char>) -> Option<Seq<char>> {
    match purpose {
        Some(p) => Some(p),
        None => business_purpose(lowercase(content)),
    }
}

/// How many of the segments lack a purpose that their text lets infer.
pub open spec fn fillable_count(purposes: Seq<Option<Seq<char>>>, contents: Seq<Seq<char>>) -> nat
    decreases purposes.len(),
{
    if purposes.len() == 0 {
        0
    } else {
        let k = purposes.len() - 1;
        fillable_count(purposes.drop_last(), contents) + if purposes[k] is None && business_purpose(
            lowercase(contents[k]),
        ) is Some {
            1nat
        } else {
            0nat
        }
    }
}

/// The views of optional strings.
pub open spec fn opt_string_views(v: Seq<Option<String>>) -> Seq<Option<Seq<char>>> {
    v.map_values(|o: Option<String>| crate::text::opt_string_view(o))
}

/// Fills in the business purpose of each segment that has none, from its
/// text (`purposes[i]` and `contents[i]` describe segment `i`). The result is
/// the number of purposes filled.
pub fn fill_missing_purposes(purposes: &mut Vec<Option<String>>, contents: &Vec<String>) -> (filled: usize)
    requires
        old(purposes)@.len() == contents@.len(),
    ensures
        final(purposes)@.len() == old(purposes)@.len(),
        forall|i: int| 0 <= i < contents@.len() ==> #[trigger] opt_string_views(final(purposes)@)[i] == filled_purpose(
            opt_string_views(old(purposes)@)[i],
            contents@[i]@,
        ),
        filled == fillable_count(opt_string_views(old(purposes)@), string_views(contents@)),
{
    let ghost start = opt_string_views(purposes@);
    let ghost cs = string_views(contents@);
    let mut filled: usize = 0;
    let mut i: usize = 0;
    while i < purposes.len()
        invariant
            purposes@.len() == contents@.len(),
            start.len() == contents@.len(),
            cs == string_views(contents@),
            i <= purposes@.len(),
            forall|p: int| 0 <= p < i ==> #[trigger] opt_string_views(purposes@)[p] == filled_purpose(start[p], contents@[p]@),
            forall|p: int| i <= p < purposes@.len() ==> #[trigger] opt_string_views(purposes@)[p] == start[p],
            filled == fillable_count(start.take(i as int), cs),
            filled <= i,
        decreases purposes@.len() - i,
    {
        assert(start.take(i + 1).drop_last() =~= start.take(i as int));
        assert(opt_string_views(purposes@)[i as int] == start[i as int]);
        assert(cs[i as int] == contents@[i as int]@);
        if purposes[i].is_none() {
            let inferred = infer_business_purpose(contents[i].as_str());
            if inferred.is_some() {
                let ghost before = purposes@;
                purposes.set(i, inferred);
                filled = filled + 1;
                assert forall|p: int| 0 <= p < purposes@.len() && p != i implies #[trigger] opt_string_views(purposes@)[p]
                    == opt_string_views(before)[p] by {
                    assert(purposes@[p] == before[p]);
                }
            }
        }
        i = i + 1;
    }
    assert(start.take(purposes@.len() as int) =~= start);
    filled
}

} // verus!
