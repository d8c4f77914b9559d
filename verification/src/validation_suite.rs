//! Validation of framework detection against expected outcomes: the kinds of
//! checks and the per-framework tally of right and wrong detections.
use vstd::prelude::*;
use crate::types::Framework;

verus! {

/// What a framework-detection validation check checks.
#[derive(Debug, Clone, Copy, PartialEq, Eq, Structural)]
pub enum TestType {
    PositiveDetection,
    NegativeDetection,
    Disambiguation,
    VersionAccuracy,
}

/// How often detection of one framework was right or wrong, by kind.
#[derive(Debug, Clone, Copy, PartialEq, Eq, Structural)]
pub struct AccuracyCounts {
    pub true_positives: usize,
    pub false_positives: usize,
    pub true_negatives: usize,
    pub false_negatives: usize,
}

/// No detection counted yet.
pub open spec fn zero_counts() -> AccuracyCounts {
    AccuracyCounts { true_positives: 0, false_positives: 0, true_negatives: 0, false_negatives: 0 }
}

/// The number of detections that `c` counts.
pub open spec fn counts_total(c: AccuracyCounts) -> int {
    c.true_positives + c.false_positives + c.true_negatives + c.false_negatives
}

/// `c` with one more outcome: a framework that should (or should not) have
/// been detected and was (or was not).
pub open spec fn count_outcome(c: AccuracyCounts, should_detect: bool, was_detected: bool) -> AccuracyCounts {
    if should_detect && was_detected {
        AccuracyCounts { true_positives: (c.true_positives + 1) as usize, ..c }
    } else if should_detect {
        AccuracyCounts { false_negatives: (c.false_negatives + 1) as usize, ..c }
    } else if was_detected {
        AccuracyCounts { false_positives: (c.false_positives + 1) as usize, ..c }
    } else {
        AccuracyCounts { true_negatives: (c.true_negatives + 1) as usize, ..c }
    }
}

/// The counts that the table `s` holds for `f` (none counted when `f` has
/// no entry).
pub open spec fn counts_for(s: Seq<(Framework, AccuracyCounts)>, f: Framework) -> AccuracyCounts
    decreases s.len(),
{
    if s.len() == 0 {
        zero_counts()
    } else if s.last().0 == f {
        s.last().1
    } else {
        counts_for(s.drop_last(), f)
    }
}

/// Whether the table `s` has an entry for `f`.
pub open spec fn has_entry(s: Seq<(Framework, AccuracyCounts)>, f: Framework) -> bool {
    exists|j: int| 0 <= j < s.len() && (#[trigger] s[j]).0 == f
}

/// Each framework has at most one entry in the table `s`.
pub open spec fn entries_distinct(s: Seq<(Framework, AccuracyCounts)>) -> bool {
    forall|j: int, k: int| 0 <= j < k < s.len() ==> (#[trigger] s[j]).0 != (#[trigger] s[k]).0
}

/// `c` after counting, in order, each expectation of `exps` about `f`
/// against the detected frameworks `detected`.
pub open spec fn count_expectations(
    c: AccuracyCounts,
    exps: Seq<(Framework, bool)>,
    f: Framework,
    detected: Seq<Framework>,
) -> AccuracyCounts
    decreases exps.len(),
{
    if exps.len() == 0 {
        c
    } else {
        let before = count_expectations(c, exps.drop_last(), f, detected);
        if exps.last().0 == f {
            count_outcome(before, exps.last().1, detected.contains(f))
        } else {
            before
        }
    }
}

/// How many expectations of `exps` are about `f`.
pub open spec fn expectations_about(exps: Seq<(Framework, bool)>, f: Framework) -> nat
    decreases exps.len(),
{
    if exps.len() == 0 {
        0
    } else {
        expectations_about(exps.drop_last(), f) + if exps.last().0 == f {
            1nat
        } else {
            0nat
        }
    }
}

proof fn lemma_counts_at(s: Seq<(Framework, AccuracyCounts)>, j: int)
    requires
        entries_distinct(s),
        0 <= j < s.len(),
    ensures
        counts_for(s, s[j].0) == s[j].1,
    decreases s.len(),
{
    if j < s.len() - 1 {
        assert(s.drop_last()[j] == s[j]);
        lemma_counts_at(s.drop_last(), j);
    }
}

proof fn lemma_counts_absent(s: Seq<(Framework, AccuracyCounts)>, f: Framework)
    requires
        !has_entry(s, f),
    ensures
        counts_for(s, f) == zero_counts(),
    decreases s.len(),
{
    if s.len() > 0 {
        assert(s[s.len() - 1] == s.last());
        assert forall|j: int| 0 <= j < s.drop_last().len() implies (#[trigger] s.drop_last()[j]).0 != f by {
            assert(s.drop_last()[j] == s[j]);
        }
        lemma_counts_absent(s.drop_last(), f);
    }
}

proof fn lemma_counts_update(s: Seq<(Framework, AccuracyCounts)>, j: int, c: AccuracyCounts, g: Framework)
    requires
        entries_distinct(s),
        0 <= j < s.len(),
    ensures
        counts_for(s.update(j, (s[j].0, c)), g) == if g == s[j].0 {
            c
        } else {
            counts_for(s, g)
        },
    decreases s.len(),
{
    let t = s.update(j, (s[j].0, c));
    if j == s.len() - 1 {
        assert(t.drop_last() =~= s.drop_last());
    } else {
        assert(t.drop_last() =~= s.drop_last().update(j, (s[j].0, c)));
        assert(s.drop_last()[j] == s[j]);
        assert(s.last() == s[s.len() - 1]);
        lemma_counts_update(s.drop_last(), j, c, g);
    }
}

/// Counting expectations about `f` adds exactly one outcome to the counts of
/// `f` for each expectation about it.
pub proof fn law_each_expectation_counted_once(
    c: AccuracyCounts,
    exps: Seq<(Framework, bool)>,
    f: Framework,
    detected: Seq<Framework>,
)
    requires
        counts_total(c) + expectations_about(exps, f) <= usize::MAX,
    ensures
        counts_total(count_expectations(c, exps, f, detected)) == counts_total(c) + expectations_about(exps, f),
    decreases exps.len(),
{
    if exps.len() > 0 {
        law_each_expectation_counted_once(c, exps.drop_last(), f, detected);
    }
}

/// Whether `f` is among `detected`.
fn detected_contains(detected: &Vec<Framework>, f: Framework) -> (r: bool)
    ensures
        r == detected@.contains(f),
{
    let mut i: usize = 0;
    while i < detected.len()
        invariant
            i <= detected@.len(),
            forall|k: int| 0 <= k < i ==> detected@[k] != f,
        decreases detected@.len() - i,
    {
        if detected[i] == f {
            return true;
        }
        i = i + 1;
    }
    false
}

/// `c` with one more outcome (see `count_outcome`).
fn add_outcome(c: AccuracyCounts, should_detect: bool, was_detected: bool) -> (r: AccuracyCounts)
    requires
        counts_total(c) < usize::MAX,
    ensures
        r == count_outcome(c, should_detect, was_detected),
{
    let mut r = c;
    if should_detect && was_detected {
        r.true_positives = c.true_positives + 1;
    } else if should_detect {
        r.false_negatives = c.false_negatives + 1;
    } else if was_detected {
        r.false_positives = c.false_positives + 1;
    } else {
        r.true_negatives = c.true_negatives + 1;
    }
    r
}

/// Counts, for each expectation of a validation check (a framework and
/// whether it should be detected), whether the framework was among
/// `detected`, in the table `stats` of counts by framework. A framework
/// gets an entry when it is first counted.
pub fn update_framework_stats(
    stats: &mut Vec<(Framework, AccuracyCounts)>,
    expected: &Vec<(Framework, bool)>,
    detected: &Vec<Framework>,
)
    requires
        entries_distinct(old(stats)@),
        forall|f: Framework| counts_total(#[trigger] counts_for(old(stats)@, f)) + expected@.len() <= usize::MAX,
    ensures
        entries_distinct(final(stats)@),
        forall|f: Framework| #[trigger] counts_for(final(stats)@, f) == count_expectations(
            counts_for(old(stats)@, f),
            expected@,
            f,
            detected@,
        ),
        forall|f: Framework| #[trigger] has_entry(final(stats)@, f) <==> has_entry(old(stats)@, f)
            || exists|k: int| 0 <= k < expected@.len() && (#[trigger] expected@[k]).0 == f,
{
    let ghost start = stats@;
    let mut i: usize = 0;
    while i < expected.len()
        invariant
            i <= expected@.len(),
            entries_distinct(stats@),
            forall|f: Framework| #[trigger] counts_for(stats@, f) == count_expectations(
                counts_for(start, f),
                expected@.take(i as int),
                f,
                detected@,
            ),
            forall|f: Framework| counts_total(#[trigger] counts_for(start, f)) + expected@.len() <= usize::MAX,
            forall|f: Framework| counts_total(#[trigger] counts_for(stats@, f)) <= counts_total(counts_for(start, f)) + i,
            forall|f: Framework| #[trigger] has_entry(stats@, f) <==> has_entry(start, f)
                || exists|k: int| 0 <= k < i && (#[trigger] expected@[k]).0 == f,
        decreases expected@.len() - i,
    {
        let (f, should) = expected[i];
        let was = detected_contains(detected, f);
        let ghost before = stats@;
        let ghost prefix = expected@.take(i as int);
        assert(expected@.take(i + 1).drop_last() =~= prefix);
        assert(expected@.take(i + 1).last() == expected@[i as int]);
        assert(counts_total(counts_for(before, f)) < usize::MAX);
        let ghost newc = count_outcome(counts_for(before, f), should, was);
        let mut j: usize = 0;
        let mut found = false;
        while !found && j < stats.len()
            invariant
                j <= stats@.len(),
                stats@ == before,
                found ==> j < stats@.len() && stats@[j as int].0 == f,
                forall|k: int| 0 <= k < j ==> (#[trigger] stats@[k]).0 != f,
            decreases stats@.len() - j - (if found { 1int } else { 0int }),
        {
            if stats[j].0 == f {
                found = true;
            } else {
                j = j + 1;
            }
        }
        if found {
            proof {
                lemma_counts_at(before, j as int);
            }
            let c = add_outcome(stats[j].1, should, was);
            stats.set(j, (f, c));
            proof {
                assert forall|g: Framework| #[trigger] counts_for(stats@, g) == (if g == f {
                    newc
                } else {
                    counts_for(before, g)
                }) by {
                    lemma_counts_update(before, j as int, c, g);
                }
                assert forall|a: int, b: int| 0 <= a < b < stats@.len() implies (#[trigger] stats@[a]).0
                    != (#[trigger] stats@[b]).0 by {
                    assert(stats@[a].0 == before[a].0);
                    assert(stats@[b].0 == before[b].0);
                }
                assert forall|g: Framework| #[trigger] has_entry(stats@, g) <==> has_entry(before, g) by {
                    if has_entry(before, g) {
                        let w = choose|w: int| 0 <= w < before.len() && (#[trigger] before[w]).0 == g;
                        assert(stats@[w].0 == g);
                    }
                    if has_entry(stats@, g) {
                        let w = choose|w: int| 0 <= w < stats@.len() && (#[trigger] stats@[w]).0 == g;
                        assert(before[w].0 == g);
                    }
                }
            }
        } else {
            proof {
                assert(!has_entry(before, f));
                lemma_counts_absent(before, f);
            }
            let c = add_outcome(AccuracyCounts { true_positives: 0, false_positives: 0, true_negatives: 0, false_negatives: 0 }, should, was);
            stats.push((f, c));
            proof {
                assert(stats@.drop_last() =~= before);
                assert forall|g: Framework| #[trigger] counts_for(stats@, g) == (if g == f {
                    newc
                } else {
                    counts_for(before, g)
                }) by {
                    assert(stats@.last() == (f, c));
                }
                assert forall|g: Framework| #[trigger] has_entry(stats@, g) <==> has_entry(before, g) || g == f by {
                    if has_entry(before, g) {
                        let w = choose|w: int| 0 <= w < before.len() && (#[trigger] before[w]).0 == g;
                        assert(stats@[w] == before[w]);
                    }
                    if g == f {
                        assert(stats@[before.len() as int].0 == f);
                    }
                    if has_entry(stats@, g) && g != f {
                        let w = choose|w: int| 0 <= w < stats@.len() && (#[trigger] stats@[w]).0 == g;
                        assert(w < before.len());
                        assert(before[w] == stats@[w]);
                    }
                }
                assert forall|a: int, b: int| 0 <= a < b < stats@.len() implies (#[trigger] stats@[a]).0
                    != (#[trigger] stats@[b]).0 by {
                    if b == before.len() {
                        assert(stats@[a] == before[a]);
                        assert(before[a].0 != f);
                    } else {
                        assert(stats@[a] == before[a]);
                        assert(stats@[b] == before[b]);
                    }
                }
            }
        }
        proof {
            assert forall|g: Framework| #[trigger] counts_for(stats@, g) == count_expectations(
                counts_for(start, g),
                expected@.take(i + 1),
                g,
                detected@,
            ) by {
                assert(count_expectations(counts_for(start, g), expected@.take(i + 1), g, detected@)
                    == if g == f {
                        count_outcome(count_expectations(counts_for(start, g), prefix, g, detected@), should, was)
                    } else {
                        count_expectations(counts_for(start, g), prefix, g, detected@)
                    });
            }
            assert forall|g: Framework| counts_total(#[trigger] counts_for(stats@, g)) <= counts_total(
                counts_for(start, g),
            ) + i + 1 by {
                if g == f {
                    assert(counts_total(counts_for(stats@, g)) == counts_total(counts_for(before, g)) + 1);
                }
            }
            assert forall|g: Framework| #[trigger] has_entry(stats@, g) <==> has_entry(start, g)
                || exists|k: int| 0 <= k < i + 1 && (#[trigger] expected@[k]).0 == g by {
                if exists|k: int| 0 <= k < i + 1 && (#[trigger] expected@[k]).0 == g {
                    let k = choose|k: int| 0 <= k < i + 1 && (#[trigger] expected@[k]).0 == g;
                    if k < i {
                        assert(has_entry(before, g));
                    }
                }
            }
        }
        i = i + 1;
    }
    assert(expected@.take(expected@.len() as int) =~= expected@);
}

} // verus!
