//! The overlap of the word sets of two descriptions, by which claims,
//! implementations and features are matched.
use vstd::prelude::*;
use crate::text::{chars_of, lower_chars, lowercase, string_eq, string_from_chars, string_views, utf8_len, utf8_longer_than, word_ranges, words};

verus! {

/// The words of `s` (of its lowercase when `lower` holds).
pub open spec fn word_forms(s: Seq<char>, lower: bool) -> Seq<Seq<char>> {
    words(if lower { lowercase(s) } else { s })
}

/// The set of words of `s` (lowercased when `lower` holds) that are longer
/// than `min_bytes` bytes.
pub open spec fn word_set(s: Seq<char>, lower: bool, min_bytes: nat) -> Set<Seq<char>> {
    word_forms(s, lower).to_set().filter(|w: Seq<char>| utf8_len(w) > min_bytes)
}

/// Whether `x` is one of `v`.
fn holds(v: &Vec<String>, x: &String) -> (r: bool)
    ensures
        r == string_views(v@).contains(x@),
{
    let mut i: usize = 0;
    while i < v.len()
        invariant
            i <= v@.len(),
            forall|j: int| 0 <= j < i ==> v@[j]@ != x@,
        decreases v@.len() - i,
    {
        if string_eq(&v[i], x) {
            assert(string_views(v@)[i as int] == x@);
            return true;
        }
        i = i + 1;
    }
    proof {
        if string_views(v@).contains(x@) {
            let j = choose|j: int| 0 <= j < string_views(v@).len() && string_views(v@)[j] == x@;
            assert(v@[j]@ == x@);
        }
    }
    false
}

/// Pushing a new element keeps a sequence free of duplicates.
proof fn lemma_push_distinct(s: Seq<Seq<char>>, x: Seq<char>)
    requires
        s.no_duplicates(),
        !s.contains(x),
    ensures
        s.push(x).no_duplicates(),
{
    let t = s.push(x);
    assert forall|i: int, j: int| 0 <= i < t.len() && 0 <= j < t.len() && i != j implies t[i] != t[j] by {
        if i < s.len() && j < s.len() {
        } else if i == s.len() {
            assert(t[j] == s[j]);
        } else {
            assert(t[i] == s[i]);
        }
    }
}

/// The distinct words of `s` (lowercased when `lower` holds) longer than
/// `min_bytes` bytes, in order of first appearance.
fn distinct_words(s: &str, lower: bool, min_bytes: usize) -> (v: Vec<String>)
    requires
        min_bytes <= 1000,
    ensures
        string_views(v@).no_duplicates(),
        string_views(v@).to_set() == word_set(s@, lower, min_bytes as nat),
{
    let cs = if lower {
        lower_chars(s)
    } else {
        chars_of(s)
    };
    let ghost ws = word_forms(s@, lower);
    assert(ws == words(cs@));
    let ranges = word_ranges(&cs);
    let ghost keep = |w: Seq<char>| utf8_len(w) > min_bytes as nat;
    let mut out: Vec<String> = Vec::new();
    let mut i: usize = 0;
    while i < ranges.len()
        invariant
            min_bytes <= 1000,
            ws == words(cs@),
            ranges@.len() == ws.len(),
            forall|k: int|
                0 <= k < ranges@.len() ==> {
                    &&& (#[trigger] ranges@[k]).0 <= ranges@[k].1 <= cs@.len()
                    &&& cs@.subrange(ranges@[k].0 as int, ranges@[k].1 as int) == ws[k]
                },
            i <= ranges@.len(),
            keep == (|w: Seq<char>| utf8_len(w) > min_bytes as nat),
            string_views(out@).no_duplicates(),
            string_views(out@).to_set() == ws.take(i as int).to_set().filter(keep),
        decreases ranges@.len() - i,
    {
        let (a, b) = ranges[i];
        let piece = crate::text::copy_range(&cs, a, b);
        let w = string_from_chars(&cs, a, b);
        assert(w@ == ws[i as int]);
        let ghost before = string_views(out@);
        let long = utf8_longer_than(&piece, min_bytes);
        if long && !holds(&out, &w) {
            out.push(w);
            proof {
                lemma_push_distinct(before, ws[i as int]);
                assert(string_views(out@) =~= before.push(ws[i as int]));
            }
        }
        proof {
            let t = ws.take(i + 1);
            assert(t =~= ws.take(i as int).push(ws[i as int]));
            crate::text::lemma_push_to_set(ws.take(i as int), ws[i as int]);
            crate::text::lemma_push_to_set(before, ws[i as int]);
            assert(string_views(out@).to_set() =~= t.to_set().filter(keep));
        }
        i = i + 1;
    }
    assert(ws.take(ranges@.len() as int) =~= ws);
    out
}

/// The sizes that compare the word sets A and B of two descriptions: the
/// size of A ∩ B, of A, and of B (so that A ∪ B has `|A| + |B| - |A ∩ B|`
/// words). Words are lowercased when `lower` holds and count only when
/// longer than `min_bytes` bytes.
pub fn word_overlap(a: &str, b: &str, lower: bool, min_bytes: usize) -> (r: (usize, usize, usize))
    requires
        min_bytes <= 1000,
    ensures
        r.0 == word_set(a@, lower, min_bytes as nat).intersect(word_set(b@, lower, min_bytes as nat)).len(),
        r.1 == word_set(a@, lower, min_bytes as nat).len(),
        r.2 == word_set(b@, lower, min_bytes as nat).len(),
        (word_set(a@, lower, min_bytes as nat) + word_set(b@, lower, min_bytes as nat)).len() == r.1 + r.2 - r.0,
{
    let da = distinct_words(a, lower, min_bytes);
    let db = distinct_words(b, lower, min_bytes);
    let ghost sa = word_set(a@, lower, min_bytes as nat);
    let ghost sb = word_set(b@, lower, min_bytes as nat);
    let ghost va = string_views(da@);
    let ghost vb = string_views(db@);
    let mut common: Vec<String> = Vec::new();
    let mut i: usize = 0;
    while i < da.len()
        invariant
            va == string_views(da@),
            vb == string_views(db@),
            va.no_duplicates(),
            vb.to_set() == sb,
            i <= da@.len(),
            string_views(common@).no_duplicates(),
            string_views(common@).to_set() == va.take(i as int).to_set().intersect(sb),
            forall|x: Seq<char>| string_views(common@).contains(x) ==> va.take(i as int).contains(x),
        decreases da@.len() - i,
    {
        let ghost before = string_views(common@);
        let x = &da[i];
        assert(va[i as int] == x@);
        if holds(&db, x) {
            proof {
                if before.contains(x@) {
                    let k = choose|k: int| 0 <= k < i && va.take(i as int)[k] == x@;
                    assert(va[k] == va[i as int]);
                }
                lemma_push_distinct(before, x@);
            }
            common.push(x.clone());
            assert(string_views(common@) =~= before.push(x@));
        }
        proof {
            let t = va.take(i + 1);
            assert(t =~= va.take(i as int).push(va[i as int]));
            crate::text::lemma_push_to_set(va.take(i as int), va[i as int]);
            crate::text::lemma_push_to_set(before, x@);
            assert(string_views(common@).to_set() =~= t.to_set().intersect(sb));
            assert forall|y: Seq<char>| string_views(common@).contains(y) implies t.contains(y) by {
                if before.contains(y) {
                    let k = choose|k: int| 0 <= k < i && va.take(i as int)[k] == y;
                    assert(t[k] == y);
                } else {
                    assert(t[i as int] == y);
                }
            }
        }
        i = i + 1;
    }
    proof {
        assert(va.take(da@.len() as int) =~= va);
        string_views(common@).unique_seq_to_set();
        va.unique_seq_to_set();
        vb.unique_seq_to_set();
        vstd::set_lib::lemma_set_intersect_union_lens(sa, sb);
    }
    (common.len(), da.len(), db.len())
}

/// Whether a claimed feature and an implemented one describe the same
/// thing: more than three tenths of the distinct lowercase words of the two
/// descriptions together are shared by both.
pub fn features_match(claim_desc: &str, impl_desc: &str) -> (r: bool)
    ensures
        r == (10 * word_set(claim_desc@, true, 0).intersect(word_set(impl_desc@, true, 0)).len() > 3 * (word_set(
            claim_desc@,
            true,
            0,
        ) + word_set(impl_desc@, true, 0)).len()),
{
    let (inter, na, nb) = word_overlap(claim_desc, impl_desc, true, 0);
    let union: u128 = (na as u128) + (nb as u128) - (inter as u128);
    (inter as u128) * 10 > union * 3
}

} // verus!
