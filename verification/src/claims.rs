//! Claims that a project's documentation makes: their kinds, priorities,
//! context windows, keywords and summary counts.
use vstd::prelude::*;
use crate::text::{
    chars_of, join, join_strings, lowercase, string_eq, string_from_chars, string_views, to_lower,
    trim, trim_both, trim_range, trimmed_string, word_ranges, words, CharClass, utf8_len, utf8_longer_than,
};
use crate::patterns::{first_group, is_valid_regex, regex_group1, regex_search, regex_valid, search};

verus! {

/// The kind of a documentation claim.
#[derive(Debug, Clone, Copy, PartialEq, Eq, Structural, Hash)]
pub enum ClaimType {
    Feature,
    Capability,
    Integration,
    Technology,
    Performance,
    Security,
    Deployment,
    Api,
}

/// How much a documentation claim matters.
#[derive(Debug, Clone, Copy, PartialEq, Eq, Structural, Hash)]
pub enum ClaimPriority {
    Critical,
    High,
    Medium,
    Low,
}

/// The lowercase name of a claim type.
pub open spec fn claim_type_name(t: ClaimType) -> Seq<char> {
    match t {
        ClaimType::Feature => "feature"@,
        ClaimType::Capability => "capability"@,
        ClaimType::Integration => "integration"@,
        ClaimType::Technology => "technology"@,
        ClaimType::Performance => "performance"@,
        ClaimType::Security => "security"@,
        ClaimType::Deployment => "deployment"@,
        ClaimType::Api => "api"@,
    }
}

impl ClaimType {
    /// The lowercase name of the claim type.
    pub fn as_str(&self) -> (r: &'static str)
        ensures
            r@ == claim_type_name(*self),
    {
        match self {
            ClaimType::Feature => "feature",
            ClaimType::Capability => "capability",
            ClaimType::Integration => "integration",
            ClaimType::Technology => "technology",
            ClaimType::Performance => "performance",
            ClaimType::Security => "security",
            ClaimType::Deployment => "deployment",
            ClaimType::Api => "api",
        }
    }
}

/// The priority of a claim of type `t` whose context, lowercased, is `low`.
pub open spec fn claim_priority(t: ClaimType, low: Seq<char>) -> ClaimPriority {
    match t {
        ClaimType::Security => ClaimPriority::Critical,
        ClaimType::Api => if crate::text::contains(low, "authentication"@) || crate::text::contains(
            low,
            "authorization"@,
        ) {
            ClaimPriority::Critical
        } else if crate::text::contains(low, "crud"@) || crate::text::contains(low, "rest"@) {
            ClaimPriority::High
        } else {
            ClaimPriority::Medium
        },
        ClaimType::Feature => if crate::text::contains(low, "authentication"@)
            || crate::text::contains(low, "user management"@) {
            ClaimPriority::Critical
        } else if crate::text::contains(low, "payment"@) || crate::text::contains(
            low,
            "notification"@,
        ) {
            ClaimPriority::High
        } else {
            ClaimPriority::Medium
        },
        ClaimType::Integration => ClaimPriority::High,
        ClaimType::Performance => ClaimPriority::Medium,
        ClaimType::Technology | ClaimType::Capability => ClaimPriority::Medium,
        ClaimType::Deployment => ClaimPriority::Low,
    }
}

impl ClaimPriority {
    /// The priority of a claim of type `claim_type` found in `context`
    /// (matched case-insensitively).
    pub fn from_context(claim_type: &ClaimType, context: &str) -> (r: Self)
        ensures
            r == claim_priority(*claim_type, lowercase(context@)),
    {
        let low = crate::text::lower_chars(context);
        match claim_type {
            ClaimType::Security => ClaimPriority::Critical,
            ClaimType::Api => {
                if crate::text::contains_str(&low, "authentication") || crate::text::contains_str(
                    &low,
                    "authorization",
                ) {
                    ClaimPriority::Critical
                } else if crate::text::contains_str(&low, "crud") || crate::text::contains_str(
                    &low,
                    "rest",
                ) {
                    ClaimPriority::High
                } else {
                    ClaimPriority::Medium
                }
            },
            ClaimType::Feature => {
                if crate::text::contains_str(&low, "authentication") || crate::text::contains_str(
                    &low,
                    "user management",
                ) {
                    ClaimPriority::Critical
                } else if crate::text::contains_str(&low, "payment") || crate::text::contains_str(
                    &low,
                    "notification",
                ) {
                    ClaimPriority::High
                } else {
                    ClaimPriority::Medium
                }
            },
            ClaimType::Integration => ClaimPriority::High,
            ClaimType::Performance => ClaimPriority::Medium,
            ClaimType::Technology | ClaimType::Capability => ClaimPriority::Medium,
            ClaimType::Deployment => ClaimPriority::Low,
        }
    }
}

/// The first line of the context window around line `line_num`.
pub open spec fn window_start(line_num: int, window: int) -> int {
    if line_num >= window {
        line_num - window
    } else {
        0
    }
}

/// The line after the context window around line `line_num`.
pub open spec fn window_end(line_num: int, window: int, n: int) -> int {
    if line_num + window + 1 <= n {
        line_num + window + 1
    } else {
        n
    }
}

/// The context of a claim on line `line_num`: the lines from `window`
/// before it to `window` after it, joined with spaces and trimmed.
pub open spec fn claim_context(lines: Seq<Seq<char>>, line_num: int, window: int) -> Seq<char> {
    trim(
        join(
            lines.subrange(window_start(line_num, window), window_end(line_num, window, lines.len() as int)),
            " "@,
        ),
    )
}

/// The context of a claim on line `line_num` of `lines`, with `window`
/// lines on each side.
pub fn extract_context(lines: &Vec<String>, line_num: usize, window: usize) -> (r: String)
    requires
        line_num + window + 1 <= usize::MAX,
        window_start(line_num as int, window as int) <= lines@.len(),
    ensures
        r@ == claim_context(string_views(lines@), line_num as int, window as int),
{
    let start = if line_num >= window {
        line_num - window
    } else {
        0
    };
    let end = if line_num + window + 1 <= lines.len() {
        line_num + window + 1
    } else {
        lines.len()
    };
    let mut part: Vec<String> = Vec::new();
    let mut i = start;
    while i < end
        invariant
            start <= i <= end <= lines@.len(),
            string_views(part@) == string_views(lines@).subrange(start as int, i as int),
        decreases end - i,
    {
        let s = lines[i].clone();
        let ghost before = part@;
        part.push(s);
        proof {
            assert(string_views(lines@)[i as int] == lines@[i as int]@);
            assert(string_views(lines@).subrange(start as int, i + 1) =~= string_views(lines@).subrange(
                start as int,
                i as int,
            ).push(lines@[i as int]@));
            assert(string_views(part@) =~= string_views(before).push(s@));
        }
        i = i + 1;
    }
    let joined = join_strings(&part, " ");
    assert(part@.map_values(|p: String| p@) =~= string_views(part@));
    let cs = chars_of(joined.as_str());
    trimmed_string(&cs)
}

/// A word of a description as a keyword candidate: lowercased, with ASCII
/// punctuation trimmed from both ends.
pub open spec fn keyword_form(w: Seq<char>) -> Seq<char> {
    trim_both(lowercase(w), CharClass::AsciiPunctuation)
}

/// The keywords among the words `ws`: their keyword forms that are longer
/// than two bytes and are among `keys`, in order.
pub open spec fn keywords_among(ws: Seq<Seq<char>>, keys: Seq<Seq<char>>) -> Seq<Seq<char>>
    decreases ws.len(),
{
    if ws.len() == 0 {
        seq![]
    } else {
        let k = keyword_form(ws.last());
        keywords_among(ws.drop_last(), keys) + if utf8_len(k) > 2 && keys.contains(k) {
            seq![k]
        } else {
            seq![]
        }
    }
}

/// Whether `x` is one of `keys`.
fn is_key(keys: &Vec<String>, x: &String) -> (r: bool)
    ensures
        r == string_views(keys@).contains(x@),
{
    let mut i: usize = 0;
    while i < keys.len()
        invariant
            i <= keys@.len(),
            forall|j: int| 0 <= j < i ==> keys@[j]@ != x@,
        decreases keys@.len() - i,
    {
        if string_eq(&keys[i], x) {
            assert(string_views(keys@)[i as int] == x@);
            return true;
        }
        i = i + 1;
    }
    proof {
        if string_views(keys@).contains(x@) {
            let j = choose|j: int| 0 <= j < string_views(keys@).len() && string_views(keys@)[j] == x@;
            assert(keys@[j]@ == x@);
        }
    }
    false
}

/// The keyword form of the word `cs[a..b]`.
fn keyword_in(cs: &Vec<char>, a: usize, b: usize) -> (kw: Vec<char>)
    requires
        a <= b <= cs@.len(),
    ensures
        kw@ == keyword_form(cs@.subrange(a as int, b as int)),
{
    let word = string_from_chars(cs, a, b);
    let low = to_lower(word.as_str());
    let lc = chars_of(low.as_str());
    let (x, y) = trim_range(&lc, 0, lc.len(), &CharClass::AsciiPunctuation);
    assert(lc@.subrange(0, lc@.len() as int) =~= lc@);
    crate::text::copy_range(&lc, x, y)
}

/// The keywords of a claim description: the words of `description` in
/// keyword form that are longer than two bytes and are among `keys` (the
/// keys of the keyword weights).
pub fn extract_keywords(description: &str, keys: &Vec<String>) -> (r: Vec<String>)
    ensures
        string_views(r@) == keywords_among(words(description@), string_views(keys@)),
{
    let cs = chars_of(description);
    let ranges = word_ranges(&cs);
    let ghost ws = words(description@);
    let ghost ks = string_views(keys@);
    let mut out: Vec<String> = Vec::new();
    let mut i: usize = 0;
    while i < ranges.len()
        invariant
            cs@ == description@,
            ws == words(description@),
            ks == string_views(keys@),
            ranges@.len() == ws.len(),
            forall|k: int|
                0 <= k < ranges@.len() ==> {
                    &&& (#[trigger] ranges@[k]).0 <= ranges@[k].1 <= cs@.len()
                    &&& cs@.subrange(ranges@[k].0 as int, ranges@[k].1 as int) == ws[k]
                },
            i <= ranges@.len(),
            string_views(out@) == keywords_among(ws.take(i as int), ks),
        decreases ranges@.len() - i,
    {
        let (a, b) = ranges[i];
        let kw = keyword_in(&cs, a, b);
        let ghost before = out@;
        let ghost k = keyword_form(ws[i as int]);
        assert(kw@ == k);
        let kws = string_from_chars(&kw, 0, kw.len());
        assert(kw@.subrange(0, kw@.len() as int) =~= kw@);
        if utf8_longer_than(&kw, 2) && is_key(keys, &kws) {
            out.push(kws);
        }
        proof {
            let t = ws.take(i + 1);
            assert(t.drop_last() =~= ws.take(i as int));
            assert(t.last() == ws[i as int]);
            assert(keywords_among(t, ks) == keywords_among(ws.take(i as int), ks) + if utf8_len(k) > 2
                && ks.contains(k) {
                seq![k]
            } else {
                seq![]
            });
            assert(string_views(out@) =~= keywords_among(t, ks));
        }
        i = i + 1;
    }
    assert(ws.take(ranges@.len() as int) =~= ws);
    out
}

/// Whether a claim of type `t` needs to be checked against the code.
pub open spec fn needs_verification(t: ClaimType) -> bool {
    t == ClaimType::Feature || t == ClaimType::Api || t == ClaimType::Security
}

/// How many of the facts `s` satisfy `p`.
pub open spec fn count_where<A>(s: Seq<A>, p: spec_fn(A) -> bool) -> nat
    decreases s.len(),
{
    if s.len() == 0 {
        0
    } else {
        count_where(s.drop_last(), p) + if p(s.last()) {
            1nat
        } else {
            0nat
        }
    }
}

/// Counting over one more fact.
pub proof fn lemma_count_where_push<A>(s: Seq<A>, x: A, p: spec_fn(A) -> bool)
    ensures
        count_where(s.push(x), p) == count_where(s, p) + if p(x) {
            1nat
        } else {
            0nat
        },
{
    assert(s.push(x).drop_last() =~= s);
}

/// A count never exceeds the number of facts.
pub proof fn lemma_count_where_bound<A>(s: Seq<A>, p: spec_fn(A) -> bool)
    ensures
        count_where(s, p) <= s.len(),
    decreases s.len(),
{
    if s.len() > 0 {
        lemma_count_where_bound(s.drop_last(), p);
    }
}

/// The facts about one claim that its summary counts: its type, its
/// priority, and whether its confidence is high.
pub type ClaimFacts = (ClaimType, ClaimPriority, bool);

/// Summary counts of a set of claims. Each kind and each priority that
/// occurs appears once in its list, with its count.
pub struct ClaimsSummary {
    pub total_claims: usize,
    pub claims_by_type: Vec<(ClaimType, usize)>,
    pub claims_by_priority: Vec<(ClaimPriority, usize)>,
    pub high_confidence_claims: usize,
    pub verification_needed: usize,
}

/// The position of a claim type in declaration order.
pub open spec fn type_rank(t: ClaimType) -> int {
    match t {
        ClaimType::Feature => 0,
        ClaimType::Capability => 1,
        ClaimType::Integration => 2,
        ClaimType::Technology => 3,
        ClaimType::Performance => 4,
        ClaimType::Security => 5,
        ClaimType::Deployment => 6,
        ClaimType::Api => 7,
    }
}

/// The position of a priority in declaration order.
pub open spec fn priority_rank(p: ClaimPriority) -> int {
    match p {
        ClaimPriority::Critical => 0,
        ClaimPriority::High => 1,
        ClaimPriority::Medium => 2,
        ClaimPriority::Low => 3,
    }
}

fn type_index(t: &ClaimType) -> (r: usize)
    ensures
        r == type_rank(*t),
{
    match t {
        ClaimType::Feature => 0,
        ClaimType::Capability => 1,
        ClaimType::Integration => 2,
        ClaimType::Technology => 3,
        ClaimType::Performance => 4,
        ClaimType::Security => 5,
        ClaimType::Deployment => 6,
        ClaimType::Api => 7,
    }
}

fn type_at(i: usize) -> (t: ClaimType)
    requires
        i < 8,
    ensures
        type_rank(t) == i,
{
    if i == 0 {
        ClaimType::Feature
    } else if i == 1 {
        ClaimType::Capability
    } else if i == 2 {
        ClaimType::Integration
    } else if i == 3 {
        ClaimType::Technology
    } else if i == 4 {
        ClaimType::Performance
    } else if i == 5 {
        ClaimType::Security
    } else if i == 6 {
        ClaimType::Deployment
    } else {
        ClaimType::Api
    }
}

fn priority_index(p: &ClaimPriority) -> (r: usize)
    ensures
        r == priority_rank(*p),
{
    match p {
        ClaimPriority::Critical => 0,
        ClaimPriority::High => 1,
        ClaimPriority::Medium => 2,
        ClaimPriority::Low => 3,
    }
}

fn priority_at(i: usize) -> (p: ClaimPriority)
    requires
        i < 4,
    ensures
        priority_rank(p) == i,
{
    if i == 0 {
        ClaimPriority::Critical
    } else if i == 1 {
        ClaimPriority::High
    } else if i == 2 {
        ClaimPriority::Medium
    } else {
        ClaimPriority::Low
    }
}

/// The number of claims of type `t`.
pub open spec fn type_count(claims: Seq<ClaimFacts>, t: ClaimType) -> nat {
    count_where(claims, |c: ClaimFacts| c.0 == t)
}

/// The number of claims of priority `p`.
pub open spec fn priority_count(claims: Seq<ClaimFacts>, p: ClaimPriority) -> nat {
    count_where(claims, |c: ClaimFacts| c.1 == p)
}

/// `entries` lists each key with a positive count once, with that count,
/// in declaration order.
pub open spec fn lists_counts<K>(
    entries: Seq<(K, usize)>,
    count: spec_fn(K) -> nat,
    rank: spec_fn(K) -> int,
) -> bool {
    &&& forall|j: int| 0 <= j < entries.len() ==> (#[trigger] entries[j]).1 == count(entries[j].0) && entries[j].1 > 0
    &&& forall|j: int, k: int| 0 <= j < k < entries.len() ==> rank(#[trigger] entries[j].0) < rank(#[trigger] entries[k].0)
    &&& forall|x: K| #[trigger] count(x) > 0 ==> exists|j: int| 0 <= j < entries.len() && entries[j].0 == x
}

/// The summary of a list of claims: how many there are, how many of each
/// type and priority, how many have high confidence, and how many need
/// checking against the code.
pub fn summarize_claims(claims: &Vec<ClaimFacts>) -> (s: ClaimsSummary)
    ensures
        s.total_claims == claims@.len(),
        s.high_confidence_claims == count_where(claims@, |c: ClaimFacts| c.2),
        s.verification_needed == count_where(claims@, |c: ClaimFacts| needs_verification(c.0)),
        lists_counts(s.claims_by_type@, |t: ClaimType| type_count(claims@, t), |t: ClaimType| type_rank(t)),
        lists_counts(
            s.claims_by_priority@,
            |p: ClaimPriority| priority_count(claims@, p),
            |p: ClaimPriority| priority_rank(p),
        ),
{
    let mut by_type: Vec<usize> = vec![0, 0, 0, 0, 0, 0, 0, 0];
    let mut by_priority: Vec<usize> = vec![0, 0, 0, 0];
    let mut high: usize = 0;
    let mut verify: usize = 0;
    let mut i: usize = 0;
    while i < claims.len()
        invariant
            i <= claims@.len(),
            by_type@.len() == 8,
            by_priority@.len() == 4,
            forall|t: ClaimType| #[trigger] by_type@[type_rank(t)] == type_count(claims@.take(i as int), t),
            forall|p: ClaimPriority| #[trigger] by_priority@[priority_rank(p)] == priority_count(
                claims@.take(i as int),
                p,
            ),
            high == count_where(claims@.take(i as int), |c: ClaimFacts| c.2),
            verify == count_where(claims@.take(i as int), |c: ClaimFacts| needs_verification(c.0)),
        decreases claims@.len() - i,
    {
        let c = claims[i];
        let ghost pre = claims@.take(i as int);
        assert(claims@.take(i + 1) =~= pre.push(c));
        proof {
            lemma_count_where_bound(pre, |x: ClaimFacts| x.2);
            lemma_count_where_bound(pre, |x: ClaimFacts| needs_verification(x.0));
            lemma_count_where_push(pre, c, |x: ClaimFacts| x.2);
            lemma_count_where_push(pre, c, |x: ClaimFacts| needs_verification(x.0));
            assert forall|t: ClaimType| true implies #[trigger] type_count(pre.push(c), t) == type_count(pre, t)
                + if c.0 == t {
                1nat
            } else {
                0nat
            } by {
                lemma_count_where_push(pre, c, |x: ClaimFacts| x.0 == t);
            }
            assert forall|p: ClaimPriority| true implies #[trigger] priority_count(pre.push(c), p)
                == priority_count(pre, p) + if c.1 == p {
                1nat
            } else {
                0nat
            } by {
                lemma_count_where_push(pre, c, |x: ClaimFacts| x.1 == p);
            }
            lemma_count_where_bound(pre, |x: ClaimFacts| x.0 == c.0);
            lemma_count_where_bound(pre, |x: ClaimFacts| x.1 == c.1);
        }
        let ti = type_index(&c.0);
        let pi = priority_index(&c.1);
        assert(by_type@[type_rank(c.0)] == type_count(pre, c.0));
        assert(by_priority@[priority_rank(c.1)] == priority_count(pre, c.1));
        let nt = by_type[ti] + 1;
        by_type.set(ti, nt);
        let np = by_priority[pi] + 1;
        by_priority.set(pi, np);
        if c.2 {
            high = high + 1;
        }
        if matches!(c.0, ClaimType::Feature | ClaimType::Api | ClaimType::Security) {
            verify = verify + 1;
        }
        proof {
            assert forall|t: ClaimType| #[trigger] by_type@[type_rank(t)] == type_count(
                claims@.take(i + 1),
                t,
            ) by {
                assert(type_count(pre.push(c), t) == type_count(pre, t) + if c.0 == t {
                    1nat
                } else {
                    0nat
                });
                if t != c.0 {
                    assert(type_rank(t) != type_rank(c.0));
                }
            }
            assert forall|p: ClaimPriority| #[trigger] by_priority@[priority_rank(p)] == priority_count(
                claims@.take(i + 1),
                p,
            ) by {
                assert(priority_count(pre.push(c), p) == priority_count(pre, p) + if c.1 == p {
                    1nat
                } else {
                    0nat
                });
                if p != c.1 {
                    assert(priority_rank(p) != priority_rank(c.1));
                }
            }
        }
        i = i + 1;
    }
    assert(claims@.take(claims@.len() as int) =~= claims@);
    let ghost tc = |t: ClaimType| type_count(claims@, t);
    let ghost tr = |t: ClaimType| type_rank(t);
    let mut types: Vec<(ClaimType, usize)> = Vec::new();
    let mut k: usize = 0;
    while k < 8
        invariant
            k <= 8,
            by_type@.len() == 8,
            forall|t: ClaimType| #[trigger] by_type@[type_rank(t)] == type_count(claims@, t),
            forall|j: int| 0 <= j < types@.len() ==> (#[trigger] types@[j]).1 == type_count(claims@, types@[j].0) && types@[j].1 > 0 && type_rank(types@[j].0) < k,
            forall|j: int, l: int| 0 <= j < l < types@.len() ==> type_rank(#[trigger] types@[j].0) < type_rank(#[trigger] types@[l].0),
            forall|x: ClaimType| #[trigger] type_count(claims@, x) > 0 && type_rank(x) < k ==> exists|j: int| 0 <= j < types@.len() && types@[j].0 == x,
        decreases 8 - k,
    {
        let t = type_at(k);
        assert(by_type@[type_rank(t)] == type_count(claims@, t));
        let ghost before = types@;
        if by_type[k] > 0 {
            types.push((t, by_type[k]));
        }
        proof {
            assert forall|x: ClaimType| #[trigger] type_count(claims@, x) > 0 && type_rank(x) < k + 1 implies exists|j: int| 0 <= j < types@.len() && types@[j].0 == x by {
                if type_rank(x) == k {
                    assert(x == t);
                    assert(types@[types@.len() - 1].0 == x);
                } else {
                    let j = choose|j: int| 0 <= j < before.len() && before[j].0 == x;
                    assert(types@[j] == before[j]);
                }
            }
        }
        k = k + 1;
    }
    let mut prios: Vec<(ClaimPriority, usize)> = Vec::new();
    let mut k: usize = 0;
    while k < 4
        invariant
            k <= 4,
            by_priority@.len() == 4,
            forall|p: ClaimPriority| #[trigger] by_priority@[priority_rank(p)] == priority_count(claims@, p),
            forall|j: int| 0 <= j < prios@.len() ==> (#[trigger] prios@[j]).1 == priority_count(claims@, prios@[j].0) && prios@[j].1 > 0 && priority_rank(prios@[j].0) < k,
            forall|j: int, l: int| 0 <= j < l < prios@.len() ==> priority_rank(#[trigger] prios@[j].0) < priority_rank(#[trigger] prios@[l].0),
            forall|x: ClaimPriority| #[trigger] priority_count(claims@, x) > 0 && priority_rank(x) < k ==> exists|j: int| 0 <= j < prios@.len() && prios@[j].0 == x,
        decreases 4 - k,
    {
        let p = priority_at(k);
        assert(by_priority@[priority_rank(p)] == priority_count(claims@, p));
        let ghost before = prios@;
        if by_priority[k] > 0 {
            prios.push((p, by_priority[k]));
        }
        proof {
            assert forall|x: ClaimPriority| #[trigger] priority_count(claims@, x) > 0 && priority_rank(x) < k + 1 implies exists|j: int| 0 <= j < prios@.len() && prios@[j].0 == x by {
                if priority_rank(x) == k {
                    assert(x == p);
                    assert(prios@[prios@.len() - 1].0 == x);
                } else {
                    let j = choose|j: int| 0 <= j < before.len() && before[j].0 == x;
                    assert(prios@[j] == before[j]);
                }
            }
        }
        k = k + 1;
    }
    ClaimsSummary {
        total_claims: claims.len(),
        claims_by_type: types,
        claims_by_priority: prios,
        high_confidence_claims: high,
        verification_needed: verify,
    }
}

/// Every claim has exactly one type and one priority: the counts by type,
/// and the counts by priority, add up to the number of claims.
pub proof fn law_claim_counts_partition(claims: Seq<ClaimFacts>)
    ensures
        type_count(claims, ClaimType::Feature) + type_count(claims, ClaimType::Capability)
            + type_count(claims, ClaimType::Integration) + type_count(claims, ClaimType::Technology)
            + type_count(claims, ClaimType::Performance) + type_count(claims, ClaimType::Security)
            + type_count(claims, ClaimType::Deployment) + type_count(claims, ClaimType::Api) == claims.len(),
        priority_count(claims, ClaimPriority::Critical) + priority_count(claims, ClaimPriority::High)
            + priority_count(claims, ClaimPriority::Medium) + priority_count(claims, ClaimPriority::Low)
            == claims.len(),
    decreases claims.len(),
{
    if claims.len() > 0 {
        law_claim_counts_partition(claims.drop_last());
    }
}

/// A security claim is critical whatever its context; a deployment claim
/// is never more than low.
pub proof fn law_claim_priority_by_type(context: Seq<char>)
    ensures
        claim_priority(ClaimType::Security, lowercase(context)) == ClaimPriority::Critical,
        claim_priority(ClaimType::Deployment, lowercase(context)) == ClaimPriority::Low,
{
}

/// What a line of documentation claims, apart from how confident the claim
/// is: its kind, description, line number (from 1), priority, keywords,
/// context and the line itself as evidence.
pub struct ClaimCandidate {
    pub claim_type: ClaimType,
    pub description: String,
    pub line_number: usize,
    pub priority: ClaimPriority,
    pub keywords: Vec<String>,
    pub context: String,
    pub evidence: Vec<String>,
}

/// The description of a claim: the text of the first capture group of the
/// match when there is one, else the whole line, trimmed either way.
pub open spec fn claim_description(group1: Option<Seq<char>>, line: Seq<char>) -> Seq<char> {
    match group1 {
        Some(g) => trim(g),
        None => trim(line),
    }
}

/// The claim of kind `claim_type` on line `line_num` of `lines`, given the
/// first capture group `group1` of the pattern's match on that line.
pub fn claim_from_match(
    claim_type: ClaimType,
    group1: Option<String>,
    lines: &Vec<String>,
    line_num: usize,
    window: usize,
    keys: &Vec<String>,
) -> (c: ClaimCandidate)
    requires
        line_num < lines@.len(),
        line_num + window + 1 <= usize::MAX,
    ensures
        c.claim_type == claim_type,
        c.description@ == claim_description(opt_view(group1), lines@[line_num as int]@),
        c.line_number == line_num + 1,
        c.context@ == claim_context(string_views(lines@), line_num as int, window as int),
        c.priority == claim_priority(claim_type, lowercase(c.context@)),
        string_views(c.keywords@) == keywords_among(words(c.description@), string_views(keys@)),
        string_views(c.evidence@) == seq![trim(lines@[line_num as int]@)],
{
    let line = chars_of(lines[line_num].as_str());
    let description = match group1 {
        Some(g) => trimmed_string(&chars_of(g.as_str())),
        None => trimmed_string(&line),
    };
    let context = extract_context(lines, line_num, window);
    let keywords = extract_keywords(description.as_str(), keys);
    let priority = ClaimPriority::from_context(&claim_type, context.as_str());
    let mut evidence: Vec<String> = Vec::new();
    evidence.push(trimmed_string(&line));
    assert(string_views(evidence@) =~= seq![trim(lines@[line_num as int]@)]);
    ClaimCandidate {
        claim_type,
        description,
        line_number: line_num + 1,
        priority,
        keywords,
        context,
        evidence,
    }
}

/// The view of an optional string.
pub open spec fn opt_view(o: Option<String>) -> Option<Seq<char>> {
    match o {
        Some(s) => Some(s@),
        None => None,
    }
}

/// The claim of kind `claim_type` that the regular expression `pattern`
/// finds on line `line_num` of `lines`: one exactly when the pattern matches
/// the line, described by its first capture group (see `claim_from_match`).
pub fn claim_from_line(
    claim_type: ClaimType,
    pattern: &str,
    lines: &Vec<String>,
    line_num: usize,
    window: usize,
    keys: &Vec<String>,
) -> (r: Option<ClaimCandidate>)
    requires
        line_num < lines@.len(),
        line_num + window + 1 <= usize::MAX,
    ensures
        r is Some <==> regex_search(pattern@, lines@[line_num as int]@) == Some(true),
        r matches Some(c) ==> {
            &&& c.claim_type == claim_type
            &&& c.description@ == claim_description(regex_group1(pattern@, lines@[line_num as int]@), lines@[line_num as int]@)
            &&& c.line_number == line_num + 1
            &&& c.context@ == claim_context(string_views(lines@), line_num as int, window as int)
            &&& c.priority == claim_priority(claim_type, lowercase(c.context@))
            &&& string_views(c.keywords@) == keywords_among(words(c.description@), string_views(keys@))
            &&& string_views(c.evidence@) == seq![trim(lines@[line_num as int]@)]
        },
{
    match search(pattern, lines[line_num].as_str()) {
        Some(true) => {
            let g = first_group(pattern, lines[line_num].as_str());
            assert(opt_view(g) == regex_group1(pattern@, lines@[line_num as int]@));
            Some(claim_from_match(claim_type, g, lines, line_num, window, keys))
        },
        _ => None,
    }
}

/// The first claim pattern, kind by kind, that is no regular expression the
/// regex engine accepts; `None` when all of them compile.
pub fn first_invalid_pattern(patterns: &Vec<(ClaimType, Vec<String>)>) -> (r: Option<String>)
    ensures
        r is None <==> forall|i: int, j: int|
            0 <= i < patterns@.len() && 0 <= j < patterns@[i].1@.len() ==> regex_valid(
                #[trigger] patterns@[i].1@[j]@,
            ),
        r matches Some(p) ==> !regex_valid(p@) && exists|i: int, j: int|
            0 <= i < patterns@.len() && 0 <= j < patterns@[i].1@.len() && #[trigger] patterns@[i].1@[j]@ == p@,
{
    let mut i: usize = 0;
    while i < patterns.len()
        invariant
            i <= patterns@.len(),
            forall|a: int, b: int|
                0 <= a < i && 0 <= b < patterns@[a].1@.len() ==> regex_valid(#[trigger] patterns@[a].1@[b]@),
        decreases patterns@.len() - i,
    {
        let ps = &patterns[i].1;
        let mut j: usize = 0;
        while j < ps.len()
            invariant
                i < patterns@.len(),
                ps == &patterns@[i as int].1,
                j <= ps@.len(),
                forall|b: int| 0 <= b < j ==> regex_valid(#[trigger] ps@[b]@),
            decreases ps@.len() - j,
        {
            if !is_valid_regex(ps[j].as_str()) {
                return Some(ps[j].clone());
            }
            j = j + 1;
        }
        i = i + 1;
    }
    None
}


/// The priority of a feature claim follows the topics its context names,
/// matched on the lowercased context: authentication or user management make
/// it critical; otherwise payments or notifications make it high; otherwise
/// it is medium.
pub proof fn law_feature_priority_by_topic(low: Seq<char>)
    ensures
        crate::text::contains(low, "authentication"@) || crate::text::contains(low, "user management"@)
            ==> claim_priority(ClaimType::Feature, low) == ClaimPriority::Critical,
        !crate::text::contains(low, "authentication"@) && !crate::text::contains(low, "user management"@)
            && crate::text::contains(low, "notification"@) ==> claim_priority(ClaimType::Feature, low) == ClaimPriority::High,
        !crate::text::contains(low, "authentication"@) && !crate::text::contains(low, "user management"@)
            && crate::text::contains(low, "payment"@) ==> claim_priority(ClaimType::Feature, low) == ClaimPriority::High,
        !crate::text::contains(low, "authentication"@) && !crate::text::contains(low, "user management"@)
            && !crate::text::contains(low, "payment"@) && !crate::text::contains(low, "notification"@)
            ==> claim_priority(ClaimType::Feature, low) == ClaimPriority::Medium,
{
}

/// The priority of an API claim: authentication or authorization make it
/// critical; otherwise CRUD or REST make it high; otherwise it is medium.
/// Security claims are always critical, integrations high, deployments low,
/// and performance, technology and capability claims medium.
pub proof fn law_api_and_fixed_priorities(low: Seq<char>)
    ensures
        crate::text::contains(low, "authentication"@) || crate::text::contains(low, "authorization"@)
            ==> claim_priority(ClaimType::Api, low) == ClaimPriority::Critical,
        !crate::text::contains(low, "authentication"@) && !crate::text::contains(low, "authorization"@)
            && (crate::text::contains(low, "crud"@) || crate::text::contains(low, "rest"@))
            ==> claim_priority(ClaimType::Api, low) == ClaimPriority::High,
        !crate::text::contains(low, "authentication"@) && !crate::text::contains(low, "authorization"@)
            && !crate::text::contains(low, "crud"@) && !crate::text::contains(low, "rest"@)
            ==> claim_priority(ClaimType::Api, low) == ClaimPriority::Medium,
        claim_priority(ClaimType::Security, low) == ClaimPriority::Critical,
        claim_priority(ClaimType::Integration, low) == ClaimPriority::High,
        claim_priority(ClaimType::Deployment, low) == ClaimPriority::Low,
        claim_priority(ClaimType::Performance, low) == ClaimPriority::Medium,
        claim_priority(ClaimType::Technology, low) == ClaimPriority::Medium,
        claim_priority(ClaimType::Capability, low) == ClaimPriority::Medium,
{
}
} // verus!
