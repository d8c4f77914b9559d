//! Character-level text primitives shared by the analyzers.
//!
//! Every function here works on the character view of a string (`s@`, a
//! `Seq<char>`) and is specified by a spec function of this module that says
//! what the corresponding `str` operation of Rust computes.
use vstd::prelude::*;

verus! {

/// The Unicode `White_Space` property, the set that `char::is_whitespace` tests.
pub open spec fn is_white_space(c: char) -> bool {
    let u = c as u32;
    ||| 0x09 <= u <= 0x0d
    ||| u == 0x20
    ||| u == 0x85
    ||| u == 0xa0
    ||| u == 0x1680
    ||| 0x2000 <= u <= 0x200a
    ||| u == 0x2028
    ||| u == 0x2029
    ||| u == 0x202f
    ||| u == 0x205f
    ||| u == 0x3000
}

/// Whether `c` has the Unicode `White_Space` property (as
/// `char::is_whitespace` tests).
fn char_is_whitespace(c: char) -> (r: bool)
    ensures
        r == is_white_space(c),
{
    let u = c as u32;
    (0x09 <= u && u <= 0x0d) || u == 0x20 || u == 0x85 || u == 0xa0 || u == 0x1680 || (0x2000 <= u
        && u <= 0x200a) || u == 0x2028 || u == 0x2029 || u == 0x202f || u == 0x205f || u == 0x3000
}

/// The characters of `s`, in order.
pub fn chars_of(s: &str) -> (v: Vec<char>)
    ensures
        v@ == s@,
{
    let mut v: Vec<char> = Vec::new();
    for c in it: s.chars()
        invariant
            v@ == it.seq().take(it.index() as int),
    {
        v.push(c);
    }
    v
}


/// `pat` occurs in `s` starting at position `i`.
pub open spec fn matches_at(s: Seq<char>, pat: Seq<char>, i: int) -> bool {
    &&& 0 <= i
    &&& i + pat.len() <= s.len()
    &&& s.subrange(i, i + pat.len()) == pat
}

/// The first position at or after `i` where `pat` occurs in `s`.
pub open spec fn find_from(s: Seq<char>, pat: Seq<char>, i: int) -> Option<int>
    decreases s.len() + 1 - i,
{
    if i < 0 || i + pat.len() > s.len() {
        None
    } else if matches_at(s, pat, i) {
        Some(i)
    } else {
        find_from(s, pat, i + 1)
    }
}

/// `str::find`: the first position where `pat` occurs in `s`.
pub open spec fn find(s: Seq<char>, pat: Seq<char>) -> Option<int> {
    find_from(s, pat, 0)
}

/// `str::contains`: `pat` occurs somewhere in `s`.
pub open spec fn contains(s: Seq<char>, pat: Seq<char>) -> bool {
    exists|i: int| matches_at(s, pat, i)
}

/// `find_from` gives the first occurrence at or after `i`, and `None` only
/// when there is none.
pub proof fn lemma_find_from(s: Seq<char>, pat: Seq<char>, i: int)
    requires
        0 <= i,
    ensures
        find_from(s, pat, i) matches Some(k) ==> {
            &&& i <= k
            &&& matches_at(s, pat, k)
            &&& forall|j: int| i <= j < k ==> !matches_at(s, pat, j)
        },
        find_from(s, pat, i) is None ==> forall|j: int| i <= j ==> !matches_at(s, pat, j),
    decreases s.len() + 1 - i,
{
    if i + pat.len() > s.len() {
    } else if matches_at(s, pat, i) {
    } else {
        lemma_find_from(s, pat, i + 1);
    }
}

/// `find` is the first occurrence, and is `None` exactly when `pat` does not occur.
pub proof fn lemma_find(s: Seq<char>, pat: Seq<char>)
    ensures
        find(s, pat) matches Some(k) ==> {
            &&& matches_at(s, pat, k)
            &&& forall|j: int| 0 <= j < k ==> !matches_at(s, pat, j)
        },
        find(s, pat) is None <==> !contains(s, pat),
{
    lemma_find_from(s, pat, 0);
    if find(s, pat) is None {
        assert forall|j: int| !matches_at(s, pat, j) by {
            if 0 <= j {
            }
        }
    }
}

/// Whether `pat` occurs in `s` at position `i` (exec).
fn match_here(s: &Vec<char>, pat: &Vec<char>, i: usize) -> (r: bool)
    requires
        i + pat@.len() <= s@.len(),
    ensures
        r == matches_at(s@, pat@, i as int),
{
    let n = s.len();
    let mut k: usize = 0;
    while k < pat.len()
        invariant
            n == s@.len(),
            i + pat@.len() <= s@.len(),
            k <= pat@.len(),
            forall|j: int| 0 <= j < k ==> s@[i + j] == pat@[j],
        decreases pat@.len() - k,
    {
        assert(i + k < s@.len());
        if s[i + k] != pat[k] {
            proof {
                assert(s@.subrange(i as int, i + pat@.len())[k as int] != pat@[k as int]);
            }
            return false;
        }
        k = k + 1;
    }
    assert(s@.subrange(i as int, i + pat@.len()) =~= pat@);
    true
}

/// The first position at or after `from` where `pat` occurs in `s`.
pub fn find_chars_from(s: &Vec<char>, pat: &Vec<char>, from: usize) -> (r: Option<usize>)
    ensures
        r matches Some(k) ==> find_from(s@, pat@, from as int) == Some(k as int),
        r is None ==> find_from(s@, pat@, from as int) is None,
{
    if pat.len() > s.len() {
        proof { lemma_find_from(s@, pat@, from as int); }
        return None;
    }
    let last = s.len() - pat.len();
    let mut i = from;
    while i <= last
        invariant
            last + pat@.len() == s@.len(),
            from <= i,
            find_from(s@, pat@, i as int) == find_from(s@, pat@, from as int),
        decreases last + 1 - i,
    {
        if match_here(s, pat, i) {
            return Some(i);
        }
        if i == last {
            assert(find_from(s@, pat@, i + 1) is None);
            return None;
        }
        i = i + 1;
    }
    None
}

/// `str::find` on characters: the first position where `pat` occurs in `s`.
pub fn find_chars(s: &Vec<char>, pat: &Vec<char>) -> (r: Option<usize>)
    ensures
        r matches Some(k) ==> find(s@, pat@) == Some(k as int),
        r is None ==> find(s@, pat@) is None,
{
    find_chars_from(s, pat, 0)
}

/// `str::find` with a literal pattern.
pub fn find_str(s: &Vec<char>, pat: &str) -> (r: Option<usize>)
    ensures
        r matches Some(k) ==> find(s@, pat@) == Some(k as int),
        r is None ==> find(s@, pat@) is None,
{
    let p = chars_of(pat);
    find_chars(s, &p)
}

/// `str::contains` with a literal pattern.
pub fn contains_str(s: &Vec<char>, pat: &str) -> (r: bool)
    ensures
        r == contains(s@, pat@),
{
    proof { lemma_find(s@, pat@); }
    find_str(s, pat).is_some()
}


/// The character classes that the analyzers strip from the ends of text.
pub enum CharClass {
    /// `char::is_whitespace`
    WhiteSpace,
    /// a single or a double quote
    Quote,
    /// a backtick
    Backtick,
    /// a semicolon
    Semicolon,
    /// `char::is_ascii_punctuation`
    AsciiPunctuation,
}

/// `char::is_ascii_punctuation`.
pub open spec fn is_ascii_punct(c: char) -> bool {
    let u = c as u32;
    ||| 0x21 <= u <= 0x2f
    ||| 0x3a <= u <= 0x40
    ||| 0x5b <= u <= 0x60
    ||| 0x7b <= u <= 0x7e
}

/// Whether `c` belongs to the class `k`.
pub open spec fn in_class(k: CharClass, c: char) -> bool {
    match k {
        CharClass::WhiteSpace => is_white_space(c),
        CharClass::Quote => c == '"' || c == '\'',
        CharClass::Backtick => c == '`',
        CharClass::Semicolon => c == ';',
        CharClass::AsciiPunctuation => is_ascii_punct(c),
    }
}

fn class_has(k: &CharClass, c: char) -> (r: bool)
    ensures
        r == in_class(*k, c),
{
    match k {
        CharClass::WhiteSpace => char_is_whitespace(c),
        CharClass::Quote => c == '"' || c == '\'',
        CharClass::Backtick => c == '`',
        CharClass::Semicolon => c == ';',
        CharClass::AsciiPunctuation => {
            let u = c as u32;
            (0x21 <= u && u <= 0x2f) || (0x3a <= u && u <= 0x40) || (0x5b <= u && u <= 0x60)
                || (0x7b <= u && u <= 0x7e)
        },
    }
}

/// `trim_start_matches` with a class: drop the leading characters of the class.
pub open spec fn trim_left(s: Seq<char>, k: CharClass) -> Seq<char>
    decreases s.len(),
{
    if s.len() > 0 && in_class(k, s[0]) {
        trim_left(s.drop_first(), k)
    } else {
        s
    }
}

/// `trim_end_matches` with a class: drop the trailing characters of the class.
pub open spec fn trim_right(s: Seq<char>, k: CharClass) -> Seq<char>
    decreases s.len(),
{
    if s.len() > 0 && in_class(k, s.last()) {
        trim_right(s.drop_last(), k)
    } else {
        s
    }
}

/// `trim_matches` with a class: drop the class from both ends.
pub open spec fn trim_both(s: Seq<char>, k: CharClass) -> Seq<char> {
    trim_right(trim_left(s, k), k)
}

/// `str::trim`.
pub open spec fn trim(s: Seq<char>) -> Seq<char> {
    trim_both(s, CharClass::WhiteSpace)
}

/// The part of `s` between `a` and `b` with the leading characters of class
/// `k` removed, as a range.
pub fn trim_left_range(s: &Vec<char>, a: usize, b: usize, k: &CharClass) -> (r: usize)
    requires
        a <= b <= s@.len(),
    ensures
        a <= r <= b,
        s@.subrange(r as int, b as int) == trim_left(s@.subrange(a as int, b as int), *k),
{
    let mut i = a;
    while i < b
        invariant
            a <= i <= b <= s@.len(),
            trim_left(s@.subrange(a as int, b as int), *k) == trim_left(
                s@.subrange(i as int, b as int),
                *k,
            ),
        decreases b - i,
    {
        if !class_has(k, s[i]) {
            return i;
        }
        assert(s@.subrange(i as int, b as int).drop_first() =~= s@.subrange(i + 1, b as int));
        i = i + 1;
    }
    i
}

/// The part of `s` between `a` and `b` with the trailing characters of class
/// `k` removed, as a range.
pub fn trim_right_range(s: &Vec<char>, a: usize, b: usize, k: &CharClass) -> (r: usize)
    requires
        a <= b <= s@.len(),
    ensures
        a <= r <= b,
        s@.subrange(a as int, r as int) == trim_right(s@.subrange(a as int, b as int), *k),
{
    let mut j = b;
    while j > a
        invariant
            a <= j <= b <= s@.len(),
            trim_right(s@.subrange(a as int, b as int), *k) == trim_right(
                s@.subrange(a as int, j as int),
                *k,
            ),
        decreases j - a,
    {
        if !class_has(k, s[j - 1]) {
            return j;
        }
        assert(s@.subrange(a as int, j as int).drop_last() =~= s@.subrange(a as int, j - 1));
        j = j - 1;
    }
    j
}

/// Both ends of `s[a..b]` stripped of class `k`, as a range.
pub fn trim_range(s: &Vec<char>, a: usize, b: usize, k: &CharClass) -> (r: (usize, usize))
    requires
        a <= b <= s@.len(),
    ensures
        a <= r.0 <= r.1 <= b,
        s@.subrange(r.0 as int, r.1 as int) == trim_both(s@.subrange(a as int, b as int), *k),
{
    let l = trim_left_range(s, a, b, k);
    let r = trim_right_range(s, l, b, k);
    (l, r)
}

/// A new string holding the characters `a..b` of `s`.
pub fn slice_string(s: &str, a: usize, b: usize) -> (r: String)
    requires
        a <= b <= s@.len(),
    ensures
        r@ == s@.subrange(a as int, b as int),
{
    s.substring_char(a, b).to_owned()
}

/// A new string holding `s`.
pub fn owned(s: &str) -> (r: String)
    ensures
        r@ == s@,
{
    s.to_owned()
}

/// A new string holding the characters `v[a..b]`.
pub fn string_from_chars(v: &Vec<char>, a: usize, b: usize) -> (r: String)
    requires
        a <= b <= v@.len(),
    ensures
        r@ == v@.subrange(a as int, b as int),
{
    let mut r = String::new();
    let mut i = a;
    while i < b
        invariant
            a <= i <= b <= v@.len(),
            r@ == v@.subrange(a as int, i as int),
        decreases b - i,
    {
        push_char(&mut r, v[i]);
        assert(v@.subrange(a as int, i + 1) =~= v@.subrange(a as int, i as int).push(v@[i as int]));
        i = i + 1;
    }
    r
}

/// `String::push`: appends one character.
#[verifier::external_body]
fn push_char(s: &mut String, c: char)
    ensures
        final(s)@ == old(s)@.push(c),
{
    s.push(c);
}

/// The first position at or after `i` that holds `c`.
pub open spec fn char_index_from(s: Seq<char>, c: char, i: int) -> Option<int>
    decreases s.len() - i,
{
    if i < 0 || i >= s.len() {
        None
    } else if s[i] == c {
        Some(i)
    } else {
        char_index_from(s, c, i + 1)
    }
}

/// `char_index_from` gives the first position holding `c`, or `None` if
/// there is none.
pub proof fn lemma_char_index_from(s: Seq<char>, c: char, i: int)
    requires
        0 <= i,
    ensures
        char_index_from(s, c, i) matches Some(k) ==> {
            &&& i <= k < s.len()
            &&& s[k] == c
            &&& forall|j: int| i <= j < k ==> s[j] != c
        },
        char_index_from(s, c, i) is None ==> forall|j: int| i <= j < s.len() ==> s[j] != c,
    decreases s.len() - i,
{
    if i < s.len() && s[i] != c {
        lemma_char_index_from(s, c, i + 1);
    }
}

/// The first position at or after `from` (and before `to`) holding `c`.
pub fn char_index(s: &Vec<char>, c: char, from: usize, to: usize) -> (r: Option<usize>)
    requires
        from <= to <= s@.len(),
    ensures
        r matches Some(k) ==> char_index_from(s@.subrange(0, to as int), c, from as int) == Some(
            k as int,
        ),
        r is None ==> char_index_from(s@.subrange(0, to as int), c, from as int) is None,
{
    let ghost t = s@.subrange(0, to as int);
    let mut i = from;
    while i < to
        invariant
            from <= i <= to <= s@.len(),
            t == s@.subrange(0, to as int),
            char_index_from(t, c, i as int) == char_index_from(t, c, from as int),
        decreases to - i,
    {
        if s[i] == c {
            return Some(i);
        }
        i = i + 1;
    }
    None
}

/// `strip_suffix('\r')` as `str::lines` applies it.
pub open spec fn strip_cr(l: Seq<char>) -> Seq<char> {
    if l.len() > 0 && l.last() == '\r' {
        l.drop_last()
    } else {
        l
    }
}

/// The lines of `s[i..]`, as `str::lines` gives them: split at `\n`, a `\r`
/// before the `\n` dropped, and no empty line after a final line ending.
pub open spec fn lines_from(s: Seq<char>, i: int) -> Seq<Seq<char>>
    decreases s.len() - i,
{
    if i < 0 || i >= s.len() {
        seq![]
    } else {
        match char_index_from(s, '\n', i) {
            None => seq![s.subrange(i, s.len() as int)],
            Some(k) => {
                proof {
                    lemma_char_index_from(s, '\n', i);
                }
                seq![strip_cr(s.subrange(i, k))] + lines_from(s, k + 1)
            },
        }
    }
}

/// `str::lines`.
pub open spec fn lines(s: Seq<char>) -> Seq<Seq<char>> {
    lines_from(s, 0)
}

/// The ranges of the lines of `s`, in the sense of `str::lines`.
pub fn line_ranges(s: &Vec<char>) -> (r: Vec<(usize, usize)>)
    ensures
        r@.len() == lines(s@).len(),
        forall|k: int|
            0 <= k < r@.len() ==> {
                &&& (#[trigger] r@[k]).0 <= r@[k].1 <= s@.len()
                &&& s@.subrange(r@[k].0 as int, r@[k].1 as int) == lines(s@)[k]
            },
{
    let n = s.len();
    let mut r: Vec<(usize, usize)> = Vec::new();
    let mut pos: usize = 0;
    assert(s@.subrange(0, n as int) =~= s@);
    while pos < n
        invariant
            n == s@.len(),
            pos <= n,
            lines(s@) == r@.map_values(|p: (usize, usize)| s@.subrange(p.0 as int, p.1 as int))
                + lines_from(s@, pos as int),
            forall|k: int| 0 <= k < r@.len() ==> (#[trigger] r@[k]).0 <= r@[k].1 <= s@.len(),
        decreases n - pos,
    {
        let ghost before = r@;
        proof {
            assert(s@.subrange(0, n as int) =~= s@);
            lemma_char_index_from(s@, '\n', pos as int);
        }
        match char_index(s, '\n', pos, n) {
            None => {
                r.push((pos, n));
                assert(r@.map_values(|p: (usize, usize)| s@.subrange(p.0 as int, p.1 as int))
                    =~= before.map_values(|p: (usize, usize)| s@.subrange(p.0 as int, p.1 as int))
                    + lines_from(s@, pos as int));
                pos = n;
            },
            Some(k) => {
                let end = if k > pos && s[k - 1] == '\r' {
                    k - 1
                } else {
                    k
                };
                assert(s@.subrange(pos as int, end as int) == strip_cr(s@.subrange(pos as int, k as int))) by {
                    if k > pos && s@[k - 1] == '\r' {
                        assert(s@.subrange(pos as int, k as int).drop_last() =~= s@.subrange(pos as int, end as int));
                    }
                }
                r.push((pos, end));
                assert(r@.map_values(|p: (usize, usize)| s@.subrange(p.0 as int, p.1 as int))
                    =~= before.map_values(|p: (usize, usize)| s@.subrange(p.0 as int, p.1 as int))
                    + seq![strip_cr(s@.subrange(pos as int, k as int))]);
                pos = k + 1;
            },
        }
    }
    assert(lines_from(s@, pos as int) =~= Seq::<Seq<char>>::empty());
    proof {
        let m = r@.map_values(|p: (usize, usize)| s@.subrange(p.0 as int, p.1 as int));
        assert(lines(s@) =~= m);
        assert forall|k: int| 0 <= k < r@.len() implies s@.subrange((#[trigger] r@[k]).0 as int, r@[k].1 as int) == lines(s@)[k] by {
            assert(m[k] == s@.subrange(r@[k].0 as int, r@[k].1 as int));
        }
    }
    r
}


/// The pieces of `s[i..]` between occurrences of `c`, as `str::split` with a
/// character gives them (always at least one piece).
pub open spec fn split_from(s: Seq<char>, c: char, i: int) -> Seq<Seq<char>>
    decreases s.len() + 1 - i,
{
    if i < 0 || i > s.len() {
        seq![]
    } else {
        match char_index_from(s, c, i) {
            None => seq![s.subrange(i, s.len() as int)],
            Some(k) => {
                proof {
                    lemma_char_index_from(s, c, i);
                }
                seq![s.subrange(i, k)] + split_from(s, c, k + 1)
            },
        }
    }
}

/// `str::split` with a character pattern.
pub open spec fn split(s: Seq<char>, c: char) -> Seq<Seq<char>> {
    split_from(s, c, 0)
}

/// The ranges of the pieces of `s[a..b]` split at `c`.
pub fn split_ranges(s: &Vec<char>, a: usize, b: usize, c: char) -> (r: Vec<(usize, usize)>)
    requires
        a <= b <= s@.len(),
    ensures
        r@.len() == split(s@.subrange(a as int, b as int), c).len(),
        forall|k: int|
            0 <= k < r@.len() ==> {
                &&& a <= (#[trigger] r@[k]).0 <= r@[k].1 <= b
                &&& s@.subrange(r@[k].0 as int, r@[k].1 as int) == split(
                    s@.subrange(a as int, b as int),
                    c,
                )[k]
            },
{
    let ghost t = s@.subrange(a as int, b as int);
    let mut r: Vec<(usize, usize)> = Vec::new();
    let mut pos: usize = a;
    loop
        invariant_except_break
            split(t, c) == r@.map_values(|p: (usize, usize)| s@.subrange(p.0 as int, p.1 as int))
                + split_from(t, c, pos - a),
        invariant
            a <= pos <= b <= s@.len(),
            t == s@.subrange(a as int, b as int),
            forall|k: int| 0 <= k < r@.len() ==> a <= (#[trigger] r@[k]).0 <= r@[k].1 <= b,
        ensures
            split(t, c) == r@.map_values(|p: (usize, usize)| s@.subrange(p.0 as int, p.1 as int)),
            forall|k: int| 0 <= k < r@.len() ==> a <= (#[trigger] r@[k]).0 <= r@[k].1 <= b,
        decreases b - pos,
    {
        let ghost before = r@;
        proof {
            lemma_char_index_from(t, c, pos - a);
        }
        let found = char_index(s, c, pos, b);
        proof {
            assert(s@.subrange(0, b as int).subrange(a as int, b as int) =~= t);
            lemma_char_index_shift(s@.subrange(0, b as int), a as int, c, pos as int);
        }
        match found {
            None => {
                r.push((pos, b));
                assert(s@.subrange(pos as int, b as int) =~= t.subrange(pos - a, t.len() as int));
                assert(r@.map_values(|p: (usize, usize)| s@.subrange(p.0 as int, p.1 as int))
                    =~= before.map_values(|p: (usize, usize)| s@.subrange(p.0 as int, p.1 as int))
                    + split_from(t, c, pos - a));
                break;
            },
            Some(k) => {
                r.push((pos, k));
                assert(s@.subrange(pos as int, k as int) =~= t.subrange(pos - a, k - a));
                assert(r@.map_values(|p: (usize, usize)| s@.subrange(p.0 as int, p.1 as int))
                    =~= before.map_values(|p: (usize, usize)| s@.subrange(p.0 as int, p.1 as int))
                    + seq![t.subrange(pos - a, k - a)]);
                pos = k + 1;
            },
        }
    }
    proof {
        let m = r@.map_values(|p: (usize, usize)| s@.subrange(p.0 as int, p.1 as int));
        assert forall|k: int| 0 <= k < r@.len() implies s@.subrange(
            (#[trigger] r@[k]).0 as int,
            r@[k].1 as int,
        ) == split(t, c)[k] by {
            assert(m[k] == s@.subrange(r@[k].0 as int, r@[k].1 as int));
        }
    }
    r
}

/// Searching `u[a..]` for `c` from absolute position `p` is searching `u`
/// from `p` and shifting the result by `a`.
pub proof fn lemma_char_index_shift(u: Seq<char>, a: int, c: char, p: int)
    requires
        0 <= a <= p <= u.len(),
    ensures
        char_index_from(u, c, p) matches Some(k) ==> char_index_from(u.subrange(a, u.len() as int), c, p - a)
            == Some(k - a),
        char_index_from(u, c, p) is None ==> char_index_from(u.subrange(a, u.len() as int), c, p - a) is None,
    decreases u.len() - p,
{
    let t = u.subrange(a, u.len() as int);
    if p < u.len() {
        assert(t[p - a] == u[p]);
        if u[p] != c {
            lemma_char_index_shift(u, a, c, p + 1);
        }
    }
}

/// `str::starts_with`.
pub open spec fn starts_with(s: Seq<char>, pat: Seq<char>) -> bool {
    pat.len() <= s.len() && s.subrange(0, pat.len() as int) == pat
}

/// Whether `s[a..b]` starts with `pat`.
pub fn starts_with_at(s: &Vec<char>, a: usize, b: usize, pat: &str) -> (r: bool)
    requires
        a <= b <= s@.len(),
    ensures
        r == starts_with(s@.subrange(a as int, b as int), pat@),
{
    let p = chars_of(pat);
    if p.len() > b - a {
        return false;
    }
    let ok = match_here(s, &p, a);
    assert(s@.subrange(a as int, b as int).subrange(0, p@.len() as int) =~= s@.subrange(
        a as int,
        a + p@.len(),
    ));
    ok
}

/// Whether `s[a..b]` contains `pat`.
pub fn contains_in(s: &Vec<char>, a: usize, b: usize, pat: &str) -> (r: bool)
    requires
        a <= b <= s@.len(),
    ensures
        r == contains(s@.subrange(a as int, b as int), pat@),
{
    let v = copy_range(s, a, b);
    contains_str(&v, pat)
}

/// The characters `s[a..b]` as a vector of their own.
pub fn copy_range(s: &Vec<char>, a: usize, b: usize) -> (v: Vec<char>)
    requires
        a <= b <= s@.len(),
    ensures
        v@ == s@.subrange(a as int, b as int),
{
    let mut v: Vec<char> = Vec::new();
    let mut i = a;
    while i < b
        invariant
            a <= i <= b <= s@.len(),
            v@ == s@.subrange(a as int, i as int),
        decreases b - i,
    {
        v.push(s[i]);
        assert(s@.subrange(a as int, i + 1) =~= s@.subrange(a as int, i as int).push(s@[i as int]));
        i = i + 1;
    }
    v
}

/// The parts of `parts` joined with `sep` between them (`[T]::join`).
pub open spec fn join(parts: Seq<Seq<char>>, sep: Seq<char>) -> Seq<char>
    decreases parts.len(),
{
    if parts.len() == 0 {
        seq![]
    } else if parts.len() == 1 {
        parts[0]
    } else {
        join(parts.drop_last(), sep) + sep + parts.last()
    }
}

/// Joins strings with a separator.
pub fn join_strings(parts: &Vec<String>, sep: &str) -> (r: String)
    ensures
        r@ == join(parts@.map_values(|p: String| p@), sep@),
{
    let ghost views = parts@.map_values(|p: String| p@);
    let mut r = String::new();
    let mut i: usize = 0;
    while i < parts.len()
        invariant
            i <= parts@.len(),
            views == parts@.map_values(|p: String| p@),
            r@ == join(views.take(i as int), sep@),
        decreases parts@.len() - i,
    {
        if i != 0 {
            r.append(sep);
        }
        r.append(parts[i].as_str());
        assert(views.take(i + 1).drop_last() =~= views.take(i as int));
        i = i + 1;
    }
    assert(views.take(parts@.len() as int) =~= views);
    r
}

/// Whether every character of `s` is ASCII.
pub open spec fn all_ascii(s: Seq<char>) -> bool {
    forall|i: int| 0 <= i < s.len() ==> (s[i] as u32) < 128
}

/// The ASCII lowercase of a character (other characters unchanged).
pub open spec fn ascii_lower(c: char) -> char {
    if 'A' <= c <= 'Z' {
        ((c as u32) + 32) as char
    } else {
        c
    }
}

/// The ASCII uppercase of a character (other characters unchanged).
pub open spec fn ascii_upper(c: char) -> char {
    if 'a' <= c <= 'z' {
        ((c as u32) - 32) as char
    } else {
        c
    }
}

/// What `str::to_lowercase` returns for `s`.
pub uninterp spec fn lowercase(s: Seq<char>) -> Seq<char>;

/// What `str::to_uppercase` returns for `s`.
pub uninterp spec fn uppercase(s: Seq<char>) -> Seq<char>;

/// `str::to_lowercase`. The Unicode lowercase mapping is named, not written
/// out; on ASCII text it is the ASCII lowercase of each character, which the
/// contract states.
#[verifier::external_body]
pub(crate) fn to_lower(s: &str) -> (r: String)
    ensures
        r@ == lowercase(s@),
        all_ascii(s@) ==> r@ == s@.map_values(|c: char| ascii_lower(c)),
{
    s.to_lowercase()
}

/// `str::to_uppercase`. The Unicode uppercase mapping is named, not written
/// out; on ASCII text it is the ASCII uppercase of each character, which the
/// contract states.
#[verifier::external_body]
pub(crate) fn to_upper(s: &str) -> (r: String)
    ensures
        r@ == uppercase(s@),
        all_ascii(s@) ==> r@ == s@.map_values(|c: char| ascii_upper(c)),
{
    s.to_uppercase()
}

/// The characters of the lowercase of `s`.
pub fn lower_chars(s: &str) -> (v: Vec<char>)
    ensures
        v@ == lowercase(s@),
{
    let l = to_lower(s);
    chars_of(l.as_str())
}


/// The first position at or after `i` whose character is one of `set`.
pub open spec fn index_of_any_from(s: Seq<char>, set: Seq<char>, i: int) -> Option<int>
    decreases s.len() - i,
{
    if i < 0 || i >= s.len() {
        None
    } else if set.contains(s[i]) {
        Some(i)
    } else {
        index_of_any_from(s, set, i + 1)
    }
}

/// `str::find` with a character predicate that accepts the characters of `set`.
pub open spec fn index_of_any(s: Seq<char>, set: Seq<char>) -> Option<int> {
    index_of_any_from(s, set, 0)
}

/// `index_of_any_from` lies within the string.
pub proof fn lemma_index_of_any_from(s: Seq<char>, set: Seq<char>, i: int)
    requires
        0 <= i,
    ensures
        index_of_any_from(s, set, i) matches Some(k) ==> i <= k < s.len(),
    decreases s.len() - i,
{
    if i < s.len() && !set.contains(s[i]) {
        lemma_index_of_any_from(s, set, i + 1);
    }
}

fn set_has(set: &Vec<char>, c: char) -> (r: bool)
    ensures
        r == set@.contains(c),
{
    let mut i: usize = 0;
    while i < set.len()
        invariant
            i <= set@.len(),
            forall|j: int| 0 <= j < i ==> set@[j] != c,
        decreases set@.len() - i,
    {
        if set[i] == c {
            return true;
        }
        i = i + 1;
    }
    false
}

/// The first position of `s` holding one of the characters of `set`.
pub fn index_of_any_exec(s: &Vec<char>, set: &Vec<char>) -> (r: Option<usize>)
    ensures
        r matches Some(k) ==> index_of_any(s@, set@) == Some(k as int) && k < s@.len(),
        r is None ==> index_of_any(s@, set@) is None,
{
    let mut i: usize = 0;
    while i < s.len()
        invariant
            i <= s@.len(),
            index_of_any_from(s@, set@, i as int) == index_of_any(s@, set@),
        decreases s@.len() - i,
    {
        if set_has(set, s[i]) {
            return Some(i);
        }
        i = i + 1;
    }
    None
}

/// What `char::to_uppercase` yields for `c`, collected into a string.
pub uninterp spec fn char_uppercase(c: char) -> Seq<char>;

/// `char::to_uppercase`, collected into a string. The Unicode mapping is
/// named, not written out; for an ASCII character it is the ASCII uppercase,
/// which the contract states.
#[verifier::external_body]
pub(crate) fn char_to_upper(c: char) -> (r: String)
    ensures
        r@ == char_uppercase(c),
        (c as u32) < 128 ==> r@ == seq![ascii_upper(c)],
{
    c.to_uppercase().collect::<String>()
}


/// The first position at or after `i` that is not white space (or the end).
pub open spec fn skip_ws(s: Seq<char>, i: int) -> int
    decreases s.len() - i,
{
    if i < 0 || i >= s.len() || !is_white_space(s[i]) {
        i
    } else {
        skip_ws(s, i + 1)
    }
}

/// The first position at or after `i` that is white space (or the end).
pub open spec fn skip_word(s: Seq<char>, i: int) -> int
    decreases s.len() - i,
{
    if i < 0 || i >= s.len() || is_white_space(s[i]) {
        i
    } else {
        skip_word(s, i + 1)
    }
}

pub proof fn lemma_skip_ws(s: Seq<char>, i: int)
    requires
        0 <= i <= s.len(),
    ensures
        i <= skip_ws(s, i) <= s.len(),
        skip_ws(s, i) < s.len() ==> !is_white_space(s[skip_ws(s, i)]),
    decreases s.len() - i,
{
    if i < s.len() && is_white_space(s[i]) {
        lemma_skip_ws(s, i + 1);
    }
}

pub proof fn lemma_skip_word(s: Seq<char>, i: int)
    requires
        0 <= i <= s.len(),
    ensures
        i <= skip_word(s, i) <= s.len(),
        i < s.len() && !is_white_space(s[i]) ==> i < skip_word(s, i),
    decreases s.len() - i,
{
    if i < s.len() && !is_white_space(s[i]) {
        lemma_skip_word(s, i + 1);
    }
}

/// The words of `s[i..]`: the maximal runs of characters that are not white
/// space, as `str::split_whitespace` gives them.
pub open spec fn words_from(s: Seq<char>, i: int) -> Seq<Seq<char>>
    decreases s.len() - i,
{
    if i < 0 || i >= s.len() {
        seq![]
    } else {
        let j = skip_ws(s, i);
        if j >= s.len() {
            seq![]
        } else {
            let e = skip_word(s, j);
            proof {
                lemma_skip_ws(s, i);
                lemma_skip_word(s, j);
            }
            seq![s.subrange(j, e)] + words_from(s, e)
        }
    }
}

/// `str::split_whitespace`.
pub open spec fn words(s: Seq<char>) -> Seq<Seq<char>> {
    words_from(s, 0)
}

/// The ranges of the words of `s`.
pub fn word_ranges(s: &Vec<char>) -> (r: Vec<(usize, usize)>)
    ensures
        r@.len() == words(s@).len(),
        forall|k: int|
            0 <= k < r@.len() ==> {
                &&& (#[trigger] r@[k]).0 <= r@[k].1 <= s@.len()
                &&& s@.subrange(r@[k].0 as int, r@[k].1 as int) == words(s@)[k]
            },
{
    let n = s.len();
    let mut r: Vec<(usize, usize)> = Vec::new();
    let mut pos: usize = 0;
    while pos < n
        invariant
            n == s@.len(),
            pos <= n,
            words(s@) == r@.map_values(|p: (usize, usize)| s@.subrange(p.0 as int, p.1 as int))
                + words_from(s@, pos as int),
            forall|k: int| 0 <= k < r@.len() ==> (#[trigger] r@[k]).0 <= r@[k].1 <= s@.len(),
        decreases n - pos,
    {
        let ghost before = r@;
        let mut j = pos;
        while j < n && char_is_whitespace(s[j])
            invariant
                pos <= j <= n,
                n == s@.len(),
                skip_ws(s@, pos as int) == skip_ws(s@, j as int),
            decreases n - j,
        {
            j = j + 1;
        }
        proof {
            lemma_skip_ws(s@, pos as int);
        }
        if j >= n {
            assert(words_from(s@, pos as int) =~= Seq::<Seq<char>>::empty());
            pos = n;
        } else {
            let mut e = j;
            while e < n && !char_is_whitespace(s[e])
                invariant
                    j <= e <= n,
                    n == s@.len(),
                    skip_word(s@, j as int) == skip_word(s@, e as int),
                decreases n - e,
            {
                e = e + 1;
            }
            proof {
                lemma_skip_word(s@, j as int);
            }
            r.push((j, e));
            assert(r@.map_values(|p: (usize, usize)| s@.subrange(p.0 as int, p.1 as int))
                =~= before.map_values(|p: (usize, usize)| s@.subrange(p.0 as int, p.1 as int))
                + seq![s@.subrange(j as int, e as int)]);
            pos = e;
        }
    }
    assert(words_from(s@, pos as int) =~= Seq::<Seq<char>>::empty());
    proof {
        let m = r@.map_values(|p: (usize, usize)| s@.subrange(p.0 as int, p.1 as int));
        assert(words(s@) =~= m);
        assert forall|k: int| 0 <= k < r@.len() implies s@.subrange(
            (#[trigger] r@[k]).0 as int,
            r@[k].1 as int,
        ) == words(s@)[k] by {
            assert(m[k] == s@.subrange(r@[k].0 as int, r@[k].1 as int));
        }
    }
    r
}


/// The order of `String`'s `Ord`: lexicographic, by character code.
pub open spec fn seq_less(a: Seq<char>, b: Seq<char>) -> bool
    decreases a.len(),
{
    if a.len() == 0 {
        b.len() > 0
    } else if b.len() == 0 {
        false
    } else if a[0] != b[0] {
        (a[0] as u32) < (b[0] as u32)
    } else {
        seq_less(a.drop_first(), b.drop_first())
    }
}

/// No string is below itself.
pub proof fn lemma_less_irreflexive(a: Seq<char>)
    ensures
        !seq_less(a, a),
    decreases a.len(),
{
    if a.len() > 0 {
        lemma_less_irreflexive(a.drop_first());
    }
}

/// The order is transitive.
pub proof fn lemma_less_transitive(a: Seq<char>, b: Seq<char>, c: Seq<char>)
    requires
        seq_less(a, b),
        seq_less(b, c),
    ensures
        seq_less(a, c),
    decreases a.len(),
{
    if a.len() > 0 && b.len() > 0 && c.len() > 0 {
        if a[0] == b[0] && b[0] == c[0] {
            lemma_less_transitive(a.drop_first(), b.drop_first(), c.drop_first());
        }
    }
}

/// Any two different strings are ordered one way or the other.
pub proof fn lemma_less_total(a: Seq<char>, b: Seq<char>)
    ensures
        a == b || seq_less(a, b) || seq_less(b, a),
    decreases a.len(),
{
    if a.len() > 0 && b.len() > 0 && a[0] == b[0] {
        lemma_less_total(a.drop_first(), b.drop_first());
        if a.drop_first() == b.drop_first() {
            assert(a =~= seq![a[0]] + a.drop_first());
            assert(b =~= seq![b[0]] + b.drop_first());
        }
    } else if a.len() == 0 && b.len() == 0 {
        assert(a =~= b);
    } else if a.len() > 0 && b.len() > 0 {
        let u = a[0] as u32;
        let w = b[0] as u32;
        vstd::utf8::char_u32_cast(a[0], u);
        vstd::utf8::char_u32_cast(b[0], w);
    }
}

/// Whether `a` comes before `b` in `String`'s order.
pub fn str_less(a: &str, b: &str) -> (r: bool)
    ensures
        r == seq_less(a@, b@),
{
    let x = chars_of(a);
    let y = chars_of(b);
    let mut i: usize = 0;
    assert(x@.skip(0) =~= x@);
    assert(y@.skip(0) =~= y@);
    while i < x.len() && i < y.len()
        invariant
            x@ == a@,
            y@ == b@,
            i <= x@.len(),
            i <= y@.len(),
            seq_less(x@, y@) == seq_less(x@.skip(i as int), y@.skip(i as int)),
        decreases x@.len() - i,
    {
        assert(x@.skip(i as int)[0] == x@[i as int]);
        assert(y@.skip(i as int)[0] == y@[i as int]);
        if x[i] != y[i] {
            let cx = x[i] as u32;
            let cy = y[i] as u32;
            return cx < cy;
        }
        assert(x@.skip(i as int).drop_first() =~= x@.skip(i + 1));
        assert(y@.skip(i as int).drop_first() =~= y@.skip(i + 1));
        i = i + 1;
    }
    x.len() - i < y.len() - i
}

/// Strictly increasing in `String`'s order (hence without repeats).
pub open spec fn strictly_sorted(s: Seq<Seq<char>>) -> bool {
    forall|i: int, j: int| 0 <= i < j < s.len() ==> seq_less(#[trigger] s[i], #[trigger] s[j])
}

/// A strictly sorted sequence has no repeated element.
pub proof fn lemma_sorted_no_duplicates(s: Seq<Seq<char>>)
    requires
        strictly_sorted(s),
    ensures
        s.no_duplicates(),
{
    assert forall|i: int, j: int| 0 <= i < s.len() && 0 <= j < s.len() && i != j implies s[i]
        != s[j] by {
        if i < j {
            lemma_less_irreflexive(s[i]);
        } else {
            lemma_less_irreflexive(s[j]);
        }
    }
}

/// The views of a vector of strings.
pub open spec fn string_views(v: Seq<String>) -> Seq<Seq<char>> {
    v.map_values(|s: String| s@)
}

/// Inserts `x` into a strictly sorted vector, unless it is already there.
pub fn insert_sorted(v: &mut Vec<String>, x: String)
    requires
        strictly_sorted(string_views(old(v)@)),
    ensures
        strictly_sorted(string_views(final(v)@)),
        string_views(final(v)@).to_set() == string_views(old(v)@).to_set().insert(x@),
{
    let ghost old_s = string_views(v@);
    let mut i: usize = 0;
    while i < v.len() && str_less(v[i].as_str(), x.as_str())
        invariant
            i <= v@.len(),
            string_views(v@) == old_s,
            strictly_sorted(old_s),
            forall|j: int| 0 <= j < i ==> seq_less(#[trigger] old_s[j], x@),
        decreases v@.len() - i,
    {
        i = i + 1;
    }
    if i < v.len() && string_eq(&v[i], &x) {
        assert(old_s[i as int] == x@);
        assert(old_s.to_set().insert(x@) =~= old_s.to_set());
        return;
    }
    proof {
        if i < old_s.len() {
            lemma_less_total(old_s[i as int], x@);
        }
    }
    let ghost xv = x@;
    v.insert(i, x);
    let ghost new_s = string_views(v@);
    assert(new_s =~= old_s.insert(i as int, xv));
    assert forall|a: int, b: int| 0 <= a < b < new_s.len() implies seq_less(
        #[trigger] new_s[a],
        #[trigger] new_s[b],
    ) by {
        if b < i {
        } else if a < i && b == i {
        } else if a < i && b > i {
            assert(new_s[b] == old_s[b - 1]);
            if b - 1 > i {
                lemma_less_transitive(xv, old_s[i as int], old_s[b - 1]);
            }
            lemma_less_transitive(new_s[a], xv, new_s[b]);
        } else if a == i {
            assert(new_s[b] == old_s[b - 1]);
            if b - 1 > i {
                lemma_less_transitive(xv, old_s[i as int], old_s[b - 1]);
            }
        } else {
            assert(new_s[a] == old_s[a - 1]);
            assert(new_s[b] == old_s[b - 1]);
        }
    }
    assert(new_s.to_set() =~= old_s.to_set().insert(xv)) by {
        assert forall|e: Seq<char>| new_s.to_set().contains(e) implies old_s.to_set().insert(
            xv,
        ).contains(e) by {
            let k = choose|k: int| 0 <= k < new_s.len() && new_s[k] == e;
            if k < i {
                assert(old_s[k] == e);
            } else if k > i {
                assert(old_s[k - 1] == e);
            }
        }
        assert forall|e: Seq<char>| old_s.to_set().insert(xv).contains(e) implies new_s.to_set().contains(
            e,
        ) by {
            if e == xv {
                assert(new_s[i as int] == e);
            } else {
                let k = choose|k: int| 0 <= k < old_s.len() && old_s[k] == e;
                if k < i {
                    assert(new_s[k] == e);
                } else {
                    assert(new_s[k + 1] == e);
                }
            }
        }
    }
}

/// Whether two strings are equal.
pub fn string_eq(a: &String, b: &String) -> (r: bool)
    ensures
        r == (a@ == b@),
{
    a.eq(b)
}


/// Whether two string slices are equal.
pub fn str_eq(a: &str, b: &str) -> (r: bool)
    ensures
        r == (a@ == b@),
{
    string_eq(&a.to_owned(), &b.to_owned())
}

/// A new string holding `a` followed by `b`.
pub fn concat_str(a: &str, b: &str) -> (r: String)
    ensures
        r@ == a@ + b@,
{
    let mut v = chars_of(a);
    let w = chars_of(b);
    let mut i: usize = 0;
    while i < w.len()
        invariant
            i <= w@.len(),
            v@ == a@ + w@.subrange(0, i as int),
        decreases w@.len() - i,
    {
        v.push(w[i]);
        assert(w@.subrange(0, i + 1) =~= w@.subrange(0, i as int).push(w@[i as int]));
        i = i + 1;
    }
    assert(w@.subrange(0, w@.len() as int) =~= w@);
    assert(v@.subrange(0, v@.len() as int) =~= v@);
    string_from_chars(&v, 0, v.len())
}

/// The view of an optional string.
pub open spec fn opt_string_view(o: Option<String>) -> Option<Seq<char>> {
    match o {
        Some(x) => Some(x@),
        None => None,
    }
}

/// `split(sep).nth(1)`: the text between the first and the second
/// occurrence of `sep`, or all the text after the first when there is no
/// second; `None` when `sep` does not occur.
pub open spec fn split_second(s: Seq<char>, sep: Seq<char>) -> Option<Seq<char>> {
    match find(s, sep) {
        None => None,
        Some(p) => {
            let rest = s.subrange(p + sep.len(), s.len() as int);
            match find(rest, sep) {
                Some(q) => Some(rest.subrange(0, q)),
                None => Some(rest),
            }
        },
    }
}

/// `split(sep).nth(1)` on characters.
pub fn split_second_exec(s: &Vec<char>, sep: &str) -> (r: Option<Vec<char>>)
    ensures
        r matches Some(v) ==> split_second(s@, sep@) == Some(v@),
        r is None ==> split_second(s@, sep@) is None,
{
    proof {
        lemma_find(s@, sep@);
    }
    match find_str(s, sep) {
        None => None,
        Some(p) => {
            let sv = chars_of(sep);
            let n = sv.len();
            assert(matches_at(s@, sep@, p as int));
            assert(n == sep@.len());
            let total = s.len();
            let rest = copy_range(s, p + n, total);
            proof {
                lemma_find(rest@, sep@);
            }
            match find_str(&rest, sep) {
                Some(q) => Some(copy_range(&rest, 0, q)),
                None => Some(rest),
            }
        },
    }
}

/// `str::trim` of the characters `v`, as a new string.
pub fn trimmed_string(v: &Vec<char>) -> (r: String)
    ensures
        r@ == trim(v@),
{
    let (a, b) = trim_range(v, 0, v.len(), &CharClass::WhiteSpace);
    assert(v@.subrange(0, v@.len() as int) =~= v@);
    string_from_chars(v, a, b)
}

/// The number of bytes that `c` takes in UTF-8.
pub open spec fn utf8_width(c: char) -> nat {
    let u = c as u32;
    if u < 0x80 {
        1
    } else if u < 0x800 {
        2
    } else if u < 0x10000 {
        3
    } else {
        4
    }
}

/// The number of bytes that `s` takes in UTF-8 (`str::len`).
pub open spec fn utf8_len(s: Seq<char>) -> nat
    decreases s.len(),
{
    if s.len() == 0 {
        0
    } else {
        utf8_len(s.drop_last()) + utf8_width(s.last())
    }
}

/// A prefix takes no more bytes than the whole.
pub proof fn lemma_utf8_len_prefix(s: Seq<char>, i: int)
    requires
        0 <= i <= s.len(),
    ensures
        utf8_len(s.take(i)) <= utf8_len(s),
    decreases s.len(),
{
    if i == s.len() {
        assert(s.take(i) =~= s);
    } else {
        lemma_utf8_len_prefix(s.drop_last(), i);
        assert(s.drop_last().take(i) =~= s.take(i));
    }
}

/// Whether `v` takes more than `n` bytes in UTF-8.
pub fn utf8_longer_than(v: &Vec<char>, n: usize) -> (r: bool)
    requires
        n <= 1000,
    ensures
        r == (utf8_len(v@) > n),
{
    let mut acc: usize = 0;
    let mut i: usize = 0;
    while i < v.len()
        invariant
            n <= 1000,
            i <= v@.len(),
            acc == utf8_len(v@.take(i as int)),
            acc <= n,
        decreases v@.len() - i,
    {
        let c = v[i];
        let u = c as u32;
        let w: usize = if u < 0x80 {
            1
        } else if u < 0x800 {
            2
        } else if u < 0x10000 {
            3
        } else {
            4
        };
        acc = acc + w;
        assert(v@.take(i + 1).drop_last() =~= v@.take(i as int));
        if acc > n {
            proof {
                lemma_utf8_len_prefix(v@, i + 1);
            }
            return true;
        }
        i = i + 1;
    }
    assert(v@.take(v@.len() as int) =~= v@);
    false
}

/// The character of the decimal digit `d`.
pub open spec fn digit_char(d: nat) -> char {
    if d == 0 {
        '0'
    } else if d == 1 {
        '1'
    } else if d == 2 {
        '2'
    } else if d == 3 {
        '3'
    } else if d == 4 {
        '4'
    } else if d == 5 {
        '5'
    } else if d == 6 {
        '6'
    } else if d == 7 {
        '7'
    } else if d == 8 {
        '8'
    } else {
        '9'
    }
}

/// The decimal notation of `n`, as `format!("{}", n)` writes it.
pub open spec fn decimal(n: nat) -> Seq<char>
    decreases n,
{
    if n < 10 {
        seq![digit_char(n)]
    } else {
        decimal(n / 10).push(digit_char(n % 10))
    }
}

fn digit_of(d: u64) -> (c: char)
    requires
        d < 10,
    ensures
        c == digit_char(d as nat),
{
    if d == 0 {
        '0'
    } else if d == 1 {
        '1'
    } else if d == 2 {
        '2'
    } else if d == 3 {
        '3'
    } else if d == 4 {
        '4'
    } else if d == 5 {
        '5'
    } else if d == 6 {
        '6'
    } else if d == 7 {
        '7'
    } else if d == 8 {
        '8'
    } else {
        '9'
    }
}

fn decimal_chars(n: u64) -> (v: Vec<char>)
    ensures
        v@ == decimal(n as nat),
    decreases n,
{
    if n < 10 {
        let mut v: Vec<char> = Vec::new();
        v.push(digit_of(n));
        assert(v@ =~= seq![digit_char(n as nat)]);
        v
    } else {
        let mut v = decimal_chars(n / 10);
        v.push(digit_of(n % 10));
        v
    }
}

/// The decimal notation of `n`.
pub fn decimal_string(n: u64) -> (r: String)
    ensures
        r@ == decimal(n as nat),
{
    let v = decimal_chars(n);
    assert(v@.subrange(0, v@.len() as int) =~= v@);
    string_from_chars(&v, 0, v.len())
}

/// Pushing onto a sequence adds the element to its set.
pub proof fn lemma_push_to_set<A>(s: Seq<A>, x: A)
    ensures
        s.push(x).to_set() == s.to_set().insert(x),
{
    assert forall|e: A| s.push(x).to_set().contains(e) implies s.to_set().insert(x).contains(e) by {
        let k = choose|k: int| 0 <= k < s.push(x).len() && s.push(x)[k] == e;
        if k < s.len() {
            assert(s[k] == e);
        }
    }
    assert forall|e: A| s.to_set().insert(x).contains(e) implies s.push(x).to_set().contains(e) by {
        if e == x {
            assert(s.push(x)[s.len() as int] == e);
        } else {
            let k = choose|k: int| 0 <= k < s.len() && s[k] == e;
            assert(s.push(x)[k] == e);
        }
    }
    assert(s.push(x).to_set() =~= s.to_set().insert(x));
}

} // verus!
