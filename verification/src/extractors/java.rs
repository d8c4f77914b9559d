//! Route, entity and hint extraction from the text of Java segments.
use vstd::prelude::*;
use crate::extractors::python::{hint_if, push_hint, views};
use crate::extractors::{
    collect_items, collect_items_exec, make_route, route, route_view, LineItem, RouteInfo,
    RouteSpec,
};
use crate::text::{
    chars_of, contains, contains_str, copy_range, find, find_str, index_of_any,
    index_of_any_exec, lemma_find, line_ranges, lines, lowercase, owned, starts_with,
    starts_with_at, string_from_chars, trim, trim_both, trim_range, trim_right, word_ranges,
    words, CharClass,
};
use crate::types::Framework;

verus! {

/// Extracts classes, interfaces, entities and routes from Java code.
pub struct JavaExtractor;

/// Whether a class carries JPA entity annotations.
pub open spec fn is_entity(c: Seq<char>) -> bool {
    ||| contains(c, "@Entity"@)
    ||| contains(c, "@Table"@)
    ||| contains(c, "@Id"@)
    ||| contains(c, "@Column"@)
    ||| contains(c, "@JoinColumn"@)
    ||| contains(c, "@ManyToOne"@)
    ||| contains(c, "@OneToMany"@)
    ||| contains(c, "@ManyToMany"@)
}

/// The `name = ...` of the `@Table` annotation, trimmed of white space and quotes.
pub open spec fn java_table_name(c: Seq<char>) -> Option<Seq<char>> {
    match find(c, "@Table"@) {
        Some(ts) => {
            let after = c.subrange(ts, c.len() as int);
            match find(after, "name"@) {
                Some(ns) => {
                    let after_name = after.subrange(ns, after.len() as int);
                    match find(after_name, "="@) {
                        Some(eq) => {
                            let after_eq = after_name.subrange(eq + 1, after_name.len() as int);
                            let end = match index_of_any(after_eq, seq![',', ')']) {
                                Some(e) => e,
                                None => after_eq.len() as int,
                            };
                            Some(trim_both(trim(after_eq.subrange(0, end)), CharClass::Quote))
                        },
                        None => None,
                    }
                },
                None => None,
            }
        },
        None => None,
    }
}

/// Whether a trimmed line starts a field or method with an access modifier.
pub open spec fn has_modifier(t: Seq<char>) -> bool {
    starts_with(t, "private "@) || starts_with(t, "public "@) || starts_with(t, "protected "@)
}

/// The name of the field that a declaration line declares: its last word
/// without trailing semicolons, when it has at least three words.
pub open spec fn declared_name(t: Seq<char>) -> Option<Seq<char>> {
    if words(t).len() >= 3 {
        Some(trim_right(words(t).last(), CharClass::Semicolon))
    } else {
        None
    }
}

/// The field that an entity line declares, if any.
pub open spec fn entity_field_of(l: Seq<char>) -> Option<Seq<char>> {
    let t = trim(l);
    if (contains(t, "@Column"@) || contains(t, "@Id"@) || contains(t, "@GeneratedValue"@))
        && !starts_with(t, "//"@) {
        None
    } else if has_modifier(t) && contains(t, ";"@) && !contains(t, "("@) {
        declared_name(t)
    } else {
        None
    }
}

/// The field declared on the first line from `i` on that declares one.
pub open spec fn first_field_from(ls: Seq<Seq<char>>, i: int) -> Option<Seq<char>>
    decreases ls.len() - i,
{
    if i < 0 || i >= ls.len() {
        None
    } else {
        let t = trim(ls[i]);
        if has_modifier(t) && contains(t, ";"@) && declared_name(t) is Some {
            declared_name(t)
        } else {
            first_field_from(ls, i + 1)
        }
    }
}

/// The first position from `i` on where `ls` holds `line`.
pub open spec fn line_position_from(ls: Seq<Seq<char>>, line: Seq<char>, i: int) -> Option<int>
    decreases ls.len() - i,
{
    if i < 0 || i >= ls.len() {
        None
    } else if ls[i] == line {
        Some(i)
    } else {
        line_position_from(ls, line, i + 1)
    }
}

/// The field declared after the first line of `c` equal to `line`.
pub open spec fn next_field(c: Seq<char>, line: Seq<char>) -> Option<Seq<char>> {
    match line_position_from(lines(c), line, 0) {
        Some(p) => first_field_from(lines(c), p + 1),
        None => None,
    }
}

/// Whether a line carries a relationship annotation.
pub open spec fn is_relationship_line(l: Seq<char>) -> bool {
    let t = trim(l);
    contains(t, "@OneToMany"@) || contains(t, "@ManyToOne"@) || contains(t, "@ManyToMany"@)
        || contains(t, "@OneToOne"@)
}

/// The relationship fields of an entity: for each relationship line, the
/// field declared after the first line equal to it.
pub open spec fn entity_relationships(c: Seq<char>, ls: Seq<Seq<char>>) -> Seq<Seq<char>>
    decreases ls.len(),
{
    if ls.len() == 0 {
        seq![]
    } else {
        entity_relationships(c, ls.drop_last()) + if is_relationship_line(ls.last()) {
            match next_field(c, ls.last()) {
                Some(f) => seq![f],
                None => seq![],
            }
        } else {
            seq![]
        }
    }
}

/// The HTTP method named in the `method = RequestMethod.X` of a `@RequestMapping`.
pub open spec fn request_mapping_method(c: Seq<char>) -> Option<Seq<char>> {
    match find(c, "method"@) {
        Some(ms) => {
            let after = c.subrange(ms, c.len() as int);
            match find(after, "="@) {
                Some(eq) => {
                    let after_eq = after.subrange(eq + 1, after.len() as int);
                    if contains(after_eq, "RequestMethod.GET"@) {
                        Some("GET"@)
                    } else if contains(after_eq, "RequestMethod.POST"@) {
                        Some("POST"@)
                    } else if contains(after_eq, "RequestMethod.PUT"@) {
                        Some("PUT"@)
                    } else if contains(after_eq, "RequestMethod.DELETE"@) {
                        Some("DELETE"@)
                    } else {
                        None
                    }
                },
                None => None,
            }
        },
        None => None,
    }
}

/// The mapping annotations, in the order in which paths are looked up.
pub open spec fn mapping_annotation(i: int) -> Seq<char> {
    if i == 0 {
        "@GetMapping"@
    } else if i == 1 {
        "@PostMapping"@
    } else if i == 2 {
        "@PutMapping"@
    } else if i == 3 {
        "@DeleteMapping"@
    } else {
        "@RequestMapping"@
    }
}

/// What the parameters of a mapping annotation give as path, if anything.
pub open spec fn path_of_params(params: Seq<char>) -> Option<Seq<char>> {
    if starts_with(params, "\""@) || starts_with(params, "'"@) {
        Some(trim_both(params, CharClass::Quote))
    } else if contains(params, "value"@) || contains(params, "path"@) {
        match find(params, "="@) {
            Some(eq) => {
                let after_eq = params.subrange(eq + 1, params.len() as int);
                let end = match index_of_any(after_eq, seq![',', ')']) {
                    Some(e) => e,
                    None => after_eq.len() as int,
                };
                Some(trim_both(trim(after_eq.subrange(0, end)), CharClass::Quote))
            },
            None => None,
        }
    } else {
        None
    }
}

/// What annotation `i` gives as path: nothing, a path, or `Err` where a
/// delimiter comes before the text it should follow.
pub open spec fn path_by_annotation(c: Seq<char>, i: int) -> Option<Result<Seq<char>, ()>> {
    match find(c, mapping_annotation(i)) {
        Some(a) => {
            let after = c.subrange(a, c.len() as int);
            match (find(after, "("@), find(after, ")"@)) {
                (Some(ps), Some(pe)) => if pe < ps + 1 {
                    Some(Err(()))
                } else {
                    match path_of_params(after.subrange(ps + 1, pe)) {
                        Some(p) => Some(Ok(p)),
                        None => None,
                    }
                },
                _ => None,
            }
        },
        None => None,
    }
}

/// The path of the first annotation, from `i` on, that gives one.
pub open spec fn mapping_path_from(c: Seq<char>, i: int) -> Result<Option<Seq<char>>, ()>
    decreases 5 - i,
{
    if i < 0 || i >= 5 {
        Ok(None)
    } else {
        match path_by_annotation(c, i) {
            Some(Ok(p)) => Ok(Some(p)),
            Some(Err(e)) => Err(e),
            None => mapping_path_from(c, i + 1),
        }
    }
}

/// The path of a Spring mapping; `Err` where a delimiter comes before the text it should
/// follow, so that the text cannot be cut out.
pub open spec fn mapping_path(c: Seq<char>) -> Result<Option<Seq<char>>, ()> {
    mapping_path_from(c, 0)
}

/// The HTTP method of a Spring handler.
pub open spec fn spring_method(c: Seq<char>) -> Seq<char> {
    if contains(c, "@GetMapping"@) {
        "GET"@
    } else if contains(c, "@PostMapping"@) {
        "POST"@
    } else if contains(c, "@PutMapping"@) {
        "PUT"@
    } else if contains(c, "@DeleteMapping"@) {
        "DELETE"@
    } else if contains(c, "@RequestMapping"@) {
        match request_mapping_method(c) {
            Some(m) => m,
            None => "ANY"@,
        }
    } else {
        "UNKNOWN"@
    }
}

/// The route of a Spring handler; `Err` where a delimiter comes before the text it should
/// follow, so that the text cannot be cut out.
pub open spec fn spring_mapping(c: Seq<char>) -> Result<Option<RouteSpec>, ()> {
    match mapping_path(c) {
        Ok(p) => Ok(
            Some(
                route(
                    match p {
                        Some(x) => x,
                        None => "/"@,
                    },
                    spring_method(c),
                    "Spring Boot Controller Method"@,
                ),
            ),
        ),
        Err(e) => Err(e),
    }
}

/// Whether a segment carries a Spring mapping annotation.
pub open spec fn has_mapping(c: Seq<char>) -> bool {
    ||| contains(c, "@RequestMapping"@)
    ||| contains(c, "@GetMapping"@)
    ||| contains(c, "@PostMapping"@)
    ||| contains(c, "@PutMapping"@)
    ||| contains(c, "@DeleteMapping"@)
}

/// The route of a Spring segment; `Err` where a delimiter comes before the text it should
/// follow, so that the text cannot be cut out.
pub open spec fn spring_route(c: Seq<char>) -> Result<Option<RouteSpec>, ()> {
    if has_mapping(c) {
        spring_mapping(c)
    } else {
        Ok(None)
    }
}

/// The framework of a method.
pub open spec fn java_method_framework(c: Seq<char>) -> Option<Framework> {
    if contains(c, "@RestController"@) || contains(c, "@RequestMapping"@) || contains(
        c,
        "@GetMapping"@,
    ) || contains(c, "@Service"@) || contains(c, "@Component"@) {
        Some(Framework::SpringBoot)
    } else {
        None
    }
}

/// The framework of a class.
pub open spec fn java_class_framework(c: Seq<char>) -> Option<Framework> {
    if contains(c, "@RestController"@) || contains(c, "@Service"@) || contains(c, "@Repository"@)
        || contains(c, "@Component"@) || contains(c, "@Entity"@) || contains(
        c,
        "@Configuration"@,
    ) {
        Some(Framework::SpringBoot)
    } else {
        None
    }
}

/// The framework of an interface.
pub open spec fn java_interface_framework(c: Seq<char>) -> Option<Framework> {
    if contains(c, "@Repository"@) || contains(c, "JpaRepository"@) || contains(
        c,
        "CrudRepository"@,
    ) {
        Some(Framework::SpringBoot)
    } else {
        None
    }
}

/// The business-domain hints of a Java segment (on its lowercase text).
pub open spec fn java_hints(low: Seq<char>) -> Seq<Seq<char>> {
    hint_if(
        contains(low, "auth"@) || contains(low, "login"@) || contains(low, "password"@) || contains(
            low,
            "jwt"@,
        ) || contains(low, "token"@) || contains(low, "security"@),
        "Authentication"@,
    ) + hint_if(
        contains(low, "user"@) || contains(low, "profile"@) || contains(low, "account"@)
            || contains(low, "permission"@) || contains(low, "role"@),
        "User Management"@,
    ) + hint_if(
        contains(low, "notification"@) || contains(low, "email"@) || contains(low, "sms"@)
            || contains(low, "alert"@) || contains(low, "message"@),
        "Notification"@,
    ) + hint_if(
        contains(low, "payment"@) || contains(low, "billing"@) || contains(low, "subscription"@)
            || contains(low, "invoice"@) || contains(low, "charge"@) || contains(
            low,
            "transaction"@,
        ),
        "Payment"@,
    ) + hint_if(
        contains(low, "analytics"@) || contains(low, "tracking"@) || contains(low, "metrics"@)
            || contains(low, "report"@) || contains(low, "dashboard"@) || contains(low, "audit"@),
        "Analytics"@,
    ) + hint_if(
        contains(low, "product"@) || contains(low, "order"@) || contains(low, "cart"@) || contains(
            low,
            "inventory"@,
        ) || contains(low, "catalog"@),
        "E-commerce"@,
    )
}

fn has_modifier_exec(t: &Vec<char>) -> (r: bool)
    ensures
        r == has_modifier(t@),
{
    assert(t@.subrange(0, t@.len() as int) =~= t@);
    starts_with_at(t, 0, t.len(), "private ") || starts_with_at(t, 0, t.len(), "public ")
        || starts_with_at(t, 0, t.len(), "protected ")
}

fn declared_name_exec(t: &Vec<char>) -> (r: Option<String>)
    ensures
        match r {
            Some(x) => declared_name(t@) == Some(x@),
            None => declared_name(t@) is None,
        },
{
    let parts = word_ranges(t);
    if parts.len() >= 3 {
        let (a, b) = parts[parts.len() - 1];
        let e = crate::text::trim_right_range(t, a, b, &CharClass::Semicolon);
        Some(string_from_chars(t, a, e))
    } else {
        None
    }
}

pub fn entity_field_exec(l: &Vec<char>) -> (r: Option<String>)
    ensures
        match r {
            Some(x) => entity_field_of(l@) == Some(x@),
            None => entity_field_of(l@) is None,
        },
{
    let (x, y) = trim_range(l, 0, l.len(), &CharClass::WhiteSpace);
    assert(l@.subrange(0, l@.len() as int) =~= l@);
    let t = copy_range(l, x, y);
    assert(t@.subrange(0, t@.len() as int) =~= t@);
    if (contains_str(&t, "@Column") || contains_str(&t, "@Id") || contains_str(
        &t,
        "@GeneratedValue",
    )) && !starts_with_at(&t, 0, t.len(), "//") {
        None
    } else if has_modifier_exec(&t) && contains_str(&t, ";") && !contains_str(&t, "(") {
        declared_name_exec(&t)
    } else {
        None
    }
}

/// The annotation that `mapping_annotation(i)` names.
fn mapping_annotation_exec(i: usize) -> (r: &'static str)
    ensures
        r@ == mapping_annotation(i as int),
{
    if i == 0 {
        "@GetMapping"
    } else if i == 1 {
        "@PostMapping"
    } else if i == 2 {
        "@PutMapping"
    } else if i == 3 {
        "@DeleteMapping"
    } else {
        "@RequestMapping"
    }
}

fn path_of_params_exec(p: &Vec<char>) -> (r: Option<String>)
    ensures
        match r {
            Some(x) => path_of_params(p@) == Some(x@),
            None => path_of_params(p@) is None,
        },
{
    assert(p@.subrange(0, p@.len() as int) =~= p@);
    if starts_with_at(p, 0, p.len(), "\"") || starts_with_at(p, 0, p.len(), "'") {
        let (u, v) = trim_range(p, 0, p.len(), &CharClass::Quote);
        return Some(string_from_chars(p, u, v));
    }
    if contains_str(p, "value") || contains_str(p, "path") {
        proof {
            lemma_find(p@, "="@);
            reveal_strlit("=");
        }
        match find_str(p, "=") {
            Some(eq) => {
                let n = p.len();
                let after_eq = copy_range(p, eq + 1, n);
                let set = vec![',', ')'];
                assert(set@ =~= seq![',', ')']);
                let end = match index_of_any_exec(&after_eq, &set) {
                    Some(e) => e,
                    None => after_eq.len(),
                };
                let (a, b) = trim_range(&after_eq, 0, end, &CharClass::WhiteSpace);
                let (u, v) = trim_range(&after_eq, a, b, &CharClass::Quote);
                Some(string_from_chars(&after_eq, u, v))
            },
            None => None,
        }
    } else {
        None
    }
}

fn path_by_annotation_exec(c: &Vec<char>, i: usize) -> (r: Option<String>)
    requires
        path_by_annotation(c@, i as int) != Some(Err::<Seq<char>, ()>(())),
    ensures
        match r {
            Some(x) => path_by_annotation(c@, i as int) == Some(Ok::<Seq<char>, ()>(x@)),
            None => path_by_annotation(c@, i as int) is None,
        },
{
    let ann = mapping_annotation_exec(i);
    let ghost pat = mapping_annotation(i as int);
    proof {
        lemma_find(c@, pat);
    }
    match find_str(c, ann) {
        Some(a) => {
            let n = c.len();
            let after = copy_range(c, a, n);
            proof {
                lemma_find(after@, "("@);
                lemma_find(after@, ")"@);
                reveal_strlit("(");
                reveal_strlit(")");
            }
            match (find_str(&after, "("), find_str(&after, ")")) {
                (Some(ps), Some(pe)) => {
                    let params = copy_range(&after, ps + 1, pe);
                    path_of_params_exec(&params)
                },
                _ => None,
            }
        },
        None => None,
    }
}

impl JavaExtractor {
    pub fn new() -> (r: Self) {
        JavaExtractor
    }

    /// Whether a class is a JPA entity.
    pub fn is_jpa_entity(&self, content: &str) -> (r: bool)
        ensures
            r == is_entity(content@),
    {
        let c = chars_of(content);
        contains_str(&c, "@Entity") || contains_str(&c, "@Table") || contains_str(&c, "@Id")
            || contains_str(&c, "@Column") || contains_str(&c, "@JoinColumn") || contains_str(
            &c,
            "@ManyToOne",
        ) || contains_str(&c, "@OneToMany") || contains_str(&c, "@ManyToMany")
    }

    /// The table name of an entity.
    pub fn extract_table_name(&self, content: &str) -> (r: Option<String>)
        ensures
            match r {
                Some(x) => java_table_name(content@) == Some(x@),
                None => java_table_name(content@) is None,
            },
    {
        let c = chars_of(content);
        proof {
            lemma_find(c@, "@Table"@);
        }
        let ts = match find_str(&c, "@Table") {
            Some(k) => k,
            None => {
                return None;
            },
        };
        let n = c.len();
        let after = copy_range(&c, ts, n);
        proof {
            lemma_find(after@, "name"@);
        }
        let ns = match find_str(&after, "name") {
            Some(k) => k,
            None => {
                return None;
            },
        };
        let m = after.len();
        let after_name = copy_range(&after, ns, m);
        proof {
            lemma_find(after_name@, "="@);
            reveal_strlit("=");
        }
        let eq = match find_str(&after_name, "=") {
            Some(k) => k,
            None => {
                return None;
            },
        };
        let q = after_name.len();
        let after_eq = copy_range(&after_name, eq + 1, q);
        let set = vec![',', ')'];
        assert(set@ =~= seq![',', ')']);
        let end = match index_of_any_exec(&after_eq, &set) {
            Some(e) => e,
            None => after_eq.len(),
        };
        let (a, b) = trim_range(&after_eq, 0, end, &CharClass::WhiteSpace);
        let (u, v) = trim_range(&after_eq, a, b, &CharClass::Quote);
        Some(string_from_chars(&after_eq, u, v))
    }

    /// The fields that an entity declares, one per line.
    pub fn extract_entity_fields(&self, content: &str) -> (r: Vec<String>)
        ensures
            views(r@) == collect_items(lines(content@), LineItem::JavaEntityField),
    {
        collect_items_exec(content, &LineItem::JavaEntityField)
    }

    /// The field declared after the first line of `content` equal to
    /// `current_line`.
    pub fn find_next_field_line(&self, content: &str, current_line: &str) -> (r: Option<String>)
        ensures
            match r {
                Some(x) => next_field(content@, current_line@) == Some(x@),
                None => next_field(content@, current_line@) is None,
            },
    {
        let cs = chars_of(content);
        let cur = chars_of(current_line);
        let ranges = line_ranges(&cs);
        next_field_exec(&cs, &ranges, &cur)
    }

    /// The relationship fields of an entity.
    pub fn extract_entity_relationships(&self, content: &str) -> (r: Vec<String>)
        ensures
            views(r@) == entity_relationships(content@, lines(content@)),
    {
        let cs = chars_of(content);
        let ranges = line_ranges(&cs);
        let ghost ls = lines(content@);
        let mut out: Vec<String> = Vec::new();
        let mut k: usize = 0;
        while k < ranges.len()
            invariant
                cs@ == content@,
                ls == lines(cs@),
                ranges@.len() == ls.len(),
                forall|j: int|
                    0 <= j < ranges@.len() ==> {
                        &&& (#[trigger] ranges@[j]).0 <= ranges@[j].1 <= cs@.len()
                        &&& cs@.subrange(ranges@[j].0 as int, ranges@[j].1 as int) == ls[j]
                    },
                k <= ranges@.len(),
                views(out@) == entity_relationships(content@, ls.take(k as int)),
            decreases ranges@.len() - k,
        {
            let ghost before = out@;
            let (a, b) = ranges[k];
            let l = copy_range(&cs, a, b);
            assert(l@ == ls[k as int]);
            assert(ls.take(k + 1).drop_last() =~= ls.take(k as int));
            let (x, y) = trim_range(&l, 0, l.len(), &CharClass::WhiteSpace);
            assert(l@.subrange(0, l@.len() as int) =~= l@);
            let t = copy_range(&l, x, y);
            if contains_str(&t, "@OneToMany") || contains_str(&t, "@ManyToOne") || contains_str(
                &t,
                "@ManyToMany",
            ) || contains_str(&t, "@OneToOne") {
                match next_field_exec(&cs, &ranges, &l) {
                    Some(f) => {
                        out.push(f);
                        assert(views(out@) =~= views(before) + seq![next_field(content@, ls[k as int])->0]);
                    },
                    None => {},
                }
            }
            assert(views(out@) =~= entity_relationships(content@, ls.take(k + 1)));
            k = k + 1;
        }
        assert(ls.take(ranges@.len() as int) =~= ls);
        out
    }

    /// The route of a Spring controller method, if it has a mapping annotation.
    pub fn parse_spring_route(&self, content: &str) -> (r: Option<RouteInfo>)
        requires
            spring_route(content@) is Ok,
        ensures
            Ok::<Option<RouteSpec>, ()>(route_view(r)) == spring_route(content@),
    {
        let c = chars_of(content);
        if contains_str(&c, "@RequestMapping") || contains_str(&c, "@GetMapping") || contains_str(
            &c,
            "@PostMapping",
        ) || contains_str(&c, "@PutMapping") || contains_str(&c, "@DeleteMapping") {
            return self.parse_spring_mapping(content);
        }
        None
    }

    /// The route of a Spring mapping: its method and path.
    pub fn parse_spring_mapping(&self, content: &str) -> (r: Option<RouteInfo>)
        requires
            mapping_path(content@) is Ok,
        ensures
            Ok::<Option<RouteSpec>, ()>(route_view(r)) == spring_mapping(content@),
    {
        let c = chars_of(content);
        let method = if contains_str(&c, "@GetMapping") {
            owned("GET")
        } else if contains_str(&c, "@PostMapping") {
            owned("POST")
        } else if contains_str(&c, "@PutMapping") {
            owned("PUT")
        } else if contains_str(&c, "@DeleteMapping") {
            owned("DELETE")
        } else if contains_str(&c, "@RequestMapping") {
            match self.extract_request_mapping_method(content) {
                Some(m) => m,
                None => owned("ANY"),
            }
        } else {
            owned("UNKNOWN")
        };
        let path = match self.extract_mapping_path(content) {
            Some(p) => p,
            None => owned("/"),
        };
        Some(make_route(path, method, "Spring Boot Controller Method"))
    }

    /// The method of a `@RequestMapping(method = RequestMethod.X)`.
    pub fn extract_request_mapping_method(&self, content: &str) -> (r: Option<String>)
        ensures
            match r {
                Some(x) => request_mapping_method(content@) == Some(x@),
                None => request_mapping_method(content@) is None,
            },
    {
        let c = chars_of(content);
        proof {
            lemma_find(c@, "method"@);
        }
        match find_str(&c, "method") {
            Some(ms) => {
                let n = c.len();
                let after = copy_range(&c, ms, n);
                proof {
                    lemma_find(after@, "="@);
                    reveal_strlit("=");
                }
                match find_str(&after, "=") {
                    Some(eq) => {
                        let m = after.len();
                        let after_eq = copy_range(&after, eq + 1, m);
                        if contains_str(&after_eq, "RequestMethod.GET") {
                            Some(owned("GET"))
                        } else if contains_str(&after_eq, "RequestMethod.POST") {
                            Some(owned("POST"))
                        } else if contains_str(&after_eq, "RequestMethod.PUT") {
                            Some(owned("PUT"))
                        } else if contains_str(&after_eq, "RequestMethod.DELETE") {
                            Some(owned("DELETE"))
                        } else {
                            None
                        }
                    },
                    None => None,
                }
            },
            None => None,
        }
    }

    /// The path of the first mapping annotation that gives one.
    pub fn extract_mapping_path(&self, content: &str) -> (r: Option<String>)
        requires
            mapping_path(content@) is Ok,
        ensures
            Ok::<Option<Seq<char>>, ()>(
                match r {
                    Some(x) => Some(x@),
                    None => None,
                },
            ) == mapping_path(content@),
    {
        let c = chars_of(content);
        let mut i: usize = 0;
        while i < 5
            invariant
                c@ == content@,
                i <= 5,
                mapping_path(c@) == mapping_path_from(c@, i as int),
                mapping_path(c@) is Ok,
            decreases 5 - i,
        {
            if let Some(p) = path_by_annotation_exec(&c, i) {
                return Some(p);
            }
            i = i + 1;
        }
        None
    }

    /// The framework of a method.
    pub fn detect_method_framework(&self, content: &str) -> (r: Option<Framework>)
        ensures
            r == java_method_framework(content@),
    {
        let c = chars_of(content);
        if contains_str(&c, "@RestController") || contains_str(&c, "@RequestMapping")
            || contains_str(&c, "@GetMapping") || contains_str(&c, "@Service") || contains_str(
            &c,
            "@Component",
        ) {
            Some(Framework::SpringBoot)
        } else {
            None
        }
    }

    /// The framework of a class.
    pub fn detect_class_framework(&self, content: &str) -> (r: Option<Framework>)
        ensures
            r == java_class_framework(content@),
    {
        let c = chars_of(content);
        if contains_str(&c, "@RestController") || contains_str(&c, "@Service") || contains_str(
            &c,
            "@Repository",
        ) || contains_str(&c, "@Component") || contains_str(&c, "@Entity") || contains_str(
            &c,
            "@Configuration",
        ) {
            Some(Framework::SpringBoot)
        } else {
            None
        }
    }

    /// The framework of an interface.
    pub fn detect_interface_framework(&self, content: &str) -> (r: Option<Framework>)
        ensures
            r == java_interface_framework(content@),
    {
        let c = chars_of(content);
        if contains_str(&c, "@Repository") || contains_str(&c, "JpaRepository") || contains_str(
            &c,
            "CrudRepository",
        ) {
            Some(Framework::SpringBoot)
        } else {
            None
        }
    }

    /// The business-domain hints of a segment.
    pub fn extract_business_hints(&self, content: &str) -> (r: Vec<String>)
        ensures
            views(r@) == java_hints(lowercase(content@)),
    {
        let c = crate::text::lower_chars(content);
        let mut h: Vec<String> = Vec::new();
        push_hint(
            &mut h,
            contains_str(&c, "auth") || contains_str(&c, "login") || contains_str(&c, "password")
                || contains_str(&c, "jwt") || contains_str(&c, "token") || contains_str(
                &c,
                "security",
            ),
            "Authentication",
        );
        push_hint(
            &mut h,
            contains_str(&c, "user") || contains_str(&c, "profile") || contains_str(&c, "account")
                || contains_str(&c, "permission") || contains_str(&c, "role"),
            "User Management",
        );
        push_hint(
            &mut h,
            contains_str(&c, "notification") || contains_str(&c, "email") || contains_str(&c, "sms")
                || contains_str(&c, "alert") || contains_str(&c, "message"),
            "Notification",
        );
        push_hint(
            &mut h,
            contains_str(&c, "payment") || contains_str(&c, "billing") || contains_str(
                &c,
                "subscription",
            ) || contains_str(&c, "invoice") || contains_str(&c, "charge") || contains_str(
                &c,
                "transaction",
            ),
            "Payment",
        );
        push_hint(
            &mut h,
            contains_str(&c, "analytics") || contains_str(&c, "tracking") || contains_str(
                &c,
                "metrics",
            ) || contains_str(&c, "report") || contains_str(&c, "dashboard") || contains_str(
                &c,
                "audit",
            ),
            "Analytics",
        );
        push_hint(
            &mut h,
            contains_str(&c, "product") || contains_str(&c, "order") || contains_str(&c, "cart")
                || contains_str(&c, "inventory") || contains_str(&c, "catalog"),
            "E-commerce",
        );
        assert(views(h@) =~= java_hints(lowercase(content@)));
        h
    }
}

/// The field declared after the first line (of the ranges of `cs`) equal to `cur`.
fn next_field_exec(cs: &Vec<char>, ranges: &Vec<(usize, usize)>, cur: &Vec<char>) -> (r: Option<
    String,
>)
    requires
        ranges@.len() == lines(cs@).len(),
        forall|j: int|
            0 <= j < ranges@.len() ==> {
                &&& (#[trigger] ranges@[j]).0 <= ranges@[j].1 <= cs@.len()
                &&& cs@.subrange(ranges@[j].0 as int, ranges@[j].1 as int) == lines(cs@)[j]
            },
    ensures
        match r {
            Some(x) => next_field(cs@, cur@) == Some(x@),
            None => next_field(cs@, cur@) is None,
        },
{
    let ghost ls = lines(cs@);
    let mut p: usize = 0;
    while p < ranges.len()
        invariant
            ls == lines(cs@),
            ranges@.len() == ls.len(),
            forall|j: int|
                0 <= j < ranges@.len() ==> {
                    &&& (#[trigger] ranges@[j]).0 <= ranges@[j].1 <= cs@.len()
                    &&& cs@.subrange(ranges@[j].0 as int, ranges@[j].1 as int) == ls[j]
                },
            p <= ranges@.len(),
            line_position_from(ls, cur@, 0) == line_position_from(ls, cur@, p as int),
        decreases ranges@.len() - p,
    {
        let (a, b) = ranges[p];
        let l = copy_range(cs, a, b);
        if vec_eq(&l, cur) {
            let mut i = p + 1;
            while i < ranges.len()
                invariant
                    ls == lines(cs@),
                    ranges@.len() == ls.len(),
                    forall|j: int|
                        0 <= j < ranges@.len() ==> {
                            &&& (#[trigger] ranges@[j]).0 <= ranges@[j].1 <= cs@.len()
                            &&& cs@.subrange(ranges@[j].0 as int, ranges@[j].1 as int) == ls[j]
                        },
                    p < i <= ranges@.len(),
                    line_position_from(ls, cur@, 0) == Some(p as int),
                    first_field_from(ls, p + 1) == first_field_from(ls, i as int),
                decreases ranges@.len() - i,
            {
                let (x, y) = ranges[i];
                let (u, v) = trim_range(cs, x, y, &CharClass::WhiteSpace);
                let t = copy_range(cs, u, v);
                if has_modifier_exec(&t) && contains_str(&t, ";") {
                    if let Some(name) = declared_name_exec(&t) {
                        return Some(name);
                    }
                }
                i = i + 1;
            }
            return None;
        }
        p = p + 1;
    }
    None
}

/// Whether two character vectors are equal.
fn vec_eq(a: &Vec<char>, b: &Vec<char>) -> (r: bool)
    ensures
        r == (a@ == b@),
{
    if a.len() != b.len() {
        return false;
    }
    let mut i: usize = 0;
    while i < a.len()
        invariant
            a@.len() == b@.len(),
            i <= a@.len(),
            forall|j: int| 0 <= j < i ==> a@[j] == b@[j],
        decreases a@.len() - i,
    {
        if a[i] != b[i] {
            return false;
        }
        i = i + 1;
    }
    assert(a@ =~= b@);
    true
}


/// Each mapping annotation names its HTTP method, the first of `@GetMapping`,
/// `@PostMapping`, `@PutMapping` and `@DeleteMapping` that occurs deciding;
/// a segment that carries any mapping annotation never has method
/// `UNKNOWN`.
pub proof fn law_spring_method_by_annotation(c: Seq<char>)
    ensures
        contains(c, "@GetMapping"@) ==> spring_method(c) == "GET"@,
        !contains(c, "@GetMapping"@) && contains(c, "@PostMapping"@) ==> spring_method(c) == "POST"@,
        !contains(c, "@GetMapping"@) && !contains(c, "@PostMapping"@) && contains(c, "@PutMapping"@)
            ==> spring_method(c) == "PUT"@,
        !contains(c, "@GetMapping"@) && !contains(c, "@PostMapping"@) && !contains(c, "@PutMapping"@)
            && contains(c, "@DeleteMapping"@) ==> spring_method(c) == "DELETE"@,
        contains(c, "@GetMapping"@) || contains(c, "@PostMapping"@) || contains(c, "@PutMapping"@) || contains(
            c,
            "@DeleteMapping"@,
        ) || contains(c, "@RequestMapping"@) ==> spring_method(c) != "UNKNOWN"@,
{
    reveal_strlit("GET");
    reveal_strlit("POST");
    reveal_strlit("PUT");
    reveal_strlit("DELETE");
    reveal_strlit("ANY");
    reveal_strlit("UNKNOWN");
    assert("GET"@ != "UNKNOWN"@ && "POST"@ != "UNKNOWN"@ && "PUT"@ != "UNKNOWN"@) by {
        assert("GET"@.len() != "UNKNOWN"@.len());
        assert("POST"@.len() != "UNKNOWN"@.len());
        assert("PUT"@.len() != "UNKNOWN"@.len());
    }
    assert("DELETE"@ != "UNKNOWN"@ && "ANY"@ != "UNKNOWN"@) by {
        assert("DELETE"@.len() != "UNKNOWN"@.len());
        assert("ANY"@.len() != "UNKNOWN"@.len());
    }
    if let Some(m) = request_mapping_method(c) {
        assert(m == "GET"@ || m == "POST"@ || m == "PUT"@ || m == "DELETE"@);
    }
}

/// A segment with a mapping annotation whose path can be cut out gives a
/// route, with a known method; one with `@PutMapping` and neither
/// `@GetMapping` nor `@PostMapping` gives a `PUT` route.
pub proof fn law_spring_route_method(c: Seq<char>)
    requires
        mapping_path(c) is Ok,
    ensures
        contains(c, "@GetMapping"@) || contains(c, "@PostMapping"@) || contains(c, "@PutMapping"@) || contains(
            c,
            "@DeleteMapping"@,
        ) || contains(c, "@RequestMapping"@) ==> (spring_route(c) matches Ok(Some(r)) && r.method != "UNKNOWN"@
            && r.handler == "Spring Boot Controller Method"@),
        !contains(c, "@GetMapping"@) && !contains(c, "@PostMapping"@) && contains(c, "@PutMapping"@)
            ==> (spring_route(c) matches Ok(Some(r)) && r.method == "PUT"@),
{
    law_spring_method_by_annotation(c);
}
} // verus!
