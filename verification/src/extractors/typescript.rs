//! Route, component and hint extraction from the text of TypeScript segments.
use vstd::prelude::*;
use crate::extractors::python::{hint_if, push_hint, views};
use crate::extractors::{
    collect_items, collect_items_exec, first_route, first_route_exec, make_route, parse_line,
    route, route_view, LineItem, LineParser, RouteInfo, RouteSpec,
};
use crate::text::{
    char_to_upper, char_uppercase, chars_of, contains, contains_str, copy_range, find, find_str,
    index_of_any, index_of_any_exec, lemma_find, line_ranges, lines, lowercase, owned, split,
    split_ranges, starts_with, starts_with_at, string_from_chars, to_lower, to_upper, trim,
    trim_both, trim_range, uppercase, CharClass,
};
use crate::types::Framework;

verus! {

/// Extracts functions, classes, interfaces and routes from TypeScript code.
pub struct TypeScriptExtractor;

/// `to_title_case`: the first character uppercased, the rest lowercased.
pub open spec fn title_case(s: Seq<char>) -> Seq<char> {
    if s.len() == 0 {
        seq![]
    } else {
        char_uppercase(s[0]) + lowercase(s.drop_first())
    }
}

/// The first character of `s` uppercased and the rest lowercased.
pub fn to_title_case(s: &str) -> (r: String)
    ensures
        r@ == title_case(s@),
{
    let cs = chars_of(s);
    if cs.len() == 0 {
        return String::new();
    }
    let mut first = char_to_upper(cs[0]);
    let rest = string_from_chars(&cs, 1, cs.len());
    let low = to_lower(rest.as_str());
    assert(rest@ =~= s@.drop_first());
    first.append(low.as_str());
    first
}

/// The HTTP method of a NestJS handler, from its decorator.
pub open spec fn nestjs_method(c: Seq<char>) -> Seq<char> {
    if contains(c, "@Get"@) {
        "GET"@
    } else if contains(c, "@Post"@) {
        "POST"@
    } else if contains(c, "@Put"@) {
        "PUT"@
    } else if contains(c, "@Delete"@) {
        "DELETE"@
    } else {
        "UNKNOWN"@
    }
}

/// The path of a NestJS handler: the argument of its method decorator,
/// trimmed of quotes, or `/`; `Err` where a delimiter comes before the text it should follow,
/// so that the text cannot be cut out.
pub open spec fn nestjs_path(c: Seq<char>) -> Result<Seq<char>, ()> {
    match find(c, "@"@ + title_case(nestjs_method(c))) {
        Some(st) => {
            let after = c.subrange(st, c.len() as int);
            match find(after, "("@) {
                Some(ps) => match find(after, ")"@) {
                    Some(pe) => if pe < ps + 1 {
                        Err(())
                    } else {
                        Ok(trim_both(after.subrange(ps + 1, pe), CharClass::Quote))
                    },
                    None => Ok("/"@),
                },
                None => Ok("/"@),
            }
        },
        None => Ok("/"@),
    }
}

/// The route of a NestJS handler; `Err` where a delimiter comes before the text it should
/// follow, so that the text cannot be cut out.
pub open spec fn nestjs_route(c: Seq<char>) -> Result<Option<RouteSpec>, ()> {
    match nestjs_path(c) {
        Ok(p) => Ok(Some(route(p, nestjs_method(c), "NestJS Controller Method"@))),
        Err(e) => Err(e),
    }
}

/// What one line gives to the Express route parser.
pub open spec fn express_line(l: Seq<char>) -> Option<Result<RouteSpec, ()>> {
    if contains(l, "app."@) || contains(l, "router."@) {
        match find(l, "."@) {
            Some(md) => {
                let after_dot = l.subrange(md + 1, l.len() as int);
                match find(after_dot, "("@) {
                    Some(p) => {
                        let after_paren = after_dot.subrange(p + 1, after_dot.len() as int);
                        match find(after_paren, ","@) {
                            Some(cm) => Some(
                                Ok(
                                    route(
                                        trim_both(
                                            trim(after_paren.subrange(0, cm)),
                                            CharClass::Quote,
                                        ),
                                        uppercase(after_dot.subrange(0, p)),
                                        "Express Route Handler"@,
                                    ),
                                ),
                            ),
                            None => None,
                        }
                    },
                    None => None,
                }
            },
            None => None,
        }
    } else {
        None
    }
}

/// The Express parser never panics: it gives a route or nothing on each line.
pub proof fn lemma_express_total(ls: Seq<Seq<char>>, i: int)
    requires
        0 <= i,
    ensures
        first_route(ls, i, LineParser::Express) is Ok,
    decreases ls.len() - i,
{
    if i < ls.len() {
        lemma_express_total(ls, i + 1);
    }
}

/// The route of a Next.js API handler (its path comes from the file system).
pub open spec fn nextjs_route() -> RouteSpec {
    route("/api/*"@, "ANY"@, "Next.js API Handler"@)
}

/// The route of a TypeScript segment; `Err` where a delimiter comes before the text it should
/// follow, so that the text cannot be cut out.
pub open spec fn typescript_route(c: Seq<char>) -> Result<Option<RouteSpec>, ()> {
    if contains(c, "@Get"@) || contains(c, "@Post"@) || contains(c, "@Put"@) || contains(
        c,
        "@Delete"@,
    ) {
        nestjs_route(c)
    } else if contains(c, "app.get"@) || contains(c, "app.post"@) || contains(c, "router.get"@)
        || contains(c, "router.post"@) {
        first_route(lines(c), 0, LineParser::Express)
    } else if contains(c, "export default"@) && contains(c, "req"@) && contains(c, "res"@) {
        Ok(Some(nextjs_route()))
    } else {
        Ok(None)
    }
}

/// The framework of a route segment.
pub open spec fn typescript_route_framework(c: Seq<char>) -> Option<Framework> {
    if contains(c, "@Get"@) || contains(c, "@Post"@) || contains(c, "@Injectable"@) {
        Some(Framework::NestJS)
    } else if contains(c, "app.get"@) || contains(c, "express"@) {
        Some(Framework::Express)
    } else if contains(c, "NextApiRequest"@) || contains(c, "NextApiResponse"@) {
        Some(Framework::NextJS)
    } else {
        None
    }
}

/// The decorator that a line holds, trimmed.
pub open spec fn decorator_of(l: Seq<char>) -> Option<Seq<char>> {
    if starts_with(trim(l), "@"@) {
        Some(trim(l))
    } else {
        None
    }
}

pub fn decorator_exec(l: &Vec<char>) -> (r: Option<String>)
    ensures
        match r {
            Some(x) => decorator_of(l@) == Some(x@),
            None => decorator_of(l@) is None,
        },
{
    let (a, b) = trim_range(l, 0, l.len(), &CharClass::WhiteSpace);
    assert(l@.subrange(0, l@.len() as int) =~= l@);
    if starts_with_at(l, a, b, "@") {
        Some(string_from_chars(l, a, b))
    } else {
        None
    }
}

/// The name after `extends `, up to the next `{`, space or newline, trimmed.
pub open spec fn extends_clause(c: Seq<char>) -> Option<Seq<char>> {
    match find(c, "extends "@) {
        Some(es) => {
            let after = c.subrange(es + 8, c.len() as int);
            match index_of_any(after, seq!['{', ' ', '\n']) {
                Some(end) => Some(trim(after.subrange(0, end))),
                None => None,
            }
        },
        None => None,
    }
}

/// The names listed after `implements ` up to the next `{`, each trimmed.
pub open spec fn implements_clause(c: Seq<char>) -> Seq<Seq<char>> {
    match find(c, "implements "@) {
        Some(is) => {
            let after = c.subrange(is + 11, c.len() as int);
            match find(after, "{"@) {
                Some(end) => split(trim(after.subrange(0, end)), ',').map_values(
                    |x: Seq<char>| trim(x),
                ),
                None => seq![],
            }
        },
        None => seq![],
    }
}

/// The React props destructured on one line; `Err` where a delimiter comes before the text it
/// should follow, so that the text cannot be cut out.
pub open spec fn props_of_line(l: Seq<char>) -> Result<Seq<Seq<char>>, ()> {
    if contains(l, "props"@) || contains(l, "const {"@) {
        match (find(l, "{"@), find(l, "}"@)) {
            (Some(st), Some(en)) => if en < st + 1 {
                Err(())
            } else {
                Ok(split(l.subrange(st + 1, en), ',').map_values(|x: Seq<char>| trim(x)))
            },
            _ => Ok(seq![]),
        }
    } else {
        Ok(seq![])
    }
}

/// The React props of the lines `ls`, in order.
pub open spec fn react_props(ls: Seq<Seq<char>>) -> Result<Seq<Seq<char>>, ()>
    decreases ls.len(),
{
    if ls.len() == 0 {
        Ok(seq![])
    } else {
        match (react_props(ls.drop_last()), props_of_line(ls.last())) {
            (Ok(a), Ok(b)) => Ok(a + b),
            _ => Err(()),
        }
    }
}

/// The React hooks used by a component, in a fixed order.
pub open spec fn react_hooks(c: Seq<char>) -> Seq<Seq<char>> {
    hint_if(contains(c, "useState"@), "useState"@) + hint_if(contains(c, "useEffect"@), "useEffect"@)
        + hint_if(contains(c, "useContext"@), "useContext"@) + hint_if(
        contains(c, "useReducer"@),
        "useReducer"@,
    ) + hint_if(contains(c, "useCallback"@), "useCallback"@) + hint_if(
        contains(c, "useMemo"@),
        "useMemo"@,
    ) + hint_if(contains(c, "useRef"@), "useRef"@) + hint_if(
        contains(c, "useLayoutEffect"@),
        "useLayoutEffect"@,
    )
}

/// Whether a class or function is a React component.
pub open spec fn is_react(c: Seq<char>) -> bool {
    ||| contains(c, "React.Component"@)
    ||| contains(c, "Component"@)
    ||| contains(c, "jsx"@)
    ||| contains(c, "tsx"@)
    ||| contains(c, "useState"@)
    ||| contains(c, "useEffect"@)
}

/// The business-domain hints of a TypeScript segment (on its lowercase text).
pub open spec fn typescript_hints(low: Seq<char>) -> Seq<Seq<char>> {
    hint_if(
        contains(low, "auth"@) || contains(low, "login"@) || contains(low, "password"@),
        "Authentication"@,
    ) + hint_if(
        contains(low, "user"@) || contains(low, "profile"@) || contains(low, "account"@),
        "User Management"@,
    ) + hint_if(
        contains(low, "notification"@) || contains(low, "email"@) || contains(low, "sms"@),
        "Notification"@,
    ) + hint_if(
        contains(low, "payment"@) || contains(low, "billing"@) || contains(low, "subscription"@),
        "Payment"@,
    ) + hint_if(
        contains(low, "analytics"@) || contains(low, "tracking"@) || contains(low, "metrics"@),
        "Analytics"@,
    )
}

/// The route that one line gives to the Express parser.
pub fn express_line_exec(l: &Vec<char>) -> (r: Option<RouteInfo>)
    requires
        express_line(l@) != Some(Err::<RouteSpec, ()>(())),
    ensures
        route_view(r) == crate::extractors::line_route(express_line(l@)),
{
    if !(contains_str(l, "app.") || contains_str(l, "router.")) {
        return None;
    }
    proof {
        lemma_find(l@, "."@);
        reveal_strlit(".");
    }
    let md = match find_str(l, ".") {
        Some(k) => k,
        None => {
            return None;
        },
    };
    let n = l.len();
    let after_dot = copy_range(l, md + 1, n);
    proof {
        lemma_find(after_dot@, "("@);
        reveal_strlit("(");
    }
    let p = match find_str(&after_dot, "(") {
        Some(k) => k,
        None => {
            return None;
        },
    };
    let m = after_dot.len();
    let after_paren = copy_range(&after_dot, p + 1, m);
    proof {
        lemma_find(after_paren@, ","@);
    }
    let cm = match find_str(&after_paren, ",") {
        Some(k) => k,
        None => {
            return None;
        },
    };
    let (a, b) = trim_range(&after_paren, 0, cm, &CharClass::WhiteSpace);
    let (u, v) = trim_range(&after_paren, a, b, &CharClass::Quote);
    let path = string_from_chars(&after_paren, u, v);
    let name = string_from_chars(&after_dot, 0, p);
    let method = to_upper(name.as_str());
    Some(make_route(path, method, "Express Route Handler"))
}

impl TypeScriptExtractor {
    pub fn new() -> (r: Self) {
        TypeScriptExtractor
    }

    /// The route that a segment declares, if any.
    pub fn parse_route_pattern(&self, content: &str) -> (r: Option<RouteInfo>)
        requires
            typescript_route(content@) is Ok,
        ensures
            Ok::<Option<RouteSpec>, ()>(route_view(r)) == typescript_route(content@),
    {
        let cs = chars_of(content);
        if contains_str(&cs, "@Get") || contains_str(&cs, "@Post") || contains_str(&cs, "@Put")
            || contains_str(&cs, "@Delete") {
            return self.parse_nestjs_route(content);
        }
        if contains_str(&cs, "app.get") || contains_str(&cs, "app.post") || contains_str(
            &cs,
            "router.get",
        ) || contains_str(&cs, "router.post") {
            return self.parse_express_route(content);
        }
        if contains_str(&cs, "export default") && contains_str(&cs, "req") && contains_str(
            &cs,
            "res",
        ) {
            return self.parse_nextjs_route(content);
        }
        None
    }

    /// The route of a NestJS handler.
    pub fn parse_nestjs_route(&self, content: &str) -> (r: Option<RouteInfo>)
        requires
            nestjs_path(content@) is Ok,
        ensures
            Ok::<Option<RouteSpec>, ()>(route_view(r)) == nestjs_route(content@),
    {
        let c = chars_of(content);
        let method = if contains_str(&c, "@Get") {
            owned("GET")
        } else if contains_str(&c, "@Post") {
            owned("POST")
        } else if contains_str(&c, "@Put") {
            owned("PUT")
        } else if contains_str(&c, "@Delete") {
            owned("DELETE")
        } else {
            owned("UNKNOWN")
        };
        let mut deco = owned("@");
        let title = to_title_case(method.as_str());
        deco.append(title.as_str());
        let d = chars_of(deco.as_str());
        proof {
            lemma_find(c@, d@);
        }
        let path = match find_chars_of(&c, &d) {
            Some(st) => {
                let n = c.len();
                let after = copy_range(&c, st, n);
                proof {
                    lemma_find(after@, "("@);
                    lemma_find(after@, ")"@);
                    reveal_strlit("(");
                    reveal_strlit(")");
                }
                match find_str(&after, "(") {
                    Some(ps) => match find_str(&after, ")") {
                        Some(pe) => {
                            let (u, v) = trim_range(&after, ps + 1, pe, &CharClass::Quote);
                            string_from_chars(&after, u, v)
                        },
                        None => owned("/"),
                    },
                    None => owned("/"),
                }
            },
            None => owned("/"),
        };
        Some(make_route(path, method, "NestJS Controller Method"))
    }

    /// The route of the first Express `app.` / `router.` call line.
    pub fn parse_express_route(&self, content: &str) -> (r: Option<RouteInfo>)
        ensures
            Ok::<Option<RouteSpec>, ()>(route_view(r)) == first_route(
                lines(content@),
                0,
                LineParser::Express,
            ),
    {
        proof {
            lemma_express_total(lines(content@), 0);
        }
        first_route_exec(content, &LineParser::Express)
    }

    /// The route of a Next.js API handler.
    pub fn parse_nextjs_route(&self, content: &str) -> (r: Option<RouteInfo>)
        ensures
            route_view(r) == Some(nextjs_route()),
    {
        Some(make_route(owned("/api/*"), owned("ANY"), "Next.js API Handler"))
    }

    /// The framework of a route segment.
    pub fn detect_route_framework(&self, content: &str) -> (r: Option<Framework>)
        ensures
            r == typescript_route_framework(content@),
    {
        let c = chars_of(content);
        if contains_str(&c, "@Get") || contains_str(&c, "@Post") || contains_str(&c, "@Injectable") {
            Some(Framework::NestJS)
        } else if contains_str(&c, "app.get") || contains_str(&c, "express") {
            Some(Framework::Express)
        } else if contains_str(&c, "NextApiRequest") || contains_str(&c, "NextApiResponse") {
            Some(Framework::NextJS)
        } else {
            None
        }
    }

    /// Whether a function is declared `async`.
    pub fn is_async_function(&self, content: &str) -> (r: bool)
        ensures
            r == contains(content@, "async "@),
    {
        let c = chars_of(content);
        contains_str(&c, "async ")
    }

    /// The decorators of a segment: its lines that start with `@`, trimmed.
    pub fn extract_decorators(&self, content: &str) -> (r: Vec<String>)
        ensures
            views(r@) == collect_items(lines(content@), LineItem::TypeScriptDecorator),
    {
        collect_items_exec(content, &LineItem::TypeScriptDecorator)
    }

    /// The class a class extends.
    pub fn get_extends_clause(&self, content: &str) -> (r: Option<String>)
        ensures
            match r {
                Some(x) => extends_clause(content@) == Some(x@),
                None => extends_clause(content@) is None,
            },
    {
        let c = chars_of(content);
        proof {
            lemma_find(c@, "extends "@);
            reveal_strlit("extends ");
        }
        match find_str(&c, "extends ") {
            Some(es) => {
                let n = c.len();
                let after = copy_range(&c, es + 8, n);
                let set = vec!['{', ' ', '\n'];
                assert(set@ =~= seq!['{', ' ', '\n']);
                match index_of_any_exec(&after, &set) {
                    Some(end) => {
                        let (a, b) = trim_range(&after, 0, end, &CharClass::WhiteSpace);
                        Some(string_from_chars(&after, a, b))
                    },
                    None => None,
                }
            },
            None => None,
        }
    }

    /// The interfaces a class implements.
    pub fn get_implements_clause(&self, content: &str) -> (r: Vec<String>)
        ensures
            views(r@) == implements_clause(content@),
    {
        let c = chars_of(content);
        proof {
            lemma_find(c@, "implements "@);
            reveal_strlit("implements ");
        }
        let mut out: Vec<String> = Vec::new();
        match find_str(&c, "implements ") {
            Some(is) => {
                let n = c.len();
                let after = copy_range(&c, is + 11, n);
                proof {
                    lemma_find(after@, "{"@);
                }
                match find_str(&after, "{") {
                    Some(end) => {
                        let (a, b) = trim_range(&after, 0, end, &CharClass::WhiteSpace);
                        out = split_trimmed(&after, a, b, ',');
                    },
                    None => {},
                }
            },
            None => {},
        }
        out
    }

    /// Whether a segment is a React component.
    pub fn is_react_component(&self, content: &str) -> (r: bool)
        ensures
            r == is_react(content@),
    {
        let c = chars_of(content);
        contains_str(&c, "React.Component") || contains_str(&c, "Component") || contains_str(
            &c,
            "jsx",
        ) || contains_str(&c, "tsx") || contains_str(&c, "useState") || contains_str(
            &c,
            "useEffect",
        )
    }

    /// The props a component destructures, line by line.
    pub fn extract_react_props(&self, content: &str) -> (r: Vec<String>)
        requires
            react_props(lines(content@)) is Ok,
        ensures
            Ok::<Seq<Seq<char>>, ()>(views(r@)) == react_props(lines(content@)),
    {
        let cs = chars_of(content);
        let ranges = line_ranges(&cs);
        let ghost ls = lines(content@);
        let mut out: Vec<String> = Vec::new();
        let mut k: usize = 0;
        proof {
            assert(ls.take(ls.len() as int) =~= ls);
            lemma_react_props_prefix(ls, ls.len() as int);
            assert(ls.take(0) =~= Seq::<Seq<char>>::empty());
            assert(views(out@) =~= Seq::<Seq<char>>::empty());
        }
        while k < ranges.len()
            invariant
                cs@ == content@,
                ls == lines(cs@),
                ranges@.len() == ls.len(),
                forall|j: int|
                    0 <= j < ranges@.len() ==> {
                        &&& (#[trigger] ranges@[j]).0 <= ranges@[j].1 <= cs@.len()
                        &&& cs@.subrange(ranges@[j].0 as int, ranges@[j].1 as int) == ls[j]
                    },
                k <= ranges@.len(),
                forall|j: int| 0 <= j <= ls.len() ==> #[trigger] react_props(ls.take(j)) is Ok,
                Ok::<Seq<Seq<char>>, ()>(views(out@)) == react_props(ls.take(k as int)),
            decreases ranges@.len() - k,
        {
            let (a, b) = ranges[k];
            let l = copy_range(&cs, a, b);
            assert(l@ == ls[k as int]);
            assert(ls.take(k + 1).drop_last() =~= ls.take(k as int));
            assert(ls.take(k + 1).last() == ls[k as int]);
            assert(react_props(ls.take(k + 1)) is Ok);
            let mut items = props_of_line_exec(&l);
            let ghost before = views(out@);
            let ghost got = views(items@);
            out.append(&mut items);
            assert(views(out@) =~= before + got);
            k = k + 1;
        }
        assert(ls.take(ranges@.len() as int) =~= ls);
        out
    }

    /// The React hooks a component uses.
    pub fn extract_react_hooks(&self, content: &str) -> (r: Vec<String>)
        ensures
            views(r@) == react_hooks(content@),
    {
        let c = chars_of(content);
        let mut h: Vec<String> = Vec::new();
        push_hint(&mut h, contains_str(&c, "useState"), "useState");
        push_hint(&mut h, contains_str(&c, "useEffect"), "useEffect");
        push_hint(&mut h, contains_str(&c, "useContext"), "useContext");
        push_hint(&mut h, contains_str(&c, "useReducer"), "useReducer");
        push_hint(&mut h, contains_str(&c, "useCallback"), "useCallback");
        push_hint(&mut h, contains_str(&c, "useMemo"), "useMemo");
        push_hint(&mut h, contains_str(&c, "useRef"), "useRef");
        push_hint(&mut h, contains_str(&c, "useLayoutEffect"), "useLayoutEffect");
        assert(views(h@) =~= react_hooks(content@));
        h
    }

    /// The business-domain hints of a segment.
    pub fn extract_business_hints(&self, content: &str) -> (r: Vec<String>)
        ensures
            views(r@) == typescript_hints(lowercase(content@)),
    {
        let c = crate::text::lower_chars(content);
        let mut h: Vec<String> = Vec::new();
        push_hint(
            &mut h,
            contains_str(&c, "auth") || contains_str(&c, "login") || contains_str(&c, "password"),
            "Authentication",
        );
        push_hint(
            &mut h,
            contains_str(&c, "user") || contains_str(&c, "profile") || contains_str(&c, "account"),
            "User Management",
        );
        push_hint(
            &mut h,
            contains_str(&c, "notification") || contains_str(&c, "email") || contains_str(&c, "sms"),
            "Notification",
        );
        push_hint(
            &mut h,
            contains_str(&c, "payment") || contains_str(&c, "billing") || contains_str(
                &c,
                "subscription",
            ),
            "Payment",
        );
        push_hint(
            &mut h,
            contains_str(&c, "analytics") || contains_str(&c, "tracking") || contains_str(
                &c,
                "metrics",
            ),
            "Analytics",
        );
        assert(views(h@) =~= typescript_hints(lowercase(content@)));
        h
    }
}

/// Every prefix of lines whose props parse without panic parses without panic.
proof fn lemma_react_props_prefix(ls: Seq<Seq<char>>, n: int)
    requires
        0 <= n <= ls.len(),
        react_props(ls.take(n)) is Ok,
    ensures
        forall|j: int| 0 <= j <= n ==> #[trigger] react_props(ls.take(j)) is Ok,
    decreases n,
{
    if n > 0 {
        assert(ls.take(n).drop_last() =~= ls.take(n - 1));
        lemma_react_props_prefix(ls, n - 1);
    }
}

/// The pieces of `s[a..b]` split at `c`, each trimmed.
fn split_trimmed(s: &Vec<char>, a: usize, b: usize, c: char) -> (r: Vec<String>)
    requires
        a <= b <= s@.len(),
    ensures
        views(r@) == split(s@.subrange(a as int, b as int), c).map_values(|x: Seq<char>| trim(x)),
{
    let ranges = split_ranges(s, a, b, c);
    let ghost parts = split(s@.subrange(a as int, b as int), c);
    let ghost want = parts.map_values(|x: Seq<char>| trim(x));
    let mut out: Vec<String> = Vec::new();
    let mut i: usize = 0;
    while i < ranges.len()
        invariant
            a <= b <= s@.len(),
            parts == split(s@.subrange(a as int, b as int), c),
            want == parts.map_values(|x: Seq<char>| trim(x)),
            ranges@.len() == parts.len(),
            forall|k: int|
                0 <= k < ranges@.len() ==> {
                    &&& a <= (#[trigger] ranges@[k]).0 <= ranges@[k].1 <= b
                    &&& s@.subrange(ranges@[k].0 as int, ranges@[k].1 as int) == parts[k]
                },
            i <= ranges@.len(),
            views(out@) == want.take(i as int),
        decreases ranges@.len() - i,
    {
        let (x, y) = ranges[i];
        let (u, v) = trim_range(s, x, y, &CharClass::WhiteSpace);
        let ghost before = out@;
        let item = string_from_chars(s, u, v);
        assert(item@ == want[i as int]);
        out.push(item);
        assert(views(out@) =~= views(before).push(want[i as int]));
        assert(want.take(i + 1) =~= want.take(i as int).push(want[i as int]));
        i = i + 1;
    }
    assert(want.take(ranges@.len() as int) =~= want);
    out
}

/// The props destructured on one line.
fn props_of_line_exec(l: &Vec<char>) -> (r: Vec<String>)
    requires
        props_of_line(l@) is Ok,
    ensures
        Ok::<Seq<Seq<char>>, ()>(views(r@)) == props_of_line(l@),
{
    let empty: Vec<String> = Vec::new();
    assert(views(empty@) =~= Seq::<Seq<char>>::empty());
    if !(contains_str(l, "props") || contains_str(l, "const {")) {
        return empty;
    }
    proof {
        lemma_find(l@, "{"@);
        lemma_find(l@, "}"@);
        reveal_strlit("{");
        reveal_strlit("}");
    }
    match (find_str(l, "{"), find_str(l, "}")) {
        (Some(st), Some(en)) => split_trimmed(l, st + 1, en, ','),
        _ => empty,
    }
}

/// `str::find` with a pattern held as characters.
fn find_chars_of(s: &Vec<char>, pat: &Vec<char>) -> (r: Option<usize>)
    ensures
        r matches Some(k) ==> find(s@, pat@) == Some(k as int),
        r is None ==> find(s@, pat@) is None,
{
    crate::text::find_chars(s, pat)
}


/// A NestJS handler's method decorator names its HTTP method, the first of
/// `@Get`, `@Post`, `@Put` and `@Delete` that occurs deciding; a handler
/// carrying any of them never has method `UNKNOWN`, and its route, where
/// its path can be cut out, has that method.
pub proof fn law_nestjs_method_by_decorator(c: Seq<char>)
    ensures
        contains(c, "@Get"@) ==> nestjs_method(c) == "GET"@,
        !contains(c, "@Get"@) && contains(c, "@Post"@) ==> nestjs_method(c) == "POST"@,
        !contains(c, "@Get"@) && !contains(c, "@Post"@) && contains(c, "@Put"@) ==> nestjs_method(c) == "PUT"@,
        !contains(c, "@Get"@) && !contains(c, "@Post"@) && !contains(c, "@Put"@) && contains(c, "@Delete"@)
            ==> nestjs_method(c) == "DELETE"@,
        contains(c, "@Get"@) || contains(c, "@Post"@) || contains(c, "@Put"@) || contains(c, "@Delete"@)
            ==> nestjs_method(c) != "UNKNOWN"@,
        nestjs_route(c) matches Ok(Some(r)) ==> r.method == nestjs_method(c) && r.handler == "NestJS Controller Method"@,
{
    assert("GET"@ != "UNKNOWN"@ && "POST"@ != "UNKNOWN"@ && "PUT"@ != "UNKNOWN"@ && "DELETE"@ != "UNKNOWN"@) by {
        reveal_strlit("GET");
        reveal_strlit("POST");
        reveal_strlit("PUT");
        reveal_strlit("DELETE");
        reveal_strlit("UNKNOWN");
        assert("GET"@.len() != "UNKNOWN"@.len());
        assert("POST"@.len() != "UNKNOWN"@.len());
        assert("PUT"@.len() != "UNKNOWN"@.len());
        assert("DELETE"@.len() != "UNKNOWN"@.len());
    }
}
} // verus!
