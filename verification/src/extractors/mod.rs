//! Route, model and hint extraction from the text of source-code segments.
pub mod python;
pub mod typescript;
pub mod java;

use vstd::prelude::*;
use crate::text::{
    chars_of, line_ranges, lines,
    copy_range, find, find_str, lemma_find, owned, string_from_chars, trim, trim_both, trim_range,
    CharClass,
};

verus! {

/// A route recognised in a segment of source code.
pub struct RouteInfo {
    pub path: String,
    pub method: String,
    pub handler: String,
    pub middleware: Vec<String>,
}

/// The mathematical content of a [`RouteInfo`].
pub struct RouteSpec {
    pub path: Seq<char>,
    pub method: Seq<char>,
    pub handler: Seq<char>,
    pub middleware: Seq<Seq<char>>,
}

impl View for RouteInfo {
    type V = RouteSpec;

    open spec fn view(&self) -> RouteSpec {
        RouteSpec {
            path: self.path@,
            method: self.method@,
            handler: self.handler@,
            middleware: self.middleware@.map_values(|m: String| m@),
        }
    }
}

/// The view of an optional route.
pub open spec fn route_view(r: Option<RouteInfo>) -> Option<RouteSpec> {
    match r {
        Some(x) => Some(x@),
        None => None,
    }
}

/// A route with no middleware.
pub open spec fn route(path: Seq<char>, method: Seq<char>, handler: Seq<char>) -> RouteSpec {
    RouteSpec { path, method, handler, middleware: seq![] }
}

/// Builds a route with no middleware.
pub fn make_route(path: String, method: String, handler: &str) -> (r: RouteInfo)
    ensures
        r@ == route(path@, method@, handler@),
{
    let r = RouteInfo { path, method, handler: owned(handler), middleware: Vec::new() };
    assert(r@.middleware =~= Seq::<Seq<char>>::empty());
    r
}

/// A decorator argument: the text before the first comma, trimmed of white
/// space and then of quotes.
pub open spec fn first_argument(params: Seq<char>) -> Seq<char> {
    let before = match find(params, ","@) {
        Some(k) => params.subrange(0, k),
        None => params,
    };
    trim_both(trim(before), CharClass::Quote)
}

/// `first_argument` of `s[a..b]`, as a new string.
pub fn first_argument_of(s: &Vec<char>, a: usize, b: usize) -> (r: String)
    requires
        a <= b <= s@.len(),
    ensures
        r@ == first_argument(s@.subrange(a as int, b as int)),
{
    let params = copy_range(s, a, b);
    let end = match find_str(&params, ",") {
        Some(k) => {
            proof { lemma_find(params@, ","@); }
            k
        },
        None => params.len(),
    };
    proof {
        if find(params@, ","@) is None {
            assert(params@.subrange(0, params@.len() as int) =~= params@);
        }
    }
    let (x, y) = trim_range(&params, 0, end, &CharClass::WhiteSpace);
    let (u, v) = trim_range(&params, x, y, &CharClass::Quote);
    string_from_chars(&params, u, v)
}

/// Where `pat` first occurs in `s[a..b]`, relative to `a`.
pub fn find_in(s: &Vec<char>, a: usize, b: usize, pat: &str) -> (r: Option<usize>)
    requires
        a <= b <= s@.len(),
    ensures
        r matches Some(k) ==> find(s@.subrange(a as int, b as int), pat@) == Some(k as int),
        r is None ==> find(s@.subrange(a as int, b as int), pat@) is None,
{
    let v = copy_range(s, a, b);
    find_str(&v, pat)
}


/// The line-oriented route parsers.
pub enum LineParser {
    Flask,
    FastApi,
    Express,
}

/// What one line gives to a line-oriented parser: nothing (`None`), a route,
/// or `Err` where a delimiter comes before the text it should follow, so
/// that the text cannot be cut out.
pub open spec fn parse_line(p: LineParser, l: Seq<char>) -> Option<Result<RouteSpec, ()>> {
    match p {
        LineParser::Flask => crate::extractors::python::flask_line(l),
        LineParser::FastApi => crate::extractors::python::fastapi_line(l),
        LineParser::Express => crate::extractors::typescript::express_line(l),
    }
}

/// The route of the first line, from `i` on, that gives one.
pub open spec fn first_route(ls: Seq<Seq<char>>, i: int, p: LineParser) -> Result<Option<RouteSpec>, ()>
    decreases ls.len() - i,
{
    if i < 0 || i >= ls.len() {
        Ok(None)
    } else {
        match parse_line(p, ls[i]) {
            None => first_route(ls, i + 1, p),
            Some(Err(e)) => Err(e),
            Some(Ok(r)) => Ok(Some(r)),
        }
    }
}

/// The route that a line gives, if it gives one without panicking.
pub open spec fn line_route(o: Option<Result<RouteSpec, ()>>) -> Option<RouteSpec> {
    match o {
        Some(Ok(r)) => Some(r),
        _ => None,
    }
}

fn parse_line_exec(p: &LineParser, l: &Vec<char>) -> (r: Option<RouteInfo>)
    requires
        parse_line(*p, l@) != Some(Err::<RouteSpec, ()>(())),
    ensures
        route_view(r) == line_route(parse_line(*p, l@)),
{
    match p {
        LineParser::Flask => crate::extractors::python::flask_line_exec(l),
        LineParser::FastApi => crate::extractors::python::fastapi_line_exec(l),
        LineParser::Express => crate::extractors::typescript::express_line_exec(l),
    }
}

/// Runs a line-oriented parser over the lines of `content`.
pub fn first_route_exec(content: &str, p: &LineParser) -> (r: Option<RouteInfo>)
    requires
        first_route(lines(content@), 0, *p) is Ok,
    ensures
        Ok::<Option<RouteSpec>, ()>(route_view(r)) == first_route(lines(content@), 0, *p),
{
    let cs = chars_of(content);
    let ranges = line_ranges(&cs);
    let ghost ls = lines(content@);
    let mut k: usize = 0;
    while k < ranges.len()
        invariant
            cs@ == content@,
            ls == lines(cs@),
            ranges@.len() == ls.len(),
            forall|j: int|
                0 <= j < ranges@.len() ==> {
                    &&& (#[trigger] ranges@[j]).0 <= ranges@[j].1 <= cs@.len()
                    &&& cs@.subrange(ranges@[j].0 as int, ranges@[j].1 as int) == ls[j]
                },
            k <= ranges@.len(),
            first_route(ls, 0, *p) == first_route(ls, k as int, *p),
            first_route(ls, 0, *p) is Ok,
        decreases ranges@.len() - k,
    {
        let (a, b) = ranges[k];
        let l = copy_range(&cs, a, b);
        assert(l@ == ls[k as int]);
        if let Some(r) = parse_line_exec(p, &l) {
            return Some(r);
        }
        k = k + 1;
    }
    None
}


/// The line-by-line item extractors.
pub enum LineItem {
    PythonModelField,
    PythonRelationship,
    TypeScriptDecorator,
    JavaEntityField,
}

/// The item that one line gives to an item extractor.
pub open spec fn line_item(f: LineItem, l: Seq<char>) -> Option<Seq<char>> {
    match f {
        LineItem::PythonModelField => crate::extractors::python::model_field_of(l),
        LineItem::PythonRelationship => crate::extractors::python::relationship_of(l),
        LineItem::TypeScriptDecorator => crate::extractors::typescript::decorator_of(l),
        LineItem::JavaEntityField => crate::extractors::java::entity_field_of(l),
    }
}

/// The items that the lines `ls` give, in order.
pub open spec fn collect_items(ls: Seq<Seq<char>>, f: LineItem) -> Seq<Seq<char>>
    decreases ls.len(),
{
    if ls.len() == 0 {
        seq![]
    } else {
        collect_items(ls.drop_last(), f) + match line_item(f, ls.last()) {
            Some(x) => seq![x],
            None => seq![],
        }
    }
}

fn line_item_exec(f: &LineItem, l: &Vec<char>) -> (r: Option<String>)
    ensures
        match r {
            Some(x) => line_item(*f, l@) == Some(x@),
            None => line_item(*f, l@) is None,
        },
{
    match f {
        LineItem::PythonModelField => crate::extractors::python::model_field_exec(l),
        LineItem::PythonRelationship => crate::extractors::python::relationship_exec(l),
        LineItem::TypeScriptDecorator => crate::extractors::typescript::decorator_exec(l),
        LineItem::JavaEntityField => crate::extractors::java::entity_field_exec(l),
    }
}

/// Runs an item extractor over the lines of `content`.
pub fn collect_items_exec(content: &str, f: &LineItem) -> (r: Vec<String>)
    ensures
        r@.map_values(|x: String| x@) == collect_items(lines(content@), *f),
{
    let cs = chars_of(content);
    let ranges = line_ranges(&cs);
    let ghost ls = lines(content@);
    let mut out: Vec<String> = Vec::new();
    let mut k: usize = 0;
    while k < ranges.len()
        invariant
            cs@ == content@,
            ls == lines(cs@),
            ranges@.len() == ls.len(),
            forall|j: int|
                0 <= j < ranges@.len() ==> {
                    &&& (#[trigger] ranges@[j]).0 <= ranges@[j].1 <= cs@.len()
                    &&& cs@.subrange(ranges@[j].0 as int, ranges@[j].1 as int) == ls[j]
                },
            k <= ranges@.len(),
            out@.map_values(|x: String| x@) == collect_items(ls.take(k as int), *f),
        decreases ranges@.len() - k,
    {
        let ghost before = out@;
        let (a, b) = ranges[k];
        let l = copy_range(&cs, a, b);
        assert(l@ == ls[k as int]);
        assert(ls.take(k + 1).drop_last() =~= ls.take(k as int));
        match line_item_exec(f, &l) {
            Some(x) => {
                out.push(x);
                assert(out@.map_values(|x: String| x@) =~= before.map_values(|x: String| x@) + seq![ls[k as int]].map_values(|l: Seq<char>| line_item(*f, l).unwrap()));
            },
            None => {},
        }
        assert(out@.map_values(|x: String| x@) =~= collect_items(ls.take(k + 1), *f));
        k = k + 1;
    }
    assert(ls.take(ranges@.len() as int) =~= ls);
    out
}

} // verus!
