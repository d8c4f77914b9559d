//! Route, model and hint extraction from the text of Python segments.
use vstd::prelude::*;
use crate::extractors::{
    first_argument, first_argument_of, first_route, first_route_exec, make_route, route,
    route_view, LineParser, RouteInfo, RouteSpec,
};
use crate::text::{
    chars_of, contains, contains_str, copy_range, find, find_str, join, join_strings,
    lemma_find, line_ranges, lines, lower_chars, lowercase, owned, split, split_ranges,
    starts_with, starts_with_at, string_from_chars, trim, trim_both, trim_range, CharClass,
};
use crate::types::Framework;

verus! {

/// Extracts functions, classes, models and routes from Python code.
pub struct PythonExtractor;

/// The HTTP methods of a Flask `methods=[...]` argument; `Err` where the
/// closing bracket comes before the opening one.
pub open spec fn flask_methods(params: Seq<char>) -> Result<Seq<Seq<char>>, ()> {
    match find(params, "methods"@) {
        Some(ms) => {
            let after = params.subrange(ms, params.len() as int);
            match (find(after, "["@), find(after, "]"@)) {
                (Some(bs), Some(be)) => if be < bs + 1 {
                    Err(())
                } else {
                    Ok(
                        split(after.subrange(bs + 1, be), ',').map_values(
                            |m: Seq<char>| trim_both(trim(m), CharClass::Quote),
                        ),
                    )
                },
                _ => Ok(seq!["GET"@]),
            }
        },
        None => Ok(seq!["GET"@]),
    }
}

/// What one line gives to the Flask route parser.
pub open spec fn flask_line(l: Seq<char>) -> Option<Result<RouteSpec, ()>> {
    if contains(l, "@app.route"@) || contains(l, "@bp.route"@) {
        match (find(l, "("@), find(l, ")"@)) {
            (Some(st), Some(en)) => if en < st + 1 {
                Some(Err(()))
            } else {
                let params = l.subrange(st + 1, en);
                let methods = if contains(params, "methods"@) {
                    flask_methods(params)
                } else {
                    Ok(seq!["GET"@])
                };
                match methods {
                    Err(e) => Some(Err(e)),
                    Ok(ms) => Some(
                        Ok(route(first_argument(params), join(ms, ","@), "Flask Route Handler"@)),
                    ),
                }
            },
            _ => None,
        }
    } else {
        None
    }
}

/// The HTTP method that a FastAPI decorator line names.
pub open spec fn fastapi_method(l: Seq<char>) -> Seq<char> {
    if contains(l, ".get"@) {
        "GET"@
    } else if contains(l, ".post"@) {
        "POST"@
    } else if contains(l, ".put"@) {
        "PUT"@
    } else if contains(l, ".delete"@) {
        "DELETE"@
    } else {
        "UNKNOWN"@
    }
}

/// What one line gives to the FastAPI route parser.
pub open spec fn fastapi_line(l: Seq<char>) -> Option<Result<RouteSpec, ()>> {
    if contains(l, "@app."@) || contains(l, "@router."@) {
        match (find(l, "("@), find(l, ")"@)) {
            (Some(st), Some(en)) => if en < st + 1 {
                Some(Err(()))
            } else {
                Some(
                    Ok(
                        route(
                            first_argument(l.subrange(st + 1, en)),
                            fastapi_method(l),
                            "FastAPI Endpoint"@,
                        ),
                    ),
                )
            },
            _ => None,
        }
    } else {
        None
    }
}

/// The route that a Django view gives.
pub open spec fn django_view(c: Seq<char>) -> Option<RouteSpec> {
    if contains(c, "def"@) && contains(c, "request"@) {
        Some(route("/*"@, "ANY"@, "Django View"@))
    } else {
        None
    }
}

/// Whether the segment carries a FastAPI route decorator.
pub open spec fn has_fastapi_decorator(c: Seq<char>) -> bool {
    ||| contains(c, "@app.get"@)
    ||| contains(c, "@app.post"@)
    ||| contains(c, "@app.put"@)
    ||| contains(c, "@app.delete"@)
    ||| contains(c, "@router.get"@)
    ||| contains(c, "@router.post"@)
}

/// The route of a Python segment; `Err` where a delimiter comes before the text it should
/// follow, so that the text cannot be cut out.
pub open spec fn python_route(c: Seq<char>) -> Result<Option<RouteSpec>, ()> {
    if contains(c, "@app.route"@) || contains(c, "@bp.route"@) {
        first_route(lines(c), 0, LineParser::Flask)
    } else if has_fastapi_decorator(c) {
        first_route(lines(c), 0, LineParser::FastApi)
    } else if contains(c, "def"@) && (contains(c, "request"@) || contains(c, "HttpResponse"@)) {
        Ok(django_view(c))
    } else {
        Ok(None)
    }
}

/// The framework that a route segment belongs to (on its lowercase text).
pub open spec fn python_route_framework(low: Seq<char>) -> Option<Framework> {
    if contains(low, "@app.route"@) || contains(low, "flask"@) {
        Some(Framework::Flask)
    } else if contains(low, "@app.get"@) || contains(low, "fastapi"@) {
        Some(Framework::FastAPI)
    } else if contains(low, "django"@) || contains(low, "httpresponse"@) {
        Some(Framework::Django)
    } else {
        None
    }
}

/// The framework that a function belongs to (on its lowercase text).
pub open spec fn python_function_framework(low: Seq<char>) -> Option<Framework> {
    if contains(low, "@app.route"@) || contains(low, "flask"@) {
        Some(Framework::Flask)
    } else if contains(low, "@app.get"@) || contains(low, "fastapi"@) {
        Some(Framework::FastAPI)
    } else if contains(low, "request"@) && contains(low, "response"@) {
        Some(Framework::Django)
    } else {
        None
    }
}

/// The framework that a class belongs to (on its lowercase text).
pub open spec fn python_class_framework(low: Seq<char>) -> Option<Framework> {
    if contains(low, "db.model"@) || contains(low, "sqlalchemy"@) {
        Some(Framework::Flask)
    } else if contains(low, "models.model"@) {
        Some(Framework::Django)
    } else if contains(low, "basemodel"@) {
        Some(Framework::FastAPI)
    } else {
        None
    }
}

/// Whether a class is a database or API model.
pub open spec fn python_is_model(c: Seq<char>) -> bool {
    ||| contains(c, "db.Model"@)
    ||| contains(c, "Base"@)
    ||| contains(c, "declarative_base"@)
    ||| contains(c, "Column"@)
    ||| contains(c, "relationship"@)
    ||| contains(c, "models.Model"@)
    ||| contains(c, "models.CharField"@)
    ||| contains(c, "models.IntegerField"@)
    ||| contains(c, "BaseModel"@)
    ||| contains(c, "Field("@)
}

/// The hint that `on` adds, as a sequence of zero or one names.
pub open spec fn hint_if(on: bool, name: Seq<char>) -> Seq<Seq<char>> {
    if on {
        seq![name]
    } else {
        seq![]
    }
}

/// The business-domain hints of a Python segment (on its lowercase text).
pub open spec fn python_hints(low: Seq<char>) -> Seq<Seq<char>> {
    hint_if(
        contains(low, "auth"@) || contains(low, "login"@) || contains(low, "password"@) || contains(
            low,
            "jwt"@,
        ) || contains(low, "token"@),
        "Authentication"@,
    ) + hint_if(
        contains(low, "user"@) || contains(low, "profile"@) || contains(low, "account"@)
            || contains(low, "permission"@) || contains(low, "role"@),
        "User Management"@,
    ) + hint_if(
        contains(low, "notification"@) || contains(low, "email"@) || contains(low, "sms"@)
            || contains(low, "alert"@) || contains(low, "message"@),
        "Notification"@,
    ) + hint_if(
        contains(low, "payment"@) || contains(low, "billing"@) || contains(low, "subscription"@)
            || contains(low, "invoice"@) || contains(low, "charge"@),
        "Payment"@,
    ) + hint_if(
        contains(low, "analytics"@) || contains(low, "tracking"@) || contains(low, "metrics"@)
            || contains(low, "report"@) || contains(low, "dashboard"@),
        "Analytics"@,
    ) + hint_if(
        contains(low, "product"@) || contains(low, "order"@) || contains(low, "cart"@) || contains(
            low,
            "inventory"@,
        ) || contains(low, "catalog"@),
        "E-commerce"@,
    )
}

/// The views of a vector of strings.
pub open spec fn views(v: Seq<String>) -> Seq<Seq<char>> {
    v.map_values(|s: String| s@)
}

/// Appends `name` when `on` holds.
pub fn push_hint(v: &mut Vec<String>, on: bool, name: &str)
    ensures
        views(final(v)@) == views(old(v)@) + hint_if(on, name@),
{
    let ghost before = v@;
    if on {
        v.push(owned(name));
    }
    assert(views(v@) =~= views(before) + hint_if(on, name@));
}


/// The field that a model line defines, if any.
pub open spec fn model_field_of(l: Seq<char>) -> Option<Seq<char>> {
    let t = trim(l);
    if (contains(t, "Column("@) || contains(t, "db.Column("@) || contains(t, "models."@) || contains(
        t,
        "Field("@,
    )) && contains(t, "="@) {
        match find(t, "="@) {
            Some(eq) => {
                let name = trim(t.subrange(0, eq));
                if name.len() != 0 && !starts_with(name, "_"@) {
                    Some(name)
                } else {
                    None
                }
            },
            None => None,
        }
    } else {
        None
    }
}

/// The relationship that a model line defines, if any.
pub open spec fn relationship_of(l: Seq<char>) -> Option<Seq<char>> {
    let t = trim(l);
    if contains(t, "relationship("@) || contains(t, "ForeignKey("@) || contains(
        t,
        "db.relationship("@,
    ) || contains(t, "models.ForeignKey("@) {
        match find(t, "="@) {
            Some(eq) => {
                let name = trim(t.subrange(0, eq));
                if name.len() != 0 {
                    Some(name)
                } else {
                    None
                }
            },
            None => None,
        }
    } else {
        None
    }
}

/// The text before the first `=` of `l`, trimmed, as a range.
fn before_equals(l: &Vec<char>) -> (r: Option<(usize, usize)>)
    ensures
        match r {
            Some((a, b)) => {
                &&& find(l@, "="@) matches Some(eq) && a <= b <= eq <= l@.len()
                    && l@.subrange(a as int, b as int) == trim(l@.subrange(0, eq))
            },
            None => find(l@, "="@) is None,
        },
{
    match find_str(l, "=") {
        Some(eq) => {
            proof { lemma_find(l@, "="@); }
            let (a, b) = trim_range(l, 0, eq, &CharClass::WhiteSpace);
            Some((a, b))
        },
        None => None,
    }
}

pub fn model_field_exec(line: &Vec<char>) -> (r: Option<String>)
    ensures
        match r {
            Some(x) => model_field_of(line@) == Some(x@),
            None => model_field_of(line@) is None,
        },
{
    let (x, y) = trim_range(line, 0, line.len(), &CharClass::WhiteSpace);
    let t = copy_range(line, x, y);
    assert(line@.subrange(0, line@.len() as int) =~= line@);
    if (contains_str(&t, "Column(") || contains_str(&t, "db.Column(") || contains_str(&t, "models.")
        || contains_str(&t, "Field(")) && contains_str(&t, "=") {
        match before_equals(&t) {
            Some((a, b)) => {
                if b > a && !starts_with_at(&t, a, b, "_") {
                    Some(string_from_chars(&t, a, b))
                } else {
                    None
                }
            },
            None => None,
        }
    } else {
        None
    }
}

pub fn relationship_exec(line: &Vec<char>) -> (r: Option<String>)
    ensures
        match r {
            Some(x) => relationship_of(line@) == Some(x@),
            None => relationship_of(line@) is None,
        },
{
    let (x, y) = trim_range(line, 0, line.len(), &CharClass::WhiteSpace);
    let t = copy_range(line, x, y);
    assert(line@.subrange(0, line@.len() as int) =~= line@);
    if contains_str(&t, "relationship(") || contains_str(&t, "ForeignKey(") || contains_str(
        &t,
        "db.relationship(",
    ) || contains_str(&t, "models.ForeignKey(") {
        match before_equals(&t) {
            Some((a, b)) => {
                if b > a {
                    Some(string_from_chars(&t, a, b))
                } else {
                    None
                }
            },
            None => None,
        }
    } else {
        None
    }
}

/// The methods of a Flask `methods=[...]` argument held in `p`.
fn flask_methods_exec(p: &Vec<char>) -> (r: Vec<String>)
    requires
        flask_methods(p@) is Ok,
    ensures
        Ok::<Seq<Seq<char>>, ()>(views(r@)) == flask_methods(p@),
{
    proof { lemma_find(p@, "methods"@); }
    match find_str(p, "methods") {
        None => {
            let v = vec![owned("GET")];
            assert(views(v@) =~= seq!["GET"@]);
            v
        },
        Some(ms) => {
            let after = copy_range(p, ms, p.len());
            proof {
                lemma_find(after@, "["@);
                lemma_find(after@, "]"@);
            }
            match (find_str(&after, "["), find_str(&after, "]")) {
                (Some(bs), Some(be)) => {
                    let ranges = split_ranges(&after, bs + 1, be, ',');
                    let ghost parts = split(after@.subrange(bs + 1, be as int), ',');
                    let ghost want = parts.map_values(
                        |m: Seq<char>| trim_both(trim(m), CharClass::Quote),
                    );
                    let mut out: Vec<String> = Vec::new();
                    let mut i: usize = 0;
                    while i < ranges.len()
                        invariant
                            bs + 1 <= be <= after@.len(),
                            parts == split(after@.subrange(bs + 1, be as int), ','),
                            want == parts.map_values(
                                |m: Seq<char>| trim_both(trim(m), CharClass::Quote),
                            ),
                            ranges@.len() == parts.len(),
                            forall|k: int|
                                0 <= k < ranges@.len() ==> {
                                    &&& bs + 1 <= (#[trigger] ranges@[k]).0 <= ranges@[k].1 <= be
                                    &&& after@.subrange(ranges@[k].0 as int, ranges@[k].1 as int)
                                        == parts[k]
                                },
                            i <= ranges@.len(),
                            views(out@) == want.take(i as int),
                        decreases ranges@.len() - i,
                    {
                        let (x, y) = ranges[i];
                        let (u, v) = trim_range(&after, x, y, &CharClass::WhiteSpace);
                        let (u2, v2) = trim_range(&after, u, v, &CharClass::Quote);
                        let ghost before = out@;
                        assert(after@.subrange(u as int, v as int) == trim(parts[i as int]));
                        assert(want[i as int] == trim_both(trim(parts[i as int]), CharClass::Quote));
                        let item = string_from_chars(&after, u2, v2);
                        assert(item@ == want[i as int]);
                        out.push(item);
                        assert(views(out@) =~= views(before).push(want[i as int]));
                        assert(want.take(i + 1) =~= want.take(i as int).push(want[i as int]));
                        i = i + 1;
                    }
                    assert(want.take(ranges@.len() as int) =~= want);
                    out
                },
                _ => {
                    let v = vec![owned("GET")];
                    assert(views(v@) =~= seq!["GET"@]);
                    v
                },
            }
        },
    }
}

/// The route that one line gives to the Flask parser (the line must be one
/// whose delimiters come in order).
pub fn flask_line_exec(l: &Vec<char>) -> (r: Option<RouteInfo>)
    requires
        flask_line(l@) != Some(Err::<RouteSpec, ()>(())),
    ensures
        route_view(r) == crate::extractors::line_route(flask_line(l@)),
{
    if !(contains_str(l, "@app.route") || contains_str(l, "@bp.route")) {
        return None;
    }
    proof {
        lemma_find(l@, "("@);
        lemma_find(l@, ")"@);
    }
    let st = match find_str(l, "(") {
        Some(k) => k,
        None => {
            return None;
        },
    };
    let en = match find_str(l, ")") {
        Some(k) => k,
        None => {
            return None;
        },
    };
    assert(st + 1 <= en);
    let params = copy_range(l, st + 1, en);
    let methods: Vec<String> = if contains_str(&params, "methods") {
        flask_methods_exec(&params)
    } else {
        let v = vec![owned("GET")];
        assert(views(v@) =~= seq!["GET"@]);
        v
    };
    let path = first_argument_of(l, st + 1, en);
    let method = join_strings(&methods, ",");
    Some(make_route(path, method, "Flask Route Handler"))
}

fn fastapi_method_exec(l: &Vec<char>) -> (r: String)
    ensures
        r@ == fastapi_method(l@),
{
    if contains_str(l, ".get") {
        owned("GET")
    } else if contains_str(l, ".post") {
        owned("POST")
    } else if contains_str(l, ".put") {
        owned("PUT")
    } else if contains_str(l, ".delete") {
        owned("DELETE")
    } else {
        owned("UNKNOWN")
    }
}

/// The route that one line gives to the FastAPI parser (the line must be one
/// whose delimiters come in order).
pub fn fastapi_line_exec(l: &Vec<char>) -> (r: Option<RouteInfo>)
    requires
        fastapi_line(l@) != Some(Err::<RouteSpec, ()>(())),
    ensures
        route_view(r) == crate::extractors::line_route(fastapi_line(l@)),
{
    if !(contains_str(l, "@app.") || contains_str(l, "@router.")) {
        return None;
    }
    let method = fastapi_method_exec(l);
    proof {
        lemma_find(l@, "("@);
        lemma_find(l@, ")"@);
    }
    let st = match find_str(l, "(") {
        Some(k) => k,
        None => {
            return None;
        },
    };
    let en = match find_str(l, ")") {
        Some(k) => k,
        None => {
            return None;
        },
    };
    assert(st + 1 <= en);
    let path = first_argument_of(l, st + 1, en);
    Some(make_route(path, method, "FastAPI Endpoint"))
}

/// The return annotation of a function definition: the text between the
/// first `->` and the next `:`, trimmed.
pub open spec fn return_annotation(c: Seq<char>) -> Option<Seq<char>> {
    match find(c, "->"@) {
        Some(ap) => {
            let after = c.subrange(ap + 2, c.len() as int);
            match find(after, ":"@) {
                Some(cp) => Some(trim(after.subrange(0, cp))),
                None => None,
            }
        },
        None => None,
    }
}

/// The value assigned to `__tablename__`, trimmed of white space and quotes.
pub open spec fn python_table_name(c: Seq<char>) -> Option<Seq<char>> {
    match find(c, "__tablename__"@) {
        Some(ts) => {
            let after = c.subrange(ts, c.len() as int);
            match find(after, "="@) {
                Some(eq) => {
                    let after_eq = after.subrange(eq + 1, after.len() as int);
                    let line_end = match find(after_eq, "\n"@) {
                        Some(e) => e,
                        None => after_eq.len() as int,
                    };
                    Some(trim_both(trim(after_eq.subrange(0, line_end)), CharClass::Quote))
                },
                None => None,
            }
        },
        None => None,
    }
}

/// The decorators written on the lines just above line `i` (counting from
/// 0), blank lines skipped, in source order; the scan stops at the first
/// other line.
pub open spec fn decorators_above(ls: Seq<Seq<char>>, i: int) -> Seq<Seq<char>>
    decreases i,
{
    if i <= 0 {
        seq![]
    } else {
        let l = if i - 1 < ls.len() {
            trim(ls[i - 1])
        } else {
            seq![]
        };
        if starts_with(l, "@"@) {
            decorators_above(ls, i - 1) + seq![l]
        } else if l.len() == 0 {
            decorators_above(ls, i - 1)
        } else {
            seq![]
        }
    }
}

impl PythonExtractor {
    pub fn new() -> (r: Self) {
        PythonExtractor
    }

    /// The route that a segment declares, if any.
    pub fn parse_route_pattern(&self, content: &str) -> (r: Option<RouteInfo>)
        requires
            python_route(content@) is Ok,
        ensures
            Ok::<Option<RouteSpec>, ()>(route_view(r)) == python_route(content@),
    {
        let cs = chars_of(content);
        if contains_str(&cs, "@app.route") || contains_str(&cs, "@bp.route") {
            return self.parse_flask_route(content);
        }
        if contains_str(&cs, "@app.get") || contains_str(&cs, "@app.post") || contains_str(
            &cs,
            "@app.put",
        ) || contains_str(&cs, "@app.delete") || contains_str(&cs, "@router.get")
            || contains_str(&cs, "@router.post") {
            return self.parse_fastapi_route(content);
        }
        if contains_str(&cs, "def") && (contains_str(&cs, "request") || contains_str(
            &cs,
            "HttpResponse",
        )) {
            return self.parse_django_view(content);
        }
        None
    }

    /// The route of the first `@app.route` / `@bp.route` line.
    pub fn parse_flask_route(&self, content: &str) -> (r: Option<RouteInfo>)
        requires
            first_route(lines(content@), 0, LineParser::Flask) is Ok,
        ensures
            Ok::<Option<RouteSpec>, ()>(route_view(r)) == first_route(lines(content@), 0, LineParser::Flask),
    {
        first_route_exec(content, &LineParser::Flask)
    }

    /// The route of the first `@app.` / `@router.` decorator line.
    pub fn parse_fastapi_route(&self, content: &str) -> (r: Option<RouteInfo>)
        requires
            first_route(lines(content@), 0, LineParser::FastApi) is Ok,
        ensures
            Ok::<Option<RouteSpec>, ()>(route_view(r)) == first_route(lines(content@), 0, LineParser::FastApi),
    {
        first_route_exec(content, &LineParser::FastApi)
    }

    /// A Django view: any function that takes a request.
    pub fn parse_django_view(&self, content: &str) -> (r: Option<RouteInfo>)
        ensures
            route_view(r) == django_view(content@),
    {
        let cs = chars_of(content);
        if contains_str(&cs, "def") && contains_str(&cs, "request") {
            Some(make_route(owned("/*"), owned("ANY"), "Django View"))
        } else {
            None
        }
    }

    /// The methods listed in the `methods=[...]` argument of a Flask route,
    /// `GET` when there is none.
    pub fn extract_flask_methods(&self, params: &str) -> (r: Vec<String>)
        requires
            flask_methods(params@) is Ok,
        ensures
            Ok::<Seq<Seq<char>>, ()>(views(r@)) == flask_methods(params@),
    {
        let p = chars_of(params);
        flask_methods_exec(&p)
    }

    /// The framework of a route segment.
    pub fn detect_route_framework(&self, content: &str) -> (r: Option<Framework>)
        ensures
            r == python_route_framework(lowercase(content@)),
    {
        let low = lower_chars(content);
        if contains_str(&low, "@app.route") || contains_str(&low, "flask") {
            Some(Framework::Flask)
        } else if contains_str(&low, "@app.get") || contains_str(&low, "fastapi") {
            Some(Framework::FastAPI)
        } else if contains_str(&low, "django") || contains_str(&low, "httpresponse") {
            Some(Framework::Django)
        } else {
            None
        }
    }

    /// The framework of a function, from its text.
    pub fn detect_function_framework(&self, content: &str) -> (r: Option<Framework>)
        ensures
            r == python_function_framework(lowercase(content@)),
    {
        let low = lower_chars(content);
        if contains_str(&low, "@app.route") || contains_str(&low, "flask") {
            Some(Framework::Flask)
        } else if contains_str(&low, "@app.get") || contains_str(&low, "fastapi") {
            Some(Framework::FastAPI)
        } else if contains_str(&low, "request") && contains_str(&low, "response") {
            Some(Framework::Django)
        } else {
            None
        }
    }

    /// The framework of a class, from its text.
    pub fn detect_class_framework(&self, content: &str) -> (r: Option<Framework>)
        ensures
            r == python_class_framework(lowercase(content@)),
    {
        let low = lower_chars(content);
        if contains_str(&low, "db.model") || contains_str(&low, "sqlalchemy") {
            Some(Framework::Flask)
        } else if contains_str(&low, "models.model") {
            Some(Framework::Django)
        } else if contains_str(&low, "basemodel") {
            Some(Framework::FastAPI)
        } else {
            None
        }
    }

    /// The framework of a model class (that of its class).
    pub fn detect_model_framework(&self, content: &str) -> (r: Option<Framework>)
        ensures
            r == python_class_framework(lowercase(content@)),
    {
        self.detect_class_framework(content)
    }

    /// Whether a function is declared `async def`.
    pub fn is_async_function(&self, content: &str) -> (r: bool)
        ensures
            r == (starts_with(content@, "async def"@) || contains(content@, "async def"@)),
    {
        let cs = chars_of(content);
        assert(cs@.subrange(0, cs@.len() as int) =~= cs@);
        starts_with_at(&cs, 0, cs.len(), "async def") || contains_str(&cs, "async def")
    }

    /// The return annotation of a function.
    pub fn extract_return_annotation(&self, content: &str) -> (r: Option<String>)
        ensures
            match r {
                Some(x) => return_annotation(content@) == Some(x@),
                None => return_annotation(content@) is None,
            },
    {
        let cs = chars_of(content);
        proof {
            lemma_find(cs@, "->"@);
            reveal_strlit("->");
        }
        match find_str(&cs, "->") {
            Some(ap) => {
                let n = cs.len();
                let after = copy_range(&cs, ap + 2, n);
                proof { lemma_find(after@, ":"@); }
                match find_str(&after, ":") {
                    Some(cp) => {
                        let (a, b) = trim_range(&after, 0, cp, &CharClass::WhiteSpace);
                        Some(string_from_chars(&after, a, b))
                    },
                    None => None,
                }
            },
            None => None,
        }
    }

    /// Whether a class is a database or API model.
    pub fn is_database_model(&self, content: &str) -> (r: bool)
        ensures
            r == python_is_model(content@),
    {
        let c = chars_of(content);
        contains_str(&c, "db.Model") || contains_str(&c, "Base") || contains_str(
            &c,
            "declarative_base",
        ) || contains_str(&c, "Column") || contains_str(&c, "relationship") || contains_str(
            &c,
            "models.Model",
        ) || contains_str(&c, "models.CharField") || contains_str(&c, "models.IntegerField")
            || contains_str(&c, "BaseModel") || contains_str(&c, "Field(")
    }

    /// The table name of a model (`__tablename__ = ...`).
    pub fn extract_table_name(&self, content: &str) -> (r: Option<String>)
        ensures
            match r {
                Some(x) => python_table_name(content@) == Some(x@),
                None => python_table_name(content@) is None,
            },
    {
        let cs = chars_of(content);
        proof { lemma_find(cs@, "__tablename__"@); }
        match find_str(&cs, "__tablename__") {
            Some(ts) => {
                let after = copy_range(&cs, ts, cs.len());
                proof {
                    lemma_find(after@, "="@);
                    reveal_strlit("=");
                }
                match find_str(&after, "=") {
                    Some(eq) => {
                        let after_eq = copy_range(&after, eq + 1, after.len());
                        proof { lemma_find(after_eq@, "\n"@); }
                        let line_end = match find_str(&after_eq, "\n") {
                            Some(e) => e,
                            None => after_eq.len(),
                        };
                        let (a, b) = trim_range(&after_eq, 0, line_end, &CharClass::WhiteSpace);
                        let (u, v) = trim_range(&after_eq, a, b, &CharClass::Quote);
                        Some(string_from_chars(&after_eq, u, v))
                    },
                    None => None,
                }
            },
            None => None,
        }
    }

    /// The fields that a model class defines, one per line.
    pub fn extract_model_fields(&self, content: &str) -> (r: Vec<String>)
        ensures
            views(r@) == crate::extractors::collect_items(
                lines(content@),
                crate::extractors::LineItem::PythonModelField,
            ),
    {
        crate::extractors::collect_items_exec(
            content,
            &crate::extractors::LineItem::PythonModelField,
        )
    }

    /// The relationships that a model class defines, one per line.
    pub fn extract_relationships(&self, content: &str) -> (r: Vec<String>)
        ensures
            views(r@) == crate::extractors::collect_items(
                lines(content@),
                crate::extractors::LineItem::PythonRelationship,
            ),
    {
        crate::extractors::collect_items_exec(
            content,
            &crate::extractors::LineItem::PythonRelationship,
        )
    }

    /// The business-domain hints of a segment.
    pub fn extract_business_hints(&self, content: &str) -> (r: Vec<String>)
        ensures
            views(r@) == python_hints(lowercase(content@)),
    {
        let c = lower_chars(content);
        let mut h: Vec<String> = Vec::new();
        push_hint(
            &mut h,
            contains_str(&c, "auth") || contains_str(&c, "login") || contains_str(&c, "password")
                || contains_str(&c, "jwt") || contains_str(&c, "token"),
            "Authentication",
        );
        push_hint(
            &mut h,
            contains_str(&c, "user") || contains_str(&c, "profile") || contains_str(&c, "account")
                || contains_str(&c, "permission") || contains_str(&c, "role"),
            "User Management",
        );
        push_hint(
            &mut h,
            contains_str(&c, "notification") || contains_str(&c, "email") || contains_str(&c, "sms")
                || contains_str(&c, "alert") || contains_str(&c, "message"),
            "Notification",
        );
        push_hint(
            &mut h,
            contains_str(&c, "payment") || contains_str(&c, "billing") || contains_str(
                &c,
                "subscription",
            ) || contains_str(&c, "invoice") || contains_str(&c, "charge"),
            "Payment",
        );
        push_hint(
            &mut h,
            contains_str(&c, "analytics") || contains_str(&c, "tracking") || contains_str(
                &c,
                "metrics",
            ) || contains_str(&c, "report") || contains_str(&c, "dashboard"),
            "Analytics",
        );
        push_hint(
            &mut h,
            contains_str(&c, "product") || contains_str(&c, "order") || contains_str(&c, "cart")
                || contains_str(&c, "inventory") || contains_str(&c, "catalog"),
            "E-commerce",
        );
        assert(views(h@) =~= python_hints(lowercase(content@)));
        h
    }

    /// The decorators written just above line `start_line` of `source`.
    pub fn extract_decorators(&self, source: &str, start_line: usize) -> (r: Vec<String>)
        ensures
            views(r@) == decorators_above(lines(source@), start_line as int),
    {
        let cs = chars_of(source);
        let ranges = line_ranges(&cs);
        let ghost ls = lines(source@);
        let mut decorators: Vec<String> = Vec::new();
        let mut i = start_line;
        while i > 0
            invariant
                cs@ == source@,
                ls == lines(cs@),
                ranges@.len() == ls.len(),
                forall|j: int|
                    0 <= j < ranges@.len() ==> {
                        &&& (#[trigger] ranges@[j]).0 <= ranges@[j].1 <= cs@.len()
                        &&& cs@.subrange(ranges@[j].0 as int, ranges@[j].1 as int) == ls[j]
                    },
                i <= start_line,
                decorators_above(ls, start_line as int) == decorators_above(ls, i as int) + views(
                    decorators@,
                ),
            decreases i,
        {
            let ghost before = decorators@;
            let (a, b) = if i - 1 < ranges.len() {
                let (x, y) = ranges[i - 1];
                trim_range(&cs, x, y, &CharClass::WhiteSpace)
            } else {
                (0, 0)
            };
            assert(cs@.subrange(a as int, b as int) == (if i - 1 < ls.len() {
                trim(ls[i - 1])
            } else {
                seq![]
            }));
            if starts_with_at(&cs, a, b, "@") {
                decorators.insert(0, string_from_chars(&cs, a, b));
                assert(views(decorators@) =~= seq![cs@.subrange(a as int, b as int)] + views(before));
            } else if b > a {
                return decorators;
            }
            i = i - 1;
        }
        decorators
    }
}


/// A FastAPI decorator line names its HTTP method, the first of `.get`,
/// `.post`, `.put` and `.delete` that occurs deciding; a line naming any of
/// them never has method `UNKNOWN`.
pub proof fn law_fastapi_method_by_call(l: Seq<char>)
    ensures
        contains(l, ".get"@) ==> fastapi_method(l) == "GET"@,
        !contains(l, ".get"@) && contains(l, ".post"@) ==> fastapi_method(l) == "POST"@,
        !contains(l, ".get"@) && !contains(l, ".post"@) && contains(l, ".put"@) ==> fastapi_method(l) == "PUT"@,
        !contains(l, ".get"@) && !contains(l, ".post"@) && !contains(l, ".put"@) && contains(l, ".delete"@)
            ==> fastapi_method(l) == "DELETE"@,
        contains(l, ".get"@) || contains(l, ".post"@) || contains(l, ".put"@) || contains(l, ".delete"@)
            ==> fastapi_method(l) != "UNKNOWN"@,
{
    assert("GET"@ != "UNKNOWN"@ && "POST"@ != "UNKNOWN"@ && "PUT"@ != "UNKNOWN"@ && "DELETE"@ != "UNKNOWN"@) by {
        reveal_strlit("GET");
        reveal_strlit("POST");
        reveal_strlit("PUT");
        reveal_strlit("DELETE");
        reveal_strlit("UNKNOWN");
        assert("GET"@.len() != "UNKNOWN"@.len());
        assert("POST"@.len() != "UNKNOWN"@.len());
        assert("PUT"@.len() != "UNKNOWN"@.len());
        assert("DELETE"@.len() != "UNKNOWN"@.len());
    }
}

/// The route that a FastAPI decorator line gives is a FastAPI endpoint with
/// the method the line names: a `.delete` line that names no other method
/// gives a `DELETE` route, and no line naming a method gives `UNKNOWN`.
pub proof fn law_fastapi_line_route(l: Seq<char>)
    ensures
        fastapi_line(l) matches Some(Ok(r)) ==> r.handler == "FastAPI Endpoint"@,
        (fastapi_line(l) matches Some(Ok(r)) && !contains(l, ".get"@) && !contains(l, ".post"@) && !contains(
            l,
            ".put"@,
        ) && contains(l, ".delete"@)) ==> fastapi_line(l)->Some_0->Ok_0.method == "DELETE"@,
        (fastapi_line(l) matches Some(Ok(r)) && (contains(l, ".get"@) || contains(l, ".post"@) || contains(
            l,
            ".put"@,
        ) || contains(l, ".delete"@))) ==> fastapi_line(l)->Some_0->Ok_0.method != "UNKNOWN"@,
{
    law_fastapi_method_by_call(l);
}

/// The route of a FastAPI segment (one with a FastAPI decorator and no
/// Flask route) is the route that one of its lines gives.
pub proof fn law_fastapi_route_from_a_line(c: Seq<char>)
    ensures
        !contains(c, "@app.route"@) && !contains(c, "@bp.route"@) && has_fastapi_decorator(c) ==> (python_route(c) matches Ok(Some(r))
            ==> exists|k: int| 0 <= k < lines(c).len() && #[trigger] fastapi_line(lines(c)[k]) == Some(Ok::<RouteSpec, ()>(r))),
{
    lemma_first_route_line(lines(c), 0, LineParser::FastApi);
}

proof fn lemma_first_route_line(ls: Seq<Seq<char>>, i: int, p: LineParser)
    requires
        0 <= i,
    ensures
        first_route(ls, i, p) matches Ok(Some(r)) ==> exists|k: int| i <= k < ls.len() && #[trigger] crate::extractors::parse_line(p, ls[k]) == Some(Ok::<RouteSpec, ()>(r)),
    decreases ls.len() - i,
{
    if i < ls.len() {
        lemma_first_route_line(ls, i + 1, p);
        if let Ok(Some(r)) = first_route(ls, i, p) {
            if crate::extractors::parse_line(p, ls[i]) == Some(Ok::<RouteSpec, ()>(r)) {
            } else {
                let k = choose|k: int| i + 1 <= k < ls.len() && #[trigger] crate::extractors::parse_line(p, ls[k]) == Some(Ok::<RouteSpec, ()>(r));
                assert(crate::extractors::parse_line(p, ls[k]) == Some(Ok::<RouteSpec, ()>(r)));
            }
        }
    }
}
} // verus!
