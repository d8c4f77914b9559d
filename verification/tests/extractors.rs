use specgap::extractors::java::JavaExtractor;
use specgap::extractors::python::PythonExtractor;
use specgap::extractors::typescript::{to_title_case, TypeScriptExtractor};
use specgap::types::Framework;

#[test]
fn flask_route_with_methods() {
    let p = PythonExtractor::new();
    let r = p
        .parse_route_pattern("@app.route('/users', methods=['GET', 'POST'])\ndef users():\n    pass")
        .unwrap();
    assert_eq!(r.path, "/users");
    assert_eq!(r.method, "GET,POST");
    assert_eq!(r.handler, "Flask Route Handler");
    assert!(r.middleware.is_empty());
}

#[test]
fn flask_route_default_get() {
    let p = PythonExtractor::new();
    let r = p.parse_flask_route("@bp.route(\"/home\")\ndef home(): pass").unwrap();
    assert_eq!(r.path, "/home");
    assert_eq!(r.method, "GET");
}

#[test]
fn fastapi_route() {
    let p = PythonExtractor::new();
    let r = p.parse_route_pattern("@router.post(\"/items\", status_code=201)\nasync def create(): ...").unwrap();
    assert_eq!(r.path, "/items");
    assert_eq!(r.method, "POST");
    assert_eq!(r.handler, "FastAPI Endpoint");
}

#[test]
fn django_view_route() {
    let p = PythonExtractor::new();
    let r = p.parse_route_pattern("def index(request):\n    return HttpResponse('x')").unwrap();
    assert_eq!(r.path, "/*");
    assert_eq!(r.method, "ANY");
    assert!(p.parse_route_pattern("x = 1").is_none());
}

#[test]
fn python_models_and_hints() {
    let p = PythonExtractor::new();
    let src = "class User(db.Model):\n    __tablename__ = 'users'\n    id = db.Column(db.Integer)\n    _secret = Column(String)\n    posts = db.relationship('Post')\n";
    assert!(p.is_database_model(src));
    assert_eq!(p.extract_table_name(src).unwrap(), "users");
    assert_eq!(p.extract_model_fields(src), vec!["id".to_string()]);
    assert_eq!(p.extract_relationships(src), vec!["posts".to_string()]);
    assert_eq!(p.extract_business_hints("def LOGIN_user(): pass"), vec!["Authentication".to_string(), "User Management".to_string()]);
    assert_eq!(p.extract_return_annotation("def f(x) -> int:\n  pass").unwrap(), "int");
    assert_eq!(p.detect_class_framework("class A(BaseModel): pass"), Some(Framework::FastAPI));
    assert_eq!(p.detect_route_framework("import flask"), Some(Framework::Flask));
    assert!(p.is_async_function("async def f(): pass"));
}

#[test]
fn python_decorators_above() {
    let p = PythonExtractor::new();
    let src = "import x\n@a\n\n@b(1)\ndef f():\n  pass\n";
    assert_eq!(p.extract_decorators(src, 4), vec!["@a".to_string(), "@b(1)".to_string()]);
    assert!(p.extract_decorators(src, 0).is_empty());
}

#[test]
fn typescript_routes() {
    let t = TypeScriptExtractor::new();
    let r = t.parse_route_pattern("@Get('users')\nfindAll() {}").unwrap();
    assert_eq!(r.path, "users");
    assert_eq!(r.method, "GET");
    let e = t.parse_route_pattern("router.get('/x', handler)").unwrap();
    assert_eq!(e.path, "/x");
    assert_eq!(e.method, "GET");
    let n = t.parse_route_pattern("export default function h(req, res) {}").unwrap();
    assert_eq!(n.path, "/api/*");
    assert_eq!(to_title_case("DELETE"), "Delete");
    assert_eq!(t.detect_route_framework("const app = express()"), Some(Framework::Express));
}

#[test]
fn typescript_clauses() {
    let t = TypeScriptExtractor::new();
    assert_eq!(t.get_extends_clause("class A extends B {").unwrap(), "B");
    assert_eq!(t.get_implements_clause("class A implements X, Y {"), vec!["X".to_string(), "Y".to_string()]);
    assert_eq!(t.extract_react_props("const { a, b } = props;"), vec!["a".to_string(), "b".to_string()]);
    assert_eq!(t.extract_react_hooks("useEffect(); useState()"), vec!["useState".to_string(), "useEffect".to_string()]);
    assert_eq!(t.extract_decorators("  @Injectable()\nclass S {}"), vec!["@Injectable()".to_string()]);
}

#[test]
fn java_spring() {
    let j = JavaExtractor::new();
    let r = j.parse_spring_route("@GetMapping(\"/users\")\npublic List<User> all() {}").unwrap();
    assert_eq!(r.path, "/users");
    assert_eq!(r.method, "GET");
    let r2 = j.parse_spring_route("@RequestMapping(value = \"/x\", method = RequestMethod.POST)").unwrap();
    assert_eq!(r2.path, "/x");
    assert_eq!(r2.method, "POST");
    let ent = "@Entity\n@Table(name = \"users\")\nclass U {\n  @Id\n  private Long id;\n  @OneToMany\n  private List<Post> posts;\n}";
    assert!(j.is_jpa_entity(ent));
    assert_eq!(j.extract_table_name(ent).unwrap(), "users");
    assert_eq!(j.extract_entity_fields(ent), vec!["id".to_string(), "posts".to_string()]);
    assert_eq!(j.extract_entity_relationships(ent), vec!["posts".to_string()]);
    assert_eq!(j.find_next_field_line(ent, "  @Id").unwrap(), "id");
}
