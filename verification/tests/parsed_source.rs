//! The analysis of texts as the parser reads them.

use python_analyzer::{
    analyze, analyze_checked, check_signatures, AnalysisResult, Expr, Node, Parameter,
    ParameterWithDefault, Parameters, ParseError, Parsed, PythonFunction, PythonFunctionArgument,
    PythonName, Stmt, TextRange,
};
use ruff_python_ast::visitor::{self, Visitor};
use ruff_python_parser::{parse_unchecked, Mode, ParseOptions};
use ruff_text_size::Ranged;

/// Gathers, in visiting order, the expressions and statements that stand
/// directly inside one node.
struct Parts {
    nodes: Vec<Node>,
}

impl Parts {
    fn new() -> Self {
        Parts { nodes: Vec::new() }
    }

    fn into_exprs(self) -> Vec<Expr> {
        let mut exprs = Vec::new();
        for node in self.nodes {
            if let Node::Expr(expr) = node {
                exprs.push(expr);
            }
        }
        exprs
    }
}

impl<'a> Visitor<'a> for Parts {
    fn visit_stmt(&mut self, stmt: &'a ruff_python_ast::Stmt) {
        self.nodes.push(Node::Stmt(convert_stmt(stmt)));
    }

    fn visit_expr(&mut self, expr: &'a ruff_python_ast::Expr) {
        self.nodes.push(Node::Expr(convert_expr(expr)));
    }
}

fn convert_range(range: ruff_text_size::TextRange) -> TextRange {
    TextRange { start: range.start().to_u32(), end: range.end().to_u32() }
}

fn convert_expr(expr: &ruff_python_ast::Expr) -> Expr {
    let range = convert_range(expr.range());
    match expr {
        ruff_python_ast::Expr::Name(name) => Expr::Name { id: name.id.to_string(), range },
        ruff_python_ast::Expr::EllipsisLiteral(_) => Expr::EllipsisLiteral { range },
        ruff_python_ast::Expr::StringLiteral(literal) => {
            Expr::StringLiteral { value: literal.value.to_str().to_string(), range }
        }
        ruff_python_ast::Expr::Call(call) => {
            let mut arguments = Parts::new();
            visitor::walk_arguments(&mut arguments, &call.arguments);
            Expr::Call {
                func: Box::new(convert_expr(&call.func)),
                arguments: arguments.into_exprs(),
                range,
            }
        }
        other => {
            let mut children = Parts::new();
            visitor::walk_expr(&mut children, other);
            Expr::Other { children: children.into_exprs(), range }
        }
    }
}

fn convert_parameter(parameter: &ruff_python_ast::Parameter) -> Parameter {
    Parameter {
        name: parameter.name.to_string(),
        annotation: parameter.annotation.as_deref().map(convert_expr),
    }
}

fn convert_group(group: &[ruff_python_ast::ParameterWithDefault]) -> Vec<ParameterWithDefault> {
    group
        .iter()
        .map(|param| ParameterWithDefault {
            parameter: convert_parameter(&param.parameter),
            default: param.default.as_deref().map(convert_expr),
        })
        .collect()
}

fn convert_stmt(stmt: &ruff_python_ast::Stmt) -> Stmt {
    let range = convert_range(stmt.range());
    match stmt {
        ruff_python_ast::Stmt::ImportFrom(import) => Stmt::ImportFrom {
            module: import.module.as_ref().map(|module| module.to_string()),
            names: import.names.iter().map(|alias| alias.name.to_string()).collect(),
            range,
        },
        ruff_python_ast::Stmt::FunctionDef(def) => {
            let mut type_params = Parts::new();
            if let Some(params) = &def.type_params {
                visitor::walk_type_params(&mut type_params, params);
            }
            Stmt::FunctionDef {
                name: def.name.to_string(),
                decorators: def
                    .decorator_list
                    .iter()
                    .map(|decorator| convert_expr(&decorator.expression))
                    .collect(),
                type_params: type_params.into_exprs(),
                parameters: Parameters {
                    posonlyargs: convert_group(&def.parameters.posonlyargs),
                    args: convert_group(&def.parameters.args),
                    vararg: def.parameters.vararg.as_deref().map(convert_parameter),
                    kwonlyargs: convert_group(&def.parameters.kwonlyargs),
                    kwarg: def.parameters.kwarg.as_deref().map(convert_parameter),
                },
                return_type: def.returns.as_deref().map(convert_expr),
                body: def.body.iter().map(convert_stmt).collect(),
                range,
            }
        }
        ruff_python_ast::Stmt::Expr(expr) => Stmt::Expr { value: convert_expr(&expr.value), range },
        ruff_python_ast::Stmt::If(branch) => {
            let mut parts = Parts::new();
            parts.visit_expr(&branch.test);
            parts.visit_body(&branch.body);
            for clause in &branch.elif_else_clauses {
                visitor::walk_elif_else_clause(&mut parts, clause);
            }
            Stmt::Other { parts: parts.nodes, range }
        }
        other => {
            let mut parts = Parts::new();
            visitor::walk_stmt(&mut parts, other);
            Stmt::Other { parts: parts.nodes, range }
        }
    }
}

fn parse(source: &str) -> Parsed {
    let parsed = parse_unchecked(source, ParseOptions::from(Mode::Module));
    let errors = parsed
        .errors()
        .iter()
        .map(|e| ParseError {
            message: e.error.to_string(),
            location: (e.location.start().to_u32(), e.location.end().to_u32()),
        })
        .collect();
    let body = parsed.into_syntax().expect_module().body.iter().map(convert_stmt).collect();
    Parsed { body, errors }
}

fn run(source: &str) -> AnalysisResult {
    let parsed = parse(source);
    assert!(check_signatures(&parsed.body, source));
    analyze(source, parsed)
}

fn name(module: &str, name: &str) -> PythonName {
    PythonName { module: module.to_string(), name: name.to_string() }
}

fn arg(name: &str, type_str: &str, default: Option<&str>, variable_length: bool) -> PythonFunctionArgument {
    PythonFunctionArgument {
        name: name.to_string(),
        type_str: type_str.to_string(),
        default: default.map(|d| d.to_string()),
        variable_length,
    }
}

#[test]
fn test_no_parse_errors() {
    assert_eq!(run("pass").parse_errors, Vec::<ParseError>::new());
}

#[test]
fn test_imported_names() {
    assert_eq!(
        run("from mod import a, b\nfrom mod2 import c").imported_names,
        vec![name("mod", "a"), name("mod", "b"), name("mod2", "c")]
    );
}

#[test]
fn test_defined_functions() {
    assert_eq!(
        run("def f(a: int)->list[int]:\n    \"\"\"Doc\"\"\"\n    pass\ndef g(a, b = 1, *c): pass")
            .defined_functions,
        vec![
            PythonFunction {
                name: "f".to_string(),
                args: vec![arg("a", "int", None, false)],
                return_type_str: "list[int]".to_string(),
                docstring: "Doc".to_string(),
            },
            PythonFunction {
                name: "g".to_string(),
                args: vec![
                    arg("a", "", None, false),
                    arg("b", "", Some("1"), false),
                    arg("c", "", None, true),
                ],
                return_type_str: "".to_string(),
                docstring: "".to_string(),
            },
        ]
    );
}

#[test]
fn test_ellipsis() {
    assert_eq!(run("1 + ...").has_ellipsis, true);
}

#[test]
fn test_called_names() {
    assert_eq!(run("f(g())").called_names, vec!["f".to_string(), "g".to_string()]);
}

#[test]
fn test_imported_names_with_parse_errors() {
    let result = run("from mod import a, b,\n\n1+");
    assert_eq!(result.imported_names, vec![name("mod", "a"), name("mod", "b")]);
    assert_eq!(
        result.parse_errors,
        vec![
            ParseError { message: "Trailing comma not allowed".to_string(), location: (20, 21) },
            ParseError { message: "Expected an expression".to_string(), location: (25, 25) },
        ]
    );
}

#[test]
fn test_import_ranges() {
    assert_eq!(
        run("from mod import a, b\nfrom mod2 import c").import_ranges,
        vec![(0, 20), (21, 39)]
    );
}

#[test]
fn nested_definitions_are_reported_in_source_order() {
    let source = "def outer(x):\n    def inner(y: int = 2) -> str:\n        'inner doc'\n    class C:\n        def method(self, *args, key=None, **kw): ...\n";
    let result = run(source);
    assert_eq!(
        result.defined_functions,
        vec![
            PythonFunction {
                name: "outer".to_string(),
                args: vec![arg("x", "", None, false)],
                return_type_str: "".to_string(),
                docstring: "".to_string(),
            },
            PythonFunction {
                name: "inner".to_string(),
                args: vec![arg("y", "int", Some("2"), false)],
                return_type_str: "str".to_string(),
                docstring: "inner doc".to_string(),
            },
            PythonFunction {
                name: "method".to_string(),
                args: vec![
                    arg("self", "", None, false),
                    arg("args", "", None, true),
                    arg("key", "", Some("None"), false),
                ],
                return_type_str: "".to_string(),
                docstring: "".to_string(),
            },
        ]
    );
    assert!(result.has_ellipsis);
}

#[test]
fn nested_imports_are_reported() {
    let source = "def f():\n    from a import b\nif x:\n    from c import d, e\nelse:\n    from . import g\n";
    let result = run(source);
    assert_eq!(result.imported_names, vec![name("a", "b"), name("c", "d"), name("c", "e")]);
    assert_eq!(result.import_ranges, vec![(13, 28), (39, 57)]);
    assert_eq!(&source[13..28], "from a import b");
    assert_eq!(&source[39..57], "from c import d, e");
}

#[test]
fn relative_import_without_module_contributes_nothing() {
    let result = run("from . import x\nfrom .pkg import y\nimport z");
    assert_eq!(result.imported_names, vec![name("pkg", "y")]);
    assert_eq!(result.import_ranges, vec![(16, 34)]);
}

#[test]
fn annotations_and_defaults_are_verbatim() {
    let source = "def f(a :  Dict[ str,int ]  =  {  'k' : 1 }, *rest: 'T', b: \"é\" = 'ü…') ->  None :\n    pass";
    let result = run(source);
    assert_eq!(
        result.defined_functions,
        vec![PythonFunction {
            name: "f".to_string(),
            args: vec![
                arg("a", "Dict[ str,int ]", Some("{  'k' : 1 }"), false),
                arg("rest", "'T'", None, true),
                arg("b", "\"é\"", Some("'ü…'"), false),
            ],
            return_type_str: "None".to_string(),
            docstring: "".to_string(),
        }]
    );
}

#[test]
fn docstring_is_only_a_leading_string_statement() {
    let result = run(
        "def a():\n    x = 1\n    'late'\ndef b():\n    f('arg')\ndef c():\n    'one' 'two'\n    'second'\ndef d():\n    b'bytes'\n",
    );
    let docs: Vec<String> = result.defined_functions.into_iter().map(|f| f.docstring).collect();
    assert_eq!(docs, vec!["".to_string(), "".to_string(), "onetwo".to_string(), "".to_string()]);
}

#[test]
fn calls_are_recorded_at_any_depth_and_only_for_bare_names() {
    let result = run("x = [h(i) for i in k()]\nobj.method(a())\nfs[0](b())\nc()()\n1 + d(e=e2())\n");
    assert_eq!(
        result.called_names,
        vec!["k", "h", "a", "b", "c", "d", "e2"].into_iter().map(String::from).collect::<Vec<_>>()
    );
}

#[test]
fn calls_in_signatures_follow_evaluation_order() {
    let result = run("@deco(w())\ndef f(a: ann() = dflt(), *, k: kann() = kd()) -> ret():\n    body()\n");
    assert_eq!(
        result.called_names,
        vec!["deco", "w", "dflt", "kd", "ann", "kann", "ret", "body"]
            .into_iter()
            .map(String::from)
            .collect::<Vec<_>>()
    );
}

#[test]
fn a_call_in_an_elif_test_is_recorded_once() {
    let result = run("if a():\n    pass\nelif b():\n    c()\nelse:\n    d()\n");
    assert_eq!(
        result.called_names,
        vec!["a", "b", "c", "d"].into_iter().map(String::from).collect::<Vec<_>>()
    );
}

#[test]
fn ellipsis_is_found_anywhere() {
    assert!(run("...").has_ellipsis);
    assert!(run("def f(): ...").has_ellipsis);
    assert!(run("x: Tuple[int, ...] = ()").has_ellipsis);
    assert!(run("f(a, [1, (2, ...)])").has_ellipsis);
    assert!(run("def f(a=...): pass").has_ellipsis);
    assert!(run("class C:\n    def m(self):\n        return g(...)\n").has_ellipsis);
}

#[test]
fn no_ellipsis_is_found_where_there_is_none() {
    assert!(!run("").has_ellipsis);
    assert!(!run("pass").has_ellipsis);
    assert!(!run("x = '...'\ndef f(a, b): return a.b(c)[1:2]").has_ellipsis);
}

#[test]
fn valid_sources_have_no_parse_errors() {
    for source in ["", "x = 1", "def f(a, *b, c=1, **d): return a", "from m import n\nclass C(B): pass"] {
        assert_eq!(run(source).parse_errors, Vec::<ParseError>::new());
    }
}

#[test]
fn errors_come_with_the_facts_before_them() {
    let result = run("from m import a\ndef f(x): pass\ng(\n");
    assert_eq!(result.imported_names, vec![name("m", "a")]);
    assert_eq!(result.defined_functions.len(), 1);
    assert_eq!(result.called_names, vec!["g".to_string()]);
    assert!(!result.parse_errors.is_empty());
    for error in &result.parse_errors {
        assert!(error.location.0 <= error.location.1);
    }
}

#[test]
fn two_analyses_of_one_text_agree() {
    let source = "from m import a, b\ndef f(x: int = g()) -> T:\n    '''doc'''\n    return h(...)\nf(\n";
    assert_eq!(run(source), run(source));
}

#[test]
fn the_checked_analysis_agrees_with_the_plain_one() {
    let source = "def f(a: int = 1) -> str: pass";
    assert_eq!(analyze_checked(source, parse(source)), Some(run(source)));
}

#[test]
fn the_checked_analysis_refuses_a_tree_of_another_text() {
    let parsed = parse("def f(a: int = 1) -> str: pass");
    assert!(!check_signatures(&parsed.body, "def f(a)"));
    assert_eq!(analyze_checked("def f(a)", parsed), None);
    let parsed = parse("def f(a: ab): pass");
    assert_eq!(analyze_checked("def f(a: aé): pass", parsed), None);
}
