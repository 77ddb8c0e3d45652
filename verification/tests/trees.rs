//! The extraction passes on trees written out by hand.

use python_analyzer::{
    analyze, analyze_checked, check_signatures, contains_range, docstring, get_type_str,
    parameter_with_default, parameters, slice, AnalysisResult, CalledNamesCollector, EllipsisFinder,
    Expr, FunctionDefinitionsCollector, ImportRangesVisitor, ImportedNamesCollector, Node,
    Parameter, ParameterWithDefault, Parameters, ParseError, Parsed, PythonFunction,
    PythonFunctionArgument, PythonName, Stmt, TextRange,
};

fn at(start: u32, end: u32) -> TextRange {
    TextRange { start, end }
}

fn name(id: &str) -> Expr {
    Expr::Name { id: id.to_string(), range: at(0, 0) }
}

fn name_at(id: &str, start: u32, end: u32) -> Expr {
    Expr::Name { id: id.to_string(), range: at(start, end) }
}

fn ellipsis() -> Expr {
    Expr::EllipsisLiteral { range: at(0, 0) }
}

fn string(value: &str) -> Expr {
    Expr::StringLiteral { value: value.to_string(), range: at(0, 0) }
}

fn call(func: Expr, arguments: Vec<Expr>) -> Expr {
    Expr::Call { func: Box::new(func), arguments, range: at(0, 0) }
}

fn other(children: Vec<Expr>) -> Expr {
    Expr::Other { children, range: at(0, 0) }
}

fn expr_stmt(value: Expr) -> Stmt {
    Stmt::Expr { value, range: at(0, 0) }
}

fn block(parts: Vec<Node>) -> Stmt {
    Stmt::Other { parts, range: at(0, 0) }
}

fn import_from(module: Option<&str>, names: &[&str], start: u32, end: u32) -> Stmt {
    Stmt::ImportFrom {
        module: module.map(String::from),
        names: names.iter().map(|n| n.to_string()).collect(),
        range: at(start, end),
    }
}

fn plain(name: &str) -> ParameterWithDefault {
    ParameterWithDefault {
        parameter: Parameter { name: name.to_string(), annotation: None },
        default: None,
    }
}

fn no_parameters() -> Parameters {
    Parameters { posonlyargs: vec![], args: vec![], vararg: None, kwonlyargs: vec![], kwarg: None }
}

fn def(name: &str, parameters: Parameters, return_type: Option<Expr>, body: Vec<Stmt>) -> Stmt {
    Stmt::FunctionDef {
        name: name.to_string(),
        decorators: vec![],
        type_params: vec![],
        parameters,
        return_type,
        body,
        range: at(0, 0),
    }
}

fn strings(names: &[&str]) -> Vec<String> {
    names.iter().map(|n| n.to_string()).collect()
}

fn python_name(module: &str, name: &str) -> PythonName {
    PythonName { module: module.to_string(), name: name.to_string() }
}

fn called(body: &Vec<Stmt>) -> Vec<String> {
    let mut collector = CalledNamesCollector { names: Vec::new() };
    collector.visit_body(body);
    collector.names
}

fn found(body: &Vec<Stmt>) -> bool {
    let mut finder = EllipsisFinder { found: false };
    finder.visit_body(body);
    finder.found
}

#[test]
fn slice_cuts_bytes_on_character_boundaries() {
    let source = "aé…𝄞z";
    assert_eq!(slice(source, at(0, 1)), "a");
    assert_eq!(slice(source, at(1, 3)), "é");
    assert_eq!(slice(source, at(3, 6)), "…");
    assert_eq!(slice(source, at(6, 10)), "𝄞");
    assert_eq!(slice(source, at(1, 10)), "é…𝄞");
    assert_eq!(slice(source, at(0, 11)), source);
    assert_eq!(slice(source, at(3, 3)), "");
    assert_eq!(slice(source, at(11, 11)), "");
}

#[test]
fn contains_range_wants_order_bounds_and_boundaries() {
    let source = "aé…𝄞z";
    assert!(contains_range(source, at(0, 0)));
    assert!(contains_range(source, at(0, 11)));
    assert!(contains_range(source, at(1, 3)));
    assert!(contains_range(source, at(11, 11)));
    assert!(!contains_range(source, at(3, 1)));
    assert!(!contains_range(source, at(0, 12)));
    assert!(!contains_range(source, at(12, 12)));
    assert!(!contains_range(source, at(1, 2)));
    assert!(!contains_range(source, at(2, 3)));
    assert!(!contains_range(source, at(7, 10)));
    assert!(!contains_range(source, at(4_000_000_000, 4_000_000_001)));
    assert!(contains_range("", at(0, 0)));
    assert!(!contains_range("", at(0, 1)));
}

#[test]
fn range_is_the_node_s_own() {
    assert_eq!(name_at("x", 3, 4).range(), at(3, 4));
    assert_eq!(Expr::EllipsisLiteral { range: at(1, 4) }.range(), at(1, 4));
    assert_eq!(Expr::StringLiteral { value: String::new(), range: at(5, 7) }.range(), at(5, 7));
    assert_eq!(
        Expr::Call { func: Box::new(name_at("f", 0, 1)), arguments: vec![], range: at(0, 3) }.range(),
        at(0, 3)
    );
    assert_eq!(Expr::Other { children: vec![name_at("f", 0, 1)], range: at(0, 9) }.range(), at(0, 9));
}

#[test]
fn outer_call_is_recorded_before_its_arguments() {
    let body = vec![expr_stmt(call(name("f"), vec![call(name("g"), vec![])]))];
    assert_eq!(called(&body), strings(&["f", "g"]));
}

#[test]
fn only_bare_names_are_recorded_but_every_callee_is_searched() {
    let attribute = other(vec![call(name("inner"), vec![])]);
    let body = vec![
        expr_stmt(call(attribute, vec![call(name("a"), vec![])])),
        expr_stmt(call(call(name("maker"), vec![]), vec![name("x")])),
        expr_stmt(other(vec![name("not_called"), call(string("s"), vec![])])),
    ];
    assert_eq!(called(&body), strings(&["inner", "a", "maker"]));
}

#[test]
fn calls_are_found_in_every_part_of_a_definition() {
    let parameters = Parameters {
        posonlyargs: vec![ParameterWithDefault {
            parameter: Parameter { name: "p".to_string(), annotation: Some(call(name("pa"), vec![])) },
            default: Some(call(name("pd"), vec![])),
        }],
        args: vec![ParameterWithDefault {
            parameter: Parameter { name: "a".to_string(), annotation: Some(call(name("aa"), vec![])) },
            default: Some(call(name("ad"), vec![])),
        }],
        vararg: Some(Parameter { name: "v".to_string(), annotation: Some(call(name("va"), vec![])) }),
        kwonlyargs: vec![ParameterWithDefault {
            parameter: Parameter { name: "k".to_string(), annotation: Some(call(name("ka"), vec![])) },
            default: Some(call(name("kd"), vec![])),
        }],
        kwarg: Some(Parameter { name: "w".to_string(), annotation: Some(call(name("wa"), vec![])) }),
    };
    let body = vec![Stmt::FunctionDef {
        name: "f".to_string(),
        decorators: vec![call(name("deco"), vec![])],
        type_params: vec![call(name("bound"), vec![])],
        parameters,
        return_type: Some(call(name("ret"), vec![])),
        body: vec![block(vec![
            Node::Expr(call(name("test"), vec![])),
            Node::Stmt(expr_stmt(call(name("deep"), vec![]))),
        ])],
        range: at(0, 0),
    }];
    assert_eq!(
        called(&body),
        strings(&[
            "deco", "bound", "pd", "ad", "kd", "pa", "aa", "va", "ka", "wa", "ret", "test", "deep"
        ])
    );
}

#[test]
fn the_collector_adds_to_what_it_holds() {
    let mut collector = CalledNamesCollector { names: strings(&["before"]) };
    collector.visit_expr(&call(name("f"), vec![]));
    collector.visit_exprs(&vec![call(name("g"), vec![]), name("x"), call(name("h"), vec![])]);
    collector.visit_option(&None);
    collector.visit_option(&Some(call(name("i"), vec![])));
    collector.visit_stmt(&import_from(Some("m"), &["n"], 0, 1));
    collector.visit_parts(&vec![Node::Expr(call(name("j"), vec![]))]);
    assert_eq!(collector.names, strings(&["before", "f", "g", "h", "i", "j"]));
}

#[test]
fn an_ellipsis_is_found_at_any_depth() {
    assert!(found(&vec![expr_stmt(ellipsis())]));
    assert!(found(&vec![expr_stmt(other(vec![name("a"), other(vec![ellipsis()])]))]));
    assert!(found(&vec![expr_stmt(call(name("f"), vec![name("a"), ellipsis()]))]));
    assert!(found(&vec![expr_stmt(call(other(vec![ellipsis()]), vec![]))]));
    assert!(found(&vec![def("f", no_parameters(), None, vec![expr_stmt(ellipsis())])]));
    assert!(found(&vec![def("f", no_parameters(), Some(ellipsis()), vec![])]));
    assert!(found(&vec![block(vec![Node::Stmt(block(vec![Node::Expr(ellipsis())]))])]));
    let mut parameters = no_parameters();
    parameters.kwonlyargs.push(ParameterWithDefault {
        parameter: Parameter { name: "k".to_string(), annotation: None },
        default: Some(ellipsis()),
    });
    assert!(found(&vec![def("f", parameters, None, vec![])]));
    let mut parameters = no_parameters();
    parameters.kwarg = Some(Parameter { name: "kw".to_string(), annotation: Some(ellipsis()) });
    assert!(found(&vec![def("f", parameters, None, vec![])]));
}

#[test]
fn no_ellipsis_is_found_in_a_tree_without_one() {
    assert!(!found(&vec![]));
    assert!(!found(&vec![
        import_from(Some("m"), &["n"], 0, 1),
        expr_stmt(call(name("f"), vec![string("..."), other(vec![name("a")])])),
        def("f", no_parameters(), Some(name("T")), vec![expr_stmt(string("doc"))]),
    ]));
}

#[test]
fn the_finder_keeps_what_it_found() {
    let mut finder = EllipsisFinder { found: true };
    finder.visit_expr(&name("x"));
    assert!(finder.found);
    let mut finder = EllipsisFinder { found: false };
    finder.visit_expr(&name("x"));
    assert!(!finder.found);
    finder.visit_exprs(&vec![name("x"), ellipsis()]);
    assert!(finder.found);
}

#[test]
fn imports_give_one_entry_per_name_and_one_range_per_statement() {
    let body = vec![
        import_from(Some("mod"), &["a", "b"], 0, 20),
        expr_stmt(name("x")),
        import_from(Some("mod2"), &["c"], 21, 39),
    ];
    let mut names = ImportedNamesCollector { names: Vec::new() };
    names.visit_body(&body);
    assert_eq!(
        names.names,
        vec![python_name("mod", "a"), python_name("mod", "b"), python_name("mod2", "c")]
    );
    let mut ranges = ImportRangesVisitor { ranges: Vec::new() };
    ranges.visit_body(&body);
    assert_eq!(ranges.ranges, vec![(0, 20), (21, 39)]);
}

#[test]
fn imports_are_found_in_nested_bodies() {
    let body = vec![
        def("f", no_parameters(), None, vec![import_from(Some("inner"), &["a"], 10, 20)]),
        block(vec![
            Node::Expr(name("test")),
            Node::Stmt(block(vec![Node::Stmt(import_from(Some("deep"), &["b", "c"], 30, 40))])),
        ]),
    ];
    let mut names = ImportedNamesCollector { names: Vec::new() };
    names.visit_body(&body);
    assert_eq!(
        names.names,
        vec![python_name("inner", "a"), python_name("deep", "b"), python_name("deep", "c")]
    );
    let mut ranges = ImportRangesVisitor { ranges: Vec::new() };
    ranges.visit_body(&body);
    assert_eq!(ranges.ranges, vec![(10, 20), (30, 40)]);
}

#[test]
fn an_import_without_module_gives_nothing() {
    let body = vec![import_from(None, &["x", "y"], 0, 17), import_from(Some("m"), &[], 18, 30)];
    let mut names = ImportedNamesCollector { names: vec![python_name("kept", "k")] };
    names.visit_body(&body);
    assert_eq!(names.names, vec![python_name("kept", "k")]);
    let mut ranges = ImportRangesVisitor { ranges: vec![(1, 2)] };
    ranges.visit_body(&body);
    assert_eq!(ranges.ranges, vec![(1, 2), (18, 30)]);
}

#[test]
fn type_text_is_the_range_or_empty() {
    let source = "def f(a: int)->list[int]: pass";
    assert_eq!(get_type_str(&Some(name_at("int", 9, 12)), source), "int");
    assert_eq!(get_type_str(&Some(other_at(15, 24)), source), "list[int]");
    assert_eq!(get_type_str(&None, source), "");
    assert_eq!(get_type_str(&Some(name_at("", 4, 4)), source), "");
}

fn other_at(start: u32, end: u32) -> Expr {
    Expr::Other { children: vec![], range: at(start, end) }
}

#[test]
fn a_parameter_carries_annotation_and_default_as_written() {
    let source = "def g(a, b : T  =  1 + 2): pass";
    let b = ParameterWithDefault {
        parameter: Parameter { name: "b".to_string(), annotation: Some(name_at("T", 13, 14)) },
        default: Some(other_at(19, 24)),
    };
    assert_eq!(
        parameter_with_default(&b, source),
        PythonFunctionArgument {
            name: "b".to_string(),
            type_str: "T".to_string(),
            default: Some("1 + 2".to_string()),
            variable_length: false,
        }
    );
    assert_eq!(
        parameter_with_default(&plain("a"), source),
        PythonFunctionArgument {
            name: "a".to_string(),
            type_str: "".to_string(),
            default: None,
            variable_length: false,
        }
    );
}

#[test]
fn parameters_come_positional_then_variadic_then_keyword_only() {
    let source = "def g(p, /, a, b = 1, *c: int, d, e = 2, **f): pass";
    let ast_params = Parameters {
        posonlyargs: vec![plain("p")],
        args: vec![
            plain("a"),
            ParameterWithDefault {
                parameter: Parameter { name: "b".to_string(), annotation: None },
                default: Some(other_at(19, 20)),
            },
        ],
        vararg: Some(Parameter { name: "c".to_string(), annotation: Some(name_at("int", 26, 29)) }),
        kwonlyargs: vec![
            plain("d"),
            ParameterWithDefault {
                parameter: Parameter { name: "e".to_string(), annotation: None },
                default: Some(other_at(38, 39)),
            },
        ],
        kwarg: Some(Parameter { name: "f".to_string(), annotation: None }),
    };
    let entry = |name: &str, type_str: &str, default: Option<&str>, variable_length: bool| {
        PythonFunctionArgument {
            name: name.to_string(),
            type_str: type_str.to_string(),
            default: default.map(String::from),
            variable_length,
        }
    };
    assert_eq!(
        parameters(&ast_params, source),
        vec![
            entry("a", "", None, false),
            entry("b", "", Some("1"), false),
            entry("c", "int", None, true),
            entry("d", "", None, false),
            entry("e", "", Some("2"), false),
        ]
    );
    assert_eq!(parameters(&no_parameters(), source), vec![]);
}

#[test]
fn the_docstring_is_the_first_statement_if_it_is_a_string() {
    assert_eq!(docstring(&vec![expr_stmt(string("Doc")), expr_stmt(string("x"))]), "Doc");
    assert_eq!(docstring(&vec![]), "");
    assert_eq!(docstring(&vec![expr_stmt(name("x")), expr_stmt(string("late"))]), "");
    assert_eq!(docstring(&vec![expr_stmt(call(name("f"), vec![string("arg")]))]), "");
    assert_eq!(docstring(&vec![block(vec![Node::Expr(string("inside"))])]), "");
    assert_eq!(docstring(&vec![expr_stmt(string(""))]), "");
}

#[test]
fn definitions_are_reported_outer_first() {
    let source = "0123456789";
    let inner = def("inner", no_parameters(), Some(name_at("T", 2, 5)), vec![expr_stmt(string("d"))]);
    let method = def("method", no_parameters(), None, vec![]);
    let body = vec![
        def("outer", no_parameters(), None, vec![expr_stmt(name("x")), inner]),
        block(vec![Node::Expr(name("Base")), Node::Stmt(method)]),
    ];
    let mut collector =
        FunctionDefinitionsCollector { functions: Vec::new(), source: source.to_string() };
    collector.visit_body(&body);
    let names: Vec<&str> = collector.functions.iter().map(|f| f.name.as_str()).collect();
    assert_eq!(names, vec!["outer", "inner", "method"]);
    assert_eq!(collector.functions[1].return_type_str, "234");
    assert_eq!(collector.functions[1].docstring, "d");
    assert_eq!(collector.source, source);
}

#[test]
fn signatures_are_checked_at_any_depth() {
    let source = "0123456789";
    let nested = |range: TextRange| {
        vec![block(vec![Node::Stmt(def(
            "outer",
            no_parameters(),
            None,
            vec![def("inner", no_parameters(), Some(Expr::Name { id: "T".to_string(), range }), vec![])],
        ))])]
    };
    assert!(check_signatures(&nested(at(0, 10)), source));
    assert!(check_signatures(&nested(at(10, 10)), source));
    assert!(!check_signatures(&nested(at(0, 11)), source));
    assert!(!check_signatures(&nested(at(5, 4)), source));
    assert!(check_signatures(&vec![], source));
}

#[test]
fn only_what_a_signature_reads_is_checked() {
    let source = "abc";
    let far = || Expr::Name { id: "x".to_string(), range: at(100, 200) };
    let mut parameters = no_parameters();
    parameters.posonlyargs.push(ParameterWithDefault {
        parameter: Parameter { name: "p".to_string(), annotation: Some(far()) },
        default: Some(far()),
    });
    parameters.kwarg = Some(Parameter { name: "kw".to_string(), annotation: Some(far()) });
    let body = vec![
        Stmt::FunctionDef {
            name: "f".to_string(),
            decorators: vec![far()],
            type_params: vec![far()],
            parameters,
            return_type: None,
            body: vec![expr_stmt(far())],
            range: at(100, 200),
        },
        import_from(Some("m"), &["n"], 100, 200),
    ];
    assert!(check_signatures(&body, source));
    let result = analyze(source, Parsed { body, errors: vec![] });
    assert_eq!(result.defined_functions.len(), 1);
    assert_eq!(result.defined_functions[0].args, vec![]);
    assert_eq!(result.import_ranges, vec![(100, 200)]);
}

#[test]
fn each_group_of_a_signature_is_checked() {
    let source = "abc";
    let bad = || Some(Expr::Name { id: "x".to_string(), range: at(2, 9) });
    let with = |change: &dyn Fn(&mut Parameters)| {
        let mut parameters = no_parameters();
        change(&mut parameters);
        vec![def("f", parameters, None, vec![])]
    };
    assert!(check_signatures(&with(&|_| ()), source));
    assert!(!check_signatures(
        &with(&|p| p.args.push(ParameterWithDefault {
            parameter: Parameter { name: "a".to_string(), annotation: bad() },
            default: None,
        })),
        source
    ));
    assert!(!check_signatures(
        &with(&|p| p.args.push(ParameterWithDefault {
            parameter: Parameter { name: "a".to_string(), annotation: None },
            default: bad(),
        })),
        source
    ));
    assert!(!check_signatures(
        &with(&|p| p.vararg = Some(Parameter { name: "v".to_string(), annotation: bad() })),
        source
    ));
    assert!(!check_signatures(
        &with(&|p| {
            p.kwonlyargs.push(plain("ok"));
            p.kwonlyargs.push(ParameterWithDefault {
                parameter: Parameter { name: "k".to_string(), annotation: None },
                default: bad(),
            })
        }),
        source
    ));
    assert!(!check_signatures(&vec![def("f", no_parameters(), bad(), vec![])], source));
}

fn sample() -> Parsed {
    // from mod import a, b
    // def f(x: int = g()) -> T:
    //     "doc"
    //     return h(...)
    let parameters = Parameters {
        posonlyargs: vec![],
        args: vec![ParameterWithDefault {
            parameter: Parameter { name: "x".to_string(), annotation: Some(name_at("int", 30, 33)) },
            default: Some(Expr::Call {
                func: Box::new(name_at("g", 36, 37)),
                arguments: vec![],
                range: at(36, 39),
            }),
        }],
        vararg: None,
        kwonlyargs: vec![],
        kwarg: None,
    };
    let body = vec![
        import_from(Some("mod"), &["a", "b"], 0, 20),
        Stmt::FunctionDef {
            name: "f".to_string(),
            decorators: vec![],
            type_params: vec![],
            parameters,
            return_type: Some(name_at("T", 44, 45)),
            body: vec![
                expr_stmt(string("doc")),
                block(vec![Node::Expr(call(name("h"), vec![ellipsis()]))]),
            ],
            range: at(21, 78),
        },
    ];
    let errors = vec![ParseError { message: "Expected an expression".to_string(), location: (78, 78) }];
    Parsed { body, errors }
}

const SAMPLE: &str =
    "from mod import a, b\ndef f(x: int = g()) -> T:\n    \"doc\"\n    return h(...)";

#[test]
fn analyze_runs_every_pass_over_the_same_tree() {
    assert_eq!(
        analyze(SAMPLE, sample()),
        AnalysisResult {
            imported_names: vec![python_name("mod", "a"), python_name("mod", "b")],
            defined_functions: vec![PythonFunction {
                name: "f".to_string(),
                args: vec![PythonFunctionArgument {
                    name: "x".to_string(),
                    type_str: "int".to_string(),
                    default: Some("g()".to_string()),
                    variable_length: false,
                }],
                return_type_str: "T".to_string(),
                docstring: "doc".to_string(),
            }],
            called_names: strings(&["g", "h"]),
            has_ellipsis: true,
            import_ranges: vec![(0, 20)],
            parse_errors: vec![ParseError {
                message: "Expected an expression".to_string(),
                location: (78, 78),
            }],
        }
    );
}

#[test]
fn analyze_of_an_empty_unit_is_empty() {
    assert_eq!(
        analyze("", Parsed { body: vec![], errors: vec![] }),
        AnalysisResult {
            imported_names: vec![],
            defined_functions: vec![],
            called_names: vec![],
            has_ellipsis: false,
            import_ranges: vec![],
            parse_errors: vec![],
        }
    );
}

#[test]
fn analyze_twice_gives_the_same() {
    assert_eq!(analyze(SAMPLE, sample()), analyze(SAMPLE, sample()));
}

#[test]
fn errors_are_handed_on_in_order() {
    let errors = vec![
        ParseError { message: "Trailing comma not allowed".to_string(), location: (20, 21) },
        ParseError { message: "Expected an expression".to_string(), location: (25, 25) },
    ];
    let body = vec![import_from(Some("mod"), &["a", "b"], 0, 21)];
    let result = analyze("from mod import a, b,\n\n1+", Parsed { body, errors: errors.clone() });
    assert_eq!(result.parse_errors, errors);
    assert_eq!(result.imported_names, vec![python_name("mod", "a"), python_name("mod", "b")]);
}

#[test]
fn analyze_checked_gives_the_analysis_or_nothing() {
    assert_eq!(analyze_checked(SAMPLE, sample()), Some(analyze(SAMPLE, sample())));
    assert_eq!(analyze_checked("from mod import a, b", sample()), None);
}

#[test]
fn a_copy_of_an_error_equals_it() {
    let error = ParseError { message: "Expected an expression".to_string(), location: (25, 26) };
    assert_eq!(error.clone(), error);
}
