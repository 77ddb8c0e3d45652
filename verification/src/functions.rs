//! The signatures of the functions that a unit defines.

use crate::seq_facts::lemma_flat_map_add;
use crate::syntax::{
    lemma_parts_stmts_add, lemma_parts_stmts_step, lemma_stmts_nodes_add,
    lemma_stmts_nodes_step, part_stmts, parts_stmts, stmt_nodes, stmts_nodes, Expr, Node,
    Parameter, ParameterWithDefault, Parameters, Stmt,
};
use crate::text::{contains_range, range_in_text, slice, text_at};
use vstd::prelude::*;

verus! {

/// One parameter of a function: its name, its annotation and its default
/// value as written in the source (the annotation empty where there is
/// none), and whether it collects the excess positional arguments.
#[derive(Clone, Debug, PartialEq, Eq)]
pub struct PythonFunctionArgument {
    pub name: String,
    pub type_str: String,
    pub default: Option<String>,
    pub variable_length: bool,
}

/// What a [`PythonFunctionArgument`] holds, as sequences of characters.
pub struct PythonFunctionArgumentView {
    pub name: Seq<char>,
    pub type_str: Seq<char>,
    pub default: Option<Seq<char>>,
    pub variable_length: bool,
}

impl DeepView for PythonFunctionArgument {
    type V = PythonFunctionArgumentView;

    open spec fn deep_view(&self) -> PythonFunctionArgumentView {
        PythonFunctionArgumentView {
            name: self.name@,
            type_str: self.type_str@,
            default: match self.default {
                Some(d) => Some(d@),
                None => None,
            },
            variable_length: self.variable_length,
        }
    }
}

/// The signature of one function definition: its name, its parameters, its
/// return annotation as written (empty where there is none) and its
/// docstring (empty where there is none).
#[derive(Clone, Debug, PartialEq, Eq)]
pub struct PythonFunction {
    pub name: String,
    pub args: Vec<PythonFunctionArgument>,
    pub return_type_str: String,
    pub docstring: String,
}

/// What a [`PythonFunction`] holds, as sequences.
pub struct PythonFunctionView {
    pub name: Seq<char>,
    pub args: Seq<PythonFunctionArgumentView>,
    pub return_type_str: Seq<char>,
    pub docstring: Seq<char>,
}

impl DeepView for PythonFunction {
    type V = PythonFunctionView;

    open spec fn deep_view(&self) -> PythonFunctionView {
        PythonFunctionView {
            name: self.name@,
            args: self.args.deep_view(),
            return_type_str: self.return_type_str@,
            docstring: self.docstring@,
        }
    }
}

/// The expression, where there is one, can be cut out of `source`.
pub open spec fn option_in_text(optional_expr: Option<Expr>, source: Seq<char>) -> bool {
    optional_expr matches Some(expr) ==> range_in_text(source, expr.range())
}

/// The annotation and the default of the parameter can be cut out of
/// `source`.
pub open spec fn parameter_in_text(param: ParameterWithDefault, source: Seq<char>) -> bool {
    option_in_text(param.parameter.annotation, source) && option_in_text(param.default, source)
}

/// Every parameter of the group can be cut out of `source`.
pub open spec fn group_in_text(group: Seq<ParameterWithDefault>, source: Seq<char>) -> bool {
    forall|i: int| 0 <= i < group.len() ==> parameter_in_text(#[trigger] group[i], source)
}

/// What a signature takes from a parameter list can be cut out of
/// `source`.
pub open spec fn parameters_in_text(ast_params: Parameters, source: Seq<char>) -> bool {
    &&& group_in_text(ast_params.args@, source)
    &&& ast_params.vararg matches Some(arg) ==> option_in_text(arg.annotation, source)
    &&& group_in_text(ast_params.kwonlyargs@, source)
}

/// Where the statement is a function definition, what its signature takes
/// from the text can be cut out of `source`.
pub open spec fn signature_in_text(s: Stmt, source: Seq<char>) -> bool {
    s matches Stmt::FunctionDef { parameters, return_type, .. } ==> parameters_in_text(
        parameters,
        source,
    ) && option_in_text(return_type, source)
}

/// The signature of every function definition among `stmts` can be cut out
/// of `source`.
pub open spec fn signatures_in_text(stmts: Seq<Stmt>, source: Seq<char>) -> bool {
    forall|i: int| 0 <= i < stmts.len() ==> signature_in_text(#[trigger] stmts[i], source)
}

/// The source text of an expression that may be absent: what its range
/// covers, or nothing.
pub open spec fn type_str_of(optional_expr: Option<Expr>, source: Seq<char>) -> Seq<char> {
    match optional_expr {
        Some(expr) => text_at(source, expr.range()),
        None => Seq::empty(),
    }
}

/// The entry of a positional or keyword-only parameter.
pub open spec fn argument_of(
    param: ParameterWithDefault,
    source: Seq<char>,
) -> PythonFunctionArgumentView {
    PythonFunctionArgumentView {
        name: param.parameter.name@,
        type_str: type_str_of(param.parameter.annotation, source),
        default: match param.default {
            Some(expr) => Some(text_at(source, expr.range())),
            None => None,
        },
        variable_length: false,
    }
}

/// The entry of the parameter that collects the excess positional
/// arguments: it has no default.
pub open spec fn variadic_argument_of(
    arg: Parameter,
    source: Seq<char>,
) -> PythonFunctionArgumentView {
    PythonFunctionArgumentView {
        name: arg.name@,
        type_str: type_str_of(arg.annotation, source),
        default: None,
        variable_length: true,
    }
}

/// The entries of a parameter group, in declaration order.
pub open spec fn group_arguments_of(
    group: Seq<ParameterWithDefault>,
    source: Seq<char>,
) -> Seq<PythonFunctionArgumentView> {
    group.map_values(|param: ParameterWithDefault| argument_of(param, source))
}

/// The entries of a signature: the positional parameters, then the variadic
/// one if there is one, then the keyword-only ones.
pub open spec fn arguments_of(
    ast_params: Parameters,
    source: Seq<char>,
) -> Seq<PythonFunctionArgumentView> {
    group_arguments_of(ast_params.args@, source) + match ast_params.vararg {
        Some(arg) => seq![variadic_argument_of(arg, source)],
        None => Seq::empty(),
    } + group_arguments_of(ast_params.kwonlyargs@, source)
}

/// The docstring of a body: the value of its first statement where that is
/// a string literal used as a statement, else nothing.
pub open spec fn docstring_of(body: Seq<Stmt>) -> Seq<char> {
    if body.len() > 0 {
        match body[0] {
            Stmt::Expr { value: Expr::StringLiteral { value, .. }, .. } => value@,
            _ => Seq::empty(),
        }
    } else {
        Seq::empty()
    }
}

/// The signature that a statement contributes: one for a function
/// definition, none for any other statement.
pub open spec fn function_of(s: Stmt, source: Seq<char>) -> Seq<PythonFunctionView> {
    match s {
        Stmt::FunctionDef { name, parameters, return_type, body, .. } => seq![
            PythonFunctionView {
                name: name@,
                args: arguments_of(parameters, source),
                return_type_str: type_str_of(return_type, source),
                docstring: docstring_of(body@),
            },
        ],
        _ => Seq::empty(),
    }
}

/// The signatures of the function definitions among `stmts`, in their
/// order.
pub open spec fn defined_functions_in(stmts: Seq<Stmt>, source: Seq<char>) -> Seq<
    PythonFunctionView,
> {
    stmts.flat_map(|s: Stmt| function_of(s, source))
}

/// The signatures of two runs of statements are those of the first, then
/// those of the second.
pub proof fn lemma_defined_functions_add(a: Seq<Stmt>, b: Seq<Stmt>, source: Seq<char>)
    ensures
        defined_functions_in(a + b, source) == defined_functions_in(a, source)
            + defined_functions_in(b, source),
{
    lemma_flat_map_add(a, b, |s: Stmt| function_of(s, source));
}

/// The signatures of a concatenation can be cut out of the text exactly
/// when those of both parts can.
pub proof fn lemma_signatures_in_text_add(a: Seq<Stmt>, b: Seq<Stmt>, source: Seq<char>)
    ensures
        signatures_in_text(a + b, source) == (signatures_in_text(a, source) && signatures_in_text(
            b,
            source,
        )),
{
    if signatures_in_text(a + b, source) {
        assert forall|i: int| 0 <= i < a.len() implies signature_in_text(
            #[trigger] a[i],
            source,
        ) by {
            assert((a + b)[i] == a[i]);
        }
        assert forall|i: int| 0 <= i < b.len() implies signature_in_text(
            #[trigger] b[i],
            source,
        ) by {
            assert((a + b)[a.len() + i] == b[i]);
        }
    }
    if signatures_in_text(a, source) && signatures_in_text(b, source) {
        assert forall|i: int| 0 <= i < (a + b).len() implies signature_in_text(
            #[trigger] (a + b)[i],
            source,
        ) by {
            if i < a.len() {
                assert((a + b)[i] == a[i]);
            } else {
                assert((a + b)[i] == b[i - a.len()]);
            }
        }
    }
}

/// The source text of an expression that may be absent.
pub fn get_type_str(optional_expr: &Option<Expr>, source: &str) -> (s: String)
    requires
        option_in_text(*optional_expr, source@),
    ensures
        s@ == type_str_of(*optional_expr, source@),
{
    match optional_expr {
        Some(expr) => slice(source, expr.range()),
        None => String::new(),
    }
}

/// The entry of a positional or keyword-only parameter.
pub fn parameter_with_default(
    param: &ParameterWithDefault,
    source: &str,
) -> (arg: PythonFunctionArgument)
    requires
        parameter_in_text(*param, source@),
    ensures
        arg.deep_view() == argument_of(*param, source@),
{
    PythonFunctionArgument {
        name: param.parameter.name.clone(),
        type_str: get_type_str(&param.parameter.annotation, source),
        default: match &param.default {
            Some(expr) => Some(slice(source, expr.range())),
            None => None,
        },
        variable_length: false,
    }
}

/// Appends the entries of a parameter group to `args`.
fn push_group(
    args: &mut Vec<PythonFunctionArgument>,
    group: &Vec<ParameterWithDefault>,
    source: &str,
)
    requires
        group_in_text(group@, source@),
    ensures
        final(args).deep_view() == old(args).deep_view() + group_arguments_of(group@, source@),
{
    let mut i: usize = 0;
    while i < group.len()
        invariant
            i <= group.len(),
            group_in_text(group@, source@),
            args.deep_view() == old(args).deep_view() + group_arguments_of(
                group@.take(i as int),
                source@,
            ),
        decreases group.len() - i,
    {
        let ghost before = args.deep_view();
        args.push(parameter_with_default(&group[i], source));
        proof {
            group@.lemma_map_take_succ(
                |param: ParameterWithDefault| argument_of(param, source@),
                i as int,
            );
            assert(args.deep_view() =~= before.push(argument_of(group[i as int], source@)));
            assert(before.push(argument_of(group[i as int], source@)) =~= old(args).deep_view()
                + group_arguments_of(group@.take(i + 1), source@));
        }
        i += 1;
    }
    assert(group@.take(i as int) =~= group@);
}

/// The entries of a signature: the positional parameters, then the variadic
/// one if there is one, then the keyword-only ones.
pub fn parameters(ast_params: &Parameters, source: &str) -> (args: Vec<PythonFunctionArgument>)
    requires
        parameters_in_text(*ast_params, source@),
    ensures
        args.deep_view() == arguments_of(*ast_params, source@),
{
    let mut args: Vec<PythonFunctionArgument> = Vec::new();
    assert(args.deep_view() =~= Seq::<PythonFunctionArgumentView>::empty());
    push_group(&mut args, &ast_params.args, source);
    let ghost positional = args.deep_view();
    if let Some(arg) = &ast_params.vararg {
        args.push(
            PythonFunctionArgument {
                name: arg.name.clone(),
                type_str: get_type_str(&arg.annotation, source),
                default: None,
                variable_length: true,
            },
        );
        assert(args.deep_view() =~= positional.push(variadic_argument_of(*arg, source@)));
    }
    push_group(&mut args, &ast_params.kwonlyargs, source);
    assert(args.deep_view() =~= arguments_of(*ast_params, source@));
    args
}

/// The docstring of a body: the value of its first statement where that is
/// a string literal used as a statement, else the empty string.
pub fn docstring(body: &Vec<Stmt>) -> (s: String)
    ensures
        s@ == docstring_of(body@),
{
    if body.len() > 0 {
        if let Stmt::Expr { value, .. } = &body[0] {
            if let Expr::StringLiteral { value, .. } = value {
                return value.clone();
            }
        }
    }
    String::new()
}

/// Where the signatures of a whole body can be cut out of the text, so can
/// those of each of its statements.
pub proof fn lemma_signatures_of_statement(body: Seq<Stmt>, i: int, source: Seq<char>)
    requires
        signatures_in_text(stmts_nodes(body), source),
        0 <= i < body.len(),
    ensures
        signatures_in_text(stmt_nodes(body[i]), source),
{
    assert(body =~= body.take(i + 1) + body.skip(i + 1));
    lemma_stmts_nodes_add(body.take(i + 1), body.skip(i + 1));
    lemma_stmts_nodes_step(body, i);
    lemma_signatures_in_text_add(
        stmts_nodes(body.take(i + 1)),
        stmts_nodes(body.skip(i + 1)),
        source,
    );
    lemma_signatures_in_text_add(stmts_nodes(body.take(i)), stmt_nodes(body[i]), source);
}

/// Where the signatures inside the parts of a statement can be cut out of
/// the text, so can those inside each part.
pub proof fn lemma_signatures_of_part(parts: Seq<Node>, i: int, source: Seq<char>)
    requires
        signatures_in_text(parts_stmts(parts), source),
        0 <= i < parts.len(),
    ensures
        signatures_in_text(part_stmts(parts[i]), source),
{
    assert(parts =~= parts.take(i + 1) + parts.skip(i + 1));
    lemma_parts_stmts_add(parts.take(i + 1), parts.skip(i + 1));
    lemma_parts_stmts_step(parts, i);
    lemma_signatures_in_text_add(
        parts_stmts(parts.take(i + 1)),
        parts_stmts(parts.skip(i + 1)),
        source,
    );
    lemma_signatures_in_text_add(parts_stmts(parts.take(i)), part_stmts(parts[i]), source);
}

/// Whether the expression, where there is one, can be cut out of `source`.
fn check_option(optional_expr: &Option<Expr>, source: &str) -> (b: bool)
    ensures
        b == option_in_text(*optional_expr, source@),
{
    match optional_expr {
        Some(expr) => contains_range(source, expr.range()),
        None => true,
    }
}

/// Whether every parameter of the group can be cut out of `source`.
fn check_group(group: &Vec<ParameterWithDefault>, source: &str) -> (b: bool)
    ensures
        b == group_in_text(group@, source@),
{
    let mut i: usize = 0;
    while i < group.len()
        invariant
            i <= group.len(),
            group_in_text(group@.take(i as int), source@),
        decreases group.len() - i,
    {
        if !check_option(&group[i].parameter.annotation, source) || !check_option(
            &group[i].default,
            source,
        ) {
            assert(!parameter_in_text(group@[i as int], source@));
            return false;
        }
        assert forall|j: int| 0 <= j < i + 1 implies parameter_in_text(
            #[trigger] group@.take(i + 1)[j],
            source@,
        ) by {
            if j < i {
                assert(group@.take(i + 1)[j] == group@.take(i as int)[j]);
            }
        }
        i += 1;
    }
    assert(group@.take(i as int) =~= group@);
    true
}

/// Whether what a signature takes from a parameter list can be cut out of
/// `source`.
fn check_parameters(ast_params: &Parameters, source: &str) -> (b: bool)
    ensures
        b == parameters_in_text(*ast_params, source@),
{
    let variadic = match &ast_params.vararg {
        Some(arg) => check_option(&arg.annotation, source),
        None => true,
    };
    variadic && check_group(&ast_params.args, source) && check_group(
        &ast_params.kwonlyargs,
        source,
    )
}

/// Whether the signature of `node`, where it is a function definition, and
/// of every definition nested in it can be cut out of `source`.
pub fn check_stmt(node: &Stmt, source: &str) -> (b: bool)
    ensures
        b == signatures_in_text(stmt_nodes(*node), source@),
    decreases node,
{
    let ghost nested = stmt_nodes(*node).subrange(1, stmt_nodes(*node).len() as int);
    proof {
        assert(stmt_nodes(*node) =~= seq![*node] + nested);
        lemma_signatures_in_text_add(seq![*node], nested, source@);
        assert(seq![*node][0] == *node);
        assert(signatures_in_text(seq![*node], source@) == signature_in_text(*node, source@));
    }
    match node {
        Stmt::FunctionDef { parameters: ast_params, return_type, body, .. } => {
            assert(nested =~= stmts_nodes(body@));
            check_parameters(ast_params, source) && check_option(return_type, source)
                && check_signatures(body, source)
        },
        Stmt::Other { parts, .. } => {
            assert(nested =~= parts_stmts(parts@));
            check_parts(parts, source)
        },
        _ => {
            assert(nested =~= Seq::<Stmt>::empty());
            true
        },
    }
}

/// Whether the signature of every function definition among the statements
/// of `body`, at any depth, can be cut out of `source`.
pub fn check_signatures(body: &Vec<Stmt>, source: &str) -> (b: bool)
    ensures
        b == signatures_in_text(stmts_nodes(body@), source@),
    decreases body,
{
    let mut i: usize = 0;
    while i < body.len()
        invariant
            i <= body.len(),
            signatures_in_text(stmts_nodes(body@.take(i as int)), source@),
        decreases body.len() - i,
    {
        let fits = check_stmt(&body[i], source);
        proof {
            lemma_stmts_nodes_step(body@, i as int);
            lemma_signatures_in_text_add(
                stmts_nodes(body@.take(i as int)),
                stmt_nodes(body[i as int]),
                source@,
            );
            if !fits && signatures_in_text(stmts_nodes(body@), source@) {
                lemma_signatures_of_statement(body@, i as int, source@);
            }
        }
        if !fits {
            return false;
        }
        i += 1;
    }
    assert(body@.take(i as int) =~= body@);
    true
}

/// Whether the signature of every function definition among the parts of a
/// statement can be cut out of `source`.
fn check_parts(parts: &Vec<Node>, source: &str) -> (b: bool)
    ensures
        b == signatures_in_text(parts_stmts(parts@), source@),
    decreases parts,
{
    let mut i: usize = 0;
    while i < parts.len()
        invariant
            i <= parts.len(),
            signatures_in_text(parts_stmts(parts@.take(i as int)), source@),
        decreases parts.len() - i,
    {
        let fits = match &parts[i] {
            Node::Stmt(s) => check_stmt(s, source),
            Node::Expr(_) => true,
        };
        proof {
            lemma_parts_stmts_step(parts@, i as int);
            lemma_signatures_in_text_add(
                parts_stmts(parts@.take(i as int)),
                part_stmts(parts[i as int]),
                source@,
            );
            if !fits && signatures_in_text(parts_stmts(parts@), source@) {
                lemma_signatures_of_part(parts@, i as int, source@);
            }
        }
        if !fits {
            return false;
        }
        i += 1;
    }
    assert(parts@.take(i as int) =~= parts@);
    true
}

/// Walks statements and collects the signatures of the function
/// definitions, reading annotations and defaults from `source`.
pub struct FunctionDefinitionsCollector {
    pub functions: Vec<PythonFunction>,
    pub source: String,
}

impl FunctionDefinitionsCollector {
    /// Collects the signature of `node` where it is a function definition,
    /// then the signatures of the definitions nested in it.
    pub fn visit_stmt(&mut self, node: &Stmt)
        requires
            signatures_in_text(stmt_nodes(*node), old(self).source@),
        ensures
            final(self).source == old(self).source,
            final(self).functions.deep_view() == old(self).functions.deep_view()
                + defined_functions_in(stmt_nodes(*node), old(self).source@),
        decreases node,
    {
        let ghost source = self.source@;
        let ghost nested = stmt_nodes(*node).subrange(1, stmt_nodes(*node).len() as int);
        proof {
            assert(stmt_nodes(*node) =~= seq![*node] + nested);
            lemma_defined_functions_add(seq![*node], nested, source);
            lemma_signatures_in_text_add(seq![*node], nested, source);
            assert(signature_in_text(seq![*node][0], source));
            seq![*node].lemma_flat_map_singleton(|s: Stmt| function_of(s, source));
            assert(defined_functions_in(Seq::<Stmt>::empty(), source) =~= Seq::<
                PythonFunctionView,
            >::empty());
        }
        match node {
            Stmt::FunctionDef { name, parameters: ast_params, return_type, body, .. } => {
                let ghost before = self.functions.deep_view();
                let function = PythonFunction {
                    name: name.clone(),
                    args: parameters(ast_params, self.source.as_str()),
                    return_type_str: get_type_str(return_type, self.source.as_str()),
                    docstring: docstring(body),
                };
                self.functions.push(function);
                assert(self.functions.deep_view() =~= before + function_of(*node, source));
                assert(nested =~= stmts_nodes(body@));
                self.visit_body(body);
            },
            Stmt::Other { parts, .. } => {
                assert(nested =~= parts_stmts(parts@));
                self.visit_parts(parts);
            },
            _ => {
                assert(nested =~= Seq::<Stmt>::empty());
            },
        }
    }

    /// Collects the signatures of the function definitions among the
    /// statements of `body`, at any depth.
    pub fn visit_body(&mut self, body: &Vec<Stmt>)
        requires
            signatures_in_text(stmts_nodes(body@), old(self).source@),
        ensures
            final(self).source == old(self).source,
            final(self).functions.deep_view() == old(self).functions.deep_view()
                + defined_functions_in(stmts_nodes(body@), old(self).source@),
        decreases body,
    {
        let mut i: usize = 0;
        while i < body.len()
            invariant
                i <= body.len(),
                self.source == old(self).source,
                signatures_in_text(stmts_nodes(body@), self.source@),
                self.functions.deep_view() == old(self).functions.deep_view()
                    + defined_functions_in(stmts_nodes(body@.take(i as int)), self.source@),
            decreases body.len() - i,
        {
            proof {
                lemma_signatures_of_statement(body@, i as int, self.source@);
            }
            self.visit_stmt(&body[i]);
            proof {
                lemma_stmts_nodes_step(body@, i as int);
                lemma_defined_functions_add(
                    stmts_nodes(body@.take(i as int)),
                    stmt_nodes(body[i as int]),
                    self.source@,
                );
            }
            i += 1;
        }
        assert(body@.take(i as int) =~= body@);
    }

    /// Collects the signatures of the function definitions among the parts
    /// of a statement.
    pub fn visit_parts(&mut self, parts: &Vec<Node>)
        requires
            signatures_in_text(parts_stmts(parts@), old(self).source@),
        ensures
            final(self).source == old(self).source,
            final(self).functions.deep_view() == old(self).functions.deep_view()
                + defined_functions_in(parts_stmts(parts@), old(self).source@),
        decreases parts,
    {
        let mut i: usize = 0;
        while i < parts.len()
            invariant
                i <= parts.len(),
                self.source == old(self).source,
                signatures_in_text(parts_stmts(parts@), self.source@),
                self.functions.deep_view() == old(self).functions.deep_view()
                    + defined_functions_in(parts_stmts(parts@.take(i as int)), self.source@),
            decreases parts.len() - i,
        {
            proof {
                lemma_signatures_of_part(parts@, i as int, self.source@);
            }
            if let Node::Stmt(s) = &parts[i] {
                self.visit_stmt(s);
            }
            proof {
                lemma_parts_stmts_step(parts@, i as int);
                lemma_defined_functions_add(
                    parts_stmts(parts@.take(i as int)),
                    part_stmts(parts[i as int]),
                    self.source@,
                );
                assert(defined_functions_in(Seq::<Stmt>::empty(), self.source@) =~= Seq::<
                    PythonFunctionView,
                >::empty());
            }
            i += 1;
        }
        assert(parts@.take(i as int) =~= parts@);
    }
}

} // verus!
