//! The syntax tree that the analysis reads, and the order in which its
//! nodes are visited.

use crate::text::TextRange;
use vstd::prelude::*;

verus! {

/// An expression. Only the forms that the analysis tells apart have a
/// variant of their own; every other form is `Other`, with its
/// sub-expressions in evaluation order.
#[derive(Debug, PartialEq, Eq)]
pub enum Expr {
    /// A bare identifier.
    Name { id: String, range: TextRange },
    /// The literal `...`.
    EllipsisLiteral { range: TextRange },
    /// A string literal, with its decoded value.
    StringLiteral { value: String, range: TextRange },
    /// A call: the callee, then the positional and keyword argument values.
    Call { func: Box<Expr>, arguments: Vec<Expr>, range: TextRange },
    /// Any other expression.
    Other { children: Vec<Expr>, range: TextRange },
}

/// A parameter's name and its annotation, if it has one.
#[derive(Debug, PartialEq, Eq)]
pub struct Parameter {
    pub name: String,
    pub annotation: Option<Expr>,
}

/// A parameter that may have a default value.
#[derive(Debug, PartialEq, Eq)]
pub struct ParameterWithDefault {
    pub parameter: Parameter,
    pub default: Option<Expr>,
}

/// The parameter groups of a function definition, as declared.
#[derive(Debug, PartialEq, Eq)]
pub struct Parameters {
    pub posonlyargs: Vec<ParameterWithDefault>,
    pub args: Vec<ParameterWithDefault>,
    pub vararg: Option<Parameter>,
    pub kwonlyargs: Vec<ParameterWithDefault>,
    pub kwarg: Option<Parameter>,
}

/// A statement. Only the forms that the analysis tells apart have a variant
/// of their own.
#[derive(Debug, PartialEq, Eq)]
pub enum Stmt {
    /// `from module import names`; `module` is `None` for a relative import
    /// that names no module.
    ImportFrom { module: Option<String>, names: Vec<String>, range: TextRange },
    /// A function definition. `type_params` holds the bound and default
    /// expressions of its type parameters.
    FunctionDef {
        name: String,
        decorators: Vec<Expr>,
        type_params: Vec<Expr>,
        parameters: Parameters,
        return_type: Option<Expr>,
        body: Vec<Stmt>,
        range: TextRange,
    },
    /// An expression used as a statement.
    Expr { value: Expr, range: TextRange },
    /// Any other statement, with the expressions and statements directly
    /// inside it in evaluation order.
    Other { parts: Vec<Node>, range: TextRange },
}

/// What stands directly inside a statement.
#[derive(Debug, PartialEq, Eq)]
pub enum Node {
    Expr(Expr),
    Stmt(Stmt),
}

impl Expr {
    /// The bytes of the text that the expression was read from.
    pub open spec fn spec_range(&self) -> TextRange {
        match *self {
            Expr::Name { range, .. } => range,
            Expr::EllipsisLiteral { range } => range,
            Expr::StringLiteral { range, .. } => range,
            Expr::Call { range, .. } => range,
            Expr::Other { range, .. } => range,
        }
    }

    /// The bytes of the text that the expression was read from.
    #[verifier::when_used_as_spec(spec_range)]
    pub fn range(&self) -> (r: TextRange)
        ensures
            r == self.spec_range(),
    {
        match self {
            Expr::Name { range, .. } => *range,
            Expr::EllipsisLiteral { range } => *range,
            Expr::StringLiteral { range, .. } => *range,
            Expr::Call { range, .. } => *range,
            Expr::Other { range, .. } => *range,
        }
    }
}

/// The expression itself and every expression below it, each before its
/// own sub-expressions, a callee before the arguments.
pub open spec fn expr_nodes(e: Expr) -> Seq<Expr>
    decreases e,
{
    seq![e] + match e {
        Expr::Call { func, arguments, .. } => expr_nodes(*func) + exprs_nodes(arguments@),
        Expr::Other { children, .. } => exprs_nodes(children@),
        _ => Seq::empty(),
    }
}

/// The nodes of each expression of `es` in turn.
pub open spec fn exprs_nodes(es: Seq<Expr>) -> Seq<Expr>
    decreases es,
{
    if es.len() == 0 {
        Seq::empty()
    } else {
        exprs_nodes(es.drop_last()) + expr_nodes(es.last())
    }
}

/// The nodes of an expression that may be absent.
pub open spec fn option_nodes(e: Option<Expr>) -> Seq<Expr> {
    match e {
        Some(x) => expr_nodes(x),
        None => Seq::empty(),
    }
}

/// The nodes of the default values of a parameter group, in declaration
/// order.
pub open spec fn default_nodes(group: Seq<ParameterWithDefault>) -> Seq<Expr> {
    group.flat_map(|p: ParameterWithDefault| option_nodes(p.default))
}

/// The nodes of the annotations of a parameter group, in declaration order.
pub open spec fn annotation_nodes(group: Seq<ParameterWithDefault>) -> Seq<Expr> {
    group.flat_map(|p: ParameterWithDefault| option_nodes(p.parameter.annotation))
}

/// The nodes of the annotation of a variadic parameter.
pub open spec fn variadic_nodes(p: Option<Parameter>) -> Seq<Expr> {
    match p {
        Some(q) => option_nodes(q.annotation),
        None => Seq::empty(),
    }
}

/// Every expression of a parameter list: the defaults, which are evaluated
/// first, then the annotations, each kind in declaration order.
pub open spec fn parameters_nodes(ps: Parameters) -> Seq<Expr> {
    default_nodes(ps.posonlyargs@) + default_nodes(ps.args@) + default_nodes(ps.kwonlyargs@)
        + annotation_nodes(ps.posonlyargs@) + annotation_nodes(ps.args@) + variadic_nodes(
        ps.vararg,
    ) + annotation_nodes(ps.kwonlyargs@) + variadic_nodes(ps.kwarg)
}

/// Every expression inside a statement, at any depth, in visiting order:
/// for a function definition the decorators, the type parameters, the
/// parameter list, the return annotation and then the body.
pub open spec fn stmt_exprs(s: Stmt) -> Seq<Expr>
    decreases s,
{
    match s {
        Stmt::ImportFrom { .. } => Seq::empty(),
        Stmt::FunctionDef { decorators, type_params, parameters, return_type, body, .. } => {
            exprs_nodes(decorators@) + exprs_nodes(type_params@) + parameters_nodes(parameters)
                + option_nodes(return_type) + stmts_exprs(body@)
        },
        Stmt::Expr { value, .. } => expr_nodes(value),
        Stmt::Other { parts, .. } => parts_exprs(parts@),
    }
}

/// Every expression inside the statements of `ss`, one statement after the
/// other.
pub open spec fn stmts_exprs(ss: Seq<Stmt>) -> Seq<Expr>
    decreases ss,
{
    if ss.len() == 0 {
        Seq::empty()
    } else {
        stmts_exprs(ss.drop_last()) + stmt_exprs(ss.last())
    }
}

/// Every expression inside one part of a statement.
pub open spec fn part_exprs(n: Node) -> Seq<Expr>
    decreases n,
{
    match n {
        Node::Expr(e) => expr_nodes(e),
        Node::Stmt(s) => stmt_exprs(s),
    }
}

/// Every expression inside the parts of a statement, one part after the
/// other.
pub open spec fn parts_exprs(ns: Seq<Node>) -> Seq<Expr>
    decreases ns,
{
    if ns.len() == 0 {
        Seq::empty()
    } else {
        parts_exprs(ns.drop_last()) + part_exprs(ns.last())
    }
}

/// The statement itself and every statement nested in it, at any depth,
/// each before the statements of its own body.
pub open spec fn stmt_nodes(s: Stmt) -> Seq<Stmt>
    decreases s,
{
    seq![s] + match s {
        Stmt::FunctionDef { body, .. } => stmts_nodes(body@),
        Stmt::Other { parts, .. } => parts_stmts(parts@),
        _ => Seq::empty(),
    }
}

/// The nodes of each statement of `ss` in turn.
pub open spec fn stmts_nodes(ss: Seq<Stmt>) -> Seq<Stmt>
    decreases ss,
{
    if ss.len() == 0 {
        Seq::empty()
    } else {
        stmts_nodes(ss.drop_last()) + stmt_nodes(ss.last())
    }
}

/// The statements inside one part of a statement; an expression holds none.
pub open spec fn part_stmts(n: Node) -> Seq<Stmt>
    decreases n,
{
    match n {
        Node::Expr(_) => Seq::empty(),
        Node::Stmt(s) => stmt_nodes(s),
    }
}

/// The statements inside the parts of a statement, one part after the
/// other.
pub open spec fn parts_stmts(ns: Seq<Node>) -> Seq<Stmt>
    decreases ns,
{
    if ns.len() == 0 {
        Seq::empty()
    } else {
        parts_stmts(ns.drop_last()) + part_stmts(ns.last())
    }
}

/// One more expression of a list adds its nodes at the end.
pub proof fn lemma_exprs_nodes_step(es: Seq<Expr>, i: int)
    requires
        0 <= i < es.len(),
    ensures
        exprs_nodes(es.take(i + 1)) == exprs_nodes(es.take(i)) + expr_nodes(es[i]),
{
    assert(es.take(i + 1).drop_last() =~= es.take(i));
}

/// One more statement of a body adds its expressions at the end.
pub proof fn lemma_stmts_exprs_step(ss: Seq<Stmt>, i: int)
    requires
        0 <= i < ss.len(),
    ensures
        stmts_exprs(ss.take(i + 1)) == stmts_exprs(ss.take(i)) + stmt_exprs(ss[i]),
{
    assert(ss.take(i + 1).drop_last() =~= ss.take(i));
}

/// One more part of a statement adds its expressions at the end.
pub proof fn lemma_parts_exprs_step(ns: Seq<Node>, i: int)
    requires
        0 <= i < ns.len(),
    ensures
        parts_exprs(ns.take(i + 1)) == parts_exprs(ns.take(i)) + part_exprs(ns[i]),
{
    assert(ns.take(i + 1).drop_last() =~= ns.take(i));
}

/// One more statement of a body adds its nodes at the end.
pub proof fn lemma_stmts_nodes_step(ss: Seq<Stmt>, i: int)
    requires
        0 <= i < ss.len(),
    ensures
        stmts_nodes(ss.take(i + 1)) == stmts_nodes(ss.take(i)) + stmt_nodes(ss[i]),
{
    assert(ss.take(i + 1).drop_last() =~= ss.take(i));
}

/// One more part of a statement adds its statements at the end.
pub proof fn lemma_parts_stmts_step(ns: Seq<Node>, i: int)
    requires
        0 <= i < ns.len(),
    ensures
        parts_stmts(ns.take(i + 1)) == parts_stmts(ns.take(i)) + part_stmts(ns[i]),
{
    assert(ns.take(i + 1).drop_last() =~= ns.take(i));
}

/// The nodes of two runs of statements are those of the first, then those
/// of the second.
pub proof fn lemma_stmts_nodes_add(a: Seq<Stmt>, b: Seq<Stmt>)
    ensures
        stmts_nodes(a + b) == stmts_nodes(a) + stmts_nodes(b),
    decreases b.len(),
{
    if b.len() == 0 {
        assert(a + b =~= a);
    } else {
        assert((a + b).drop_last() =~= a + b.drop_last());
        lemma_stmts_nodes_add(a, b.drop_last());
    }
}

/// The statements inside two runs of parts are those of the first, then
/// those of the second.
pub proof fn lemma_parts_stmts_add(a: Seq<Node>, b: Seq<Node>)
    ensures
        parts_stmts(a + b) == parts_stmts(a) + parts_stmts(b),
    decreases b.len(),
{
    if b.len() == 0 {
        assert(a + b =~= a);
    } else {
        assert((a + b).drop_last() =~= a + b.drop_last());
        lemma_parts_stmts_add(a, b.drop_last());
    }
}

} // verus!
