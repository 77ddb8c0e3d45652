//! Whether an ellipsis literal occurs in a unit.

use crate::syntax::{
    annotation_nodes, default_nodes, expr_nodes, exprs_nodes, lemma_exprs_nodes_step,
    lemma_parts_exprs_step,
    lemma_stmts_exprs_step, option_nodes, parameters_nodes, part_exprs, parts_exprs, stmt_exprs,
    stmts_exprs, variadic_nodes, Expr, Node, Parameter, ParameterWithDefault, Parameters, Stmt,
};
use vstd::prelude::*;

verus! {

/// One of the expressions of `exprs` is the literal `...`.
pub open spec fn contains_ellipsis(exprs: Seq<Expr>) -> bool {
    exists|i: int| 0 <= i < exprs.len() && #[trigger] exprs[i] is EllipsisLiteral
}

/// A concatenation holds the literal where one of its two parts does.
pub proof fn lemma_contains_ellipsis_add(a: Seq<Expr>, b: Seq<Expr>)
    ensures
        contains_ellipsis(a + b) == (contains_ellipsis(a) || contains_ellipsis(b)),
{
    if contains_ellipsis(a) {
        let i = choose|i: int| 0 <= i < a.len() && #[trigger] a[i] is EllipsisLiteral;
        assert((a + b)[i] is EllipsisLiteral);
    }
    if contains_ellipsis(b) {
        let i = choose|i: int| 0 <= i < b.len() && #[trigger] b[i] is EllipsisLiteral;
        assert((a + b)[a.len() + i] is EllipsisLiteral);
    }
    if contains_ellipsis(a + b) {
        let i = choose|i: int| 0 <= i < (a + b).len() && #[trigger] (a + b)[i] is EllipsisLiteral;
        if i < a.len() {
            assert(a[i] is EllipsisLiteral);
        } else {
            assert(b[i - a.len()] is EllipsisLiteral);
        }
    }
}

/// Walks expressions and notes whether an ellipsis literal was among them.
pub struct EllipsisFinder {
    pub found: bool,
}

impl EllipsisFinder {
    /// Looks at `node` and at every expression below it.
    pub fn visit_expr(&mut self, node: &Expr)
        ensures
            final(self).found == (old(self).found || contains_ellipsis(expr_nodes(*node))),
        decreases node,
    {
        let ghost below = expr_nodes(*node).subrange(1, expr_nodes(*node).len() as int);
        proof {
            lemma_contains_ellipsis_add(seq![*node], below);
            assert(expr_nodes(*node) =~= seq![*node] + below);
            assert(contains_ellipsis(seq![*node]) == (*node is EllipsisLiteral)) by {
                assert(seq![*node][0] == *node);
            }
        }
        match node {
            Expr::EllipsisLiteral { .. } => {
                self.found = true;
            },
            Expr::Call { func, arguments, .. } => {
                self.visit_expr(func);
                self.visit_exprs(arguments);
                proof {
                    lemma_contains_ellipsis_add(expr_nodes(**func), exprs_nodes(arguments@));
                    assert(below =~= expr_nodes(**func) + exprs_nodes(arguments@));
                }
            },
            Expr::Other { children, .. } => {
                self.visit_exprs(children);
                assert(below =~= exprs_nodes(children@));
            },
            _ => {
                assert(below =~= Seq::<Expr>::empty());
            },
        }
    }

    /// Looks at the expressions of `nodes`, one after the other.
    pub fn visit_exprs(&mut self, nodes: &Vec<Expr>)
        ensures
            final(self).found == (old(self).found || contains_ellipsis(exprs_nodes(nodes@))),
        decreases nodes,
    {
        let mut i: usize = 0;
        while i < nodes.len()
            invariant
                i <= nodes.len(),
                self.found == (old(self).found || contains_ellipsis(
                    exprs_nodes(nodes@.take(i as int)),
                )),
            decreases nodes.len() - i,
        {
            self.visit_expr(&nodes[i]);
            proof {
                lemma_exprs_nodes_step(nodes@, i as int);
                lemma_contains_ellipsis_add(
                    exprs_nodes(nodes@.take(i as int)),
                    expr_nodes(nodes[i as int]),
                );
            }
            i += 1;
        }
        assert(nodes@.take(i as int) =~= nodes@);
    }

    /// Looks at an expression that may be absent.
    pub fn visit_option(&mut self, node: &Option<Expr>)
        ensures
            final(self).found == (old(self).found || contains_ellipsis(option_nodes(*node))),
    {
        match node {
            Some(e) => self.visit_expr(e),
            None => {
                assert(!contains_ellipsis(Seq::<Expr>::empty()));
            },
        }
    }

    /// Looks at the default values of a parameter group.
    pub fn visit_defaults(&mut self, group: &Vec<ParameterWithDefault>)
        ensures
            final(self).found == (old(self).found || contains_ellipsis(default_nodes(group@))),
    {
        let mut i: usize = 0;
        while i < group.len()
            invariant
                i <= group.len(),
                self.found == (old(self).found || contains_ellipsis(
                    default_nodes(group@.take(i as int)),
                )),
            decreases group.len() - i,
        {
            self.visit_option(&group[i].default);
            proof {
                group@.lemma_flat_map_take_append(
                    |p: ParameterWithDefault| option_nodes(p.default),
                    i as int,
                );
                lemma_contains_ellipsis_add(
                    default_nodes(group@.take(i as int)),
                    option_nodes(group[i as int].default),
                );
            }
            i += 1;
        }
        assert(group@.take(i as int) =~= group@);
    }

    /// Looks at the annotations of a parameter group.
    pub fn visit_annotations(&mut self, group: &Vec<ParameterWithDefault>)
        ensures
            final(self).found == (old(self).found || contains_ellipsis(annotation_nodes(group@))),
    {
        let mut i: usize = 0;
        while i < group.len()
            invariant
                i <= group.len(),
                self.found == (old(self).found || contains_ellipsis(
                    annotation_nodes(group@.take(i as int)),
                )),
            decreases group.len() - i,
        {
            self.visit_option(&group[i].parameter.annotation);
            proof {
                group@.lemma_flat_map_take_append(
                    |p: ParameterWithDefault| option_nodes(p.parameter.annotation),
                    i as int,
                );
                lemma_contains_ellipsis_add(
                    annotation_nodes(group@.take(i as int)),
                    option_nodes(group[i as int].parameter.annotation),
                );
            }
            i += 1;
        }
        assert(group@.take(i as int) =~= group@);
    }

    /// Looks at the annotation of a variadic parameter.
    pub fn visit_variadic(&mut self, parameter: &Option<Parameter>)
        ensures
            final(self).found == (old(self).found || contains_ellipsis(variadic_nodes(*parameter))),
    {
        match parameter {
            Some(p) => self.visit_option(&p.annotation),
            None => {
                assert(!contains_ellipsis(Seq::<Expr>::empty()));
            },
        }
    }

    /// Looks at a parameter list: at the defaults first, then at the
    /// annotations.
    pub fn visit_parameters(&mut self, parameters: &Parameters)
        ensures
            final(self).found == (old(self).found || contains_ellipsis(
                parameters_nodes(*parameters),
            )),
    {
        let ghost d1 = default_nodes(parameters.posonlyargs@);
        let ghost d2 = d1 + default_nodes(parameters.args@);
        let ghost d3 = d2 + default_nodes(parameters.kwonlyargs@);
        let ghost a1 = d3 + annotation_nodes(parameters.posonlyargs@);
        let ghost a2 = a1 + annotation_nodes(parameters.args@);
        let ghost a3 = a2 + variadic_nodes(parameters.vararg);
        let ghost a4 = a3 + annotation_nodes(parameters.kwonlyargs@);
        proof {
            lemma_contains_ellipsis_add(d1, default_nodes(parameters.args@));
            lemma_contains_ellipsis_add(d2, default_nodes(parameters.kwonlyargs@));
            lemma_contains_ellipsis_add(d3, annotation_nodes(parameters.posonlyargs@));
            lemma_contains_ellipsis_add(a1, annotation_nodes(parameters.args@));
            lemma_contains_ellipsis_add(a2, variadic_nodes(parameters.vararg));
            lemma_contains_ellipsis_add(a3, annotation_nodes(parameters.kwonlyargs@));
            lemma_contains_ellipsis_add(a4, variadic_nodes(parameters.kwarg));
        }
        self.visit_defaults(&parameters.posonlyargs);
        self.visit_defaults(&parameters.args);
        self.visit_defaults(&parameters.kwonlyargs);
        self.visit_annotations(&parameters.posonlyargs);
        self.visit_annotations(&parameters.args);
        self.visit_variadic(&parameters.vararg);
        self.visit_annotations(&parameters.kwonlyargs);
        self.visit_variadic(&parameters.kwarg);
    }

    /// Looks at the expressions inside `node`, at any depth.
    pub fn visit_stmt(&mut self, node: &Stmt)
        ensures
            final(self).found == (old(self).found || contains_ellipsis(stmt_exprs(*node))),
        decreases node,
    {
        match node {
            Stmt::ImportFrom { .. } => {
                assert(!contains_ellipsis(Seq::<Expr>::empty()));
            },
            Stmt::FunctionDef { decorators, type_params, parameters, return_type, body, .. } => {
                let ghost e1 = exprs_nodes(decorators@);
                let ghost e2 = e1 + exprs_nodes(type_params@);
                let ghost e3 = e2 + parameters_nodes(*parameters);
                let ghost e4 = e3 + option_nodes(*return_type);
                proof {
                    lemma_contains_ellipsis_add(e1, exprs_nodes(type_params@));
                    lemma_contains_ellipsis_add(e2, parameters_nodes(*parameters));
                    lemma_contains_ellipsis_add(e3, option_nodes(*return_type));
                    lemma_contains_ellipsis_add(e4, stmts_exprs(body@));
                }
                self.visit_exprs(decorators);
                self.visit_exprs(type_params);
                self.visit_parameters(parameters);
                self.visit_option(return_type);
                self.visit_body(body);
            },
            Stmt::Expr { value, .. } => self.visit_expr(value),
            Stmt::Other { parts, .. } => self.visit_parts(parts),
        }
    }

    /// Looks at the expressions inside the statements of `body`.
    pub fn visit_body(&mut self, body: &Vec<Stmt>)
        ensures
            final(self).found == (old(self).found || contains_ellipsis(stmts_exprs(body@))),
        decreases body,
    {
        let mut i: usize = 0;
        while i < body.len()
            invariant
                i <= body.len(),
                self.found == (old(self).found || contains_ellipsis(
                    stmts_exprs(body@.take(i as int)),
                )),
            decreases body.len() - i,
        {
            self.visit_stmt(&body[i]);
            proof {
                lemma_stmts_exprs_step(body@, i as int);
                lemma_contains_ellipsis_add(
                    stmts_exprs(body@.take(i as int)),
                    stmt_exprs(body[i as int]),
                );
            }
            i += 1;
        }
        assert(body@.take(i as int) =~= body@);
    }

    /// Looks at the expressions inside the parts of a statement.
    pub fn visit_parts(&mut self, parts: &Vec<Node>)
        ensures
            final(self).found == (old(self).found || contains_ellipsis(parts_exprs(parts@))),
        decreases parts,
    {
        let mut i: usize = 0;
        while i < parts.len()
            invariant
                i <= parts.len(),
                self.found == (old(self).found || contains_ellipsis(
                    parts_exprs(parts@.take(i as int)),
                )),
            decreases parts.len() - i,
        {
            match &parts[i] {
                Node::Expr(e) => self.visit_expr(e),
                Node::Stmt(s) => self.visit_stmt(s),
            }
            proof {
                lemma_parts_exprs_step(parts@, i as int);
                lemma_contains_ellipsis_add(
                    parts_exprs(parts@.take(i as int)),
                    part_exprs(parts[i as int]),
                );
            }
            i += 1;
        }
        assert(parts@.take(i as int) =~= parts@);
    }
}

} // verus!
