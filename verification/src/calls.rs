//! The names of the functions that a unit calls.

use crate::seq_facts::lemma_flat_map_add;
use crate::syntax::{
    annotation_nodes, default_nodes, expr_nodes, exprs_nodes, lemma_exprs_nodes_step,
    lemma_parts_exprs_step, lemma_stmts_exprs_step, option_nodes, parameters_nodes, part_exprs,
    parts_exprs, stmt_exprs, stmts_exprs, variadic_nodes, Expr, Node, Parameter,
    ParameterWithDefault, Parameters, Stmt,
};
use vstd::prelude::*;

verus! {

/// The name that a call expression with a bare identifier as callee
/// records; nothing for any other expression.
pub open spec fn callee_of(e: Expr) -> Seq<Seq<char>> {
    match e {
        Expr::Call { func, .. } => match *func {
            Expr::Name { id, .. } => seq![id@],
            _ => Seq::empty(),
        },
        _ => Seq::empty(),
    }
}

/// The recorded names of the expressions of `exprs`, in their order.
pub open spec fn called_names_in(exprs: Seq<Expr>) -> Seq<Seq<char>> {
    exprs.flat_map(|e: Expr| callee_of(e))
}

/// What two runs of expressions record is what the first records, then
/// what the second records.
pub proof fn lemma_called_names_add(a: Seq<Expr>, b: Seq<Expr>)
    ensures
        called_names_in(a + b) == called_names_in(a) + called_names_in(b),
{
    lemma_flat_map_add(a, b, |e: Expr| callee_of(e));
}

/// Walks expressions and records the callee of every call whose callee is
/// a bare identifier.
pub struct CalledNamesCollector {
    pub names: Vec<String>,
}

impl CalledNamesCollector {
    /// Records what `node` and the expressions below it call: a call's own
    /// name first, then what its callee and its arguments call.
    pub fn visit_expr(&mut self, node: &Expr)
        ensures
            final(self).names.deep_view() == old(self).names.deep_view() + called_names_in(
                expr_nodes(*node),
            ),
        decreases node,
    {
        let ghost below = expr_nodes(*node).subrange(1, expr_nodes(*node).len() as int);
        proof {
            lemma_called_names_add(seq![*node], below);
            assert(expr_nodes(*node) =~= seq![*node] + below);
            seq![*node].lemma_flat_map_singleton(|e: Expr| callee_of(e));
        }
        match node {
            Expr::Call { func, arguments, .. } => {
                if let Expr::Name { id, .. } = &**func {
                    self.names.push(id.clone());
                }
                assert(self.names.deep_view() =~= old(self).names.deep_view() + callee_of(*node));
                self.visit_expr(func);
                self.visit_exprs(arguments);
                proof {
                    lemma_called_names_add(expr_nodes(**func), exprs_nodes(arguments@));
                    assert(below =~= expr_nodes(**func) + exprs_nodes(arguments@));
                }
            },
            Expr::Other { children, .. } => {
                self.visit_exprs(children);
                assert(below =~= exprs_nodes(children@));
            },
            _ => {
                assert(below =~= Seq::<Expr>::empty());
            },
        }
    }

    /// Records what the expressions of `nodes` call, one after the other.
    pub fn visit_exprs(&mut self, nodes: &Vec<Expr>)
        ensures
            final(self).names.deep_view() == old(self).names.deep_view() + called_names_in(
                exprs_nodes(nodes@),
            ),
        decreases nodes,
    {
        let mut i: usize = 0;
        while i < nodes.len()
            invariant
                i <= nodes.len(),
                self.names.deep_view() == old(self).names.deep_view() + called_names_in(
                    exprs_nodes(nodes@.take(i as int)),
                ),
            decreases nodes.len() - i,
        {
            self.visit_expr(&nodes[i]);
            proof {
                lemma_exprs_nodes_step(nodes@, i as int);
                lemma_called_names_add(
                    exprs_nodes(nodes@.take(i as int)),
                    expr_nodes(nodes[i as int]),
                );
            }
            i += 1;
        }
        assert(nodes@.take(i as int) =~= nodes@);
    }

    /// Records what an expression that may be absent calls.
    pub fn visit_option(&mut self, node: &Option<Expr>)
        ensures
            final(self).names.deep_view() == old(self).names.deep_view() + called_names_in(
                option_nodes(*node),
            ),
    {
        match node {
            Some(e) => self.visit_expr(e),
            None => {
                assert(self.names.deep_view() =~= old(self).names.deep_view()
                    + called_names_in(Seq::<Expr>::empty()));
            },
        }
    }

    /// Records what the default values of a parameter group call.
    pub fn visit_defaults(&mut self, group: &Vec<ParameterWithDefault>)
        ensures
            final(self).names.deep_view() == old(self).names.deep_view() + called_names_in(
                default_nodes(group@),
            ),
    {
        let mut i: usize = 0;
        while i < group.len()
            invariant
                i <= group.len(),
                self.names.deep_view() == old(self).names.deep_view() + called_names_in(
                    default_nodes(group@.take(i as int)),
                ),
            decreases group.len() - i,
        {
            self.visit_option(&group[i].default);
            proof {
                group@.lemma_flat_map_take_append(
                    |p: ParameterWithDefault| option_nodes(p.default),
                    i as int,
                );
                lemma_called_names_add(
                    default_nodes(group@.take(i as int)),
                    option_nodes(group[i as int].default),
                );
            }
            i += 1;
        }
        assert(group@.take(i as int) =~= group@);
    }

    /// Records what the annotations of a parameter group call.
    pub fn visit_annotations(&mut self, group: &Vec<ParameterWithDefault>)
        ensures
            final(self).names.deep_view() == old(self).names.deep_view() + called_names_in(
                annotation_nodes(group@),
            ),
    {
        let mut i: usize = 0;
        while i < group.len()
            invariant
                i <= group.len(),
                self.names.deep_view() == old(self).names.deep_view() + called_names_in(
                    annotation_nodes(group@.take(i as int)),
                ),
            decreases group.len() - i,
        {
            self.visit_option(&group[i].parameter.annotation);
            proof {
                group@.lemma_flat_map_take_append(
                    |p: ParameterWithDefault| option_nodes(p.parameter.annotation),
                    i as int,
                );
                lemma_called_names_add(
                    annotation_nodes(group@.take(i as int)),
                    option_nodes(group[i as int].parameter.annotation),
                );
            }
            i += 1;
        }
        assert(group@.take(i as int) =~= group@);
    }

    /// Records what the annotation of a variadic parameter calls.
    pub fn visit_variadic(&mut self, parameter: &Option<Parameter>)
        ensures
            final(self).names.deep_view() == old(self).names.deep_view() + called_names_in(
                variadic_nodes(*parameter),
            ),
    {
        match parameter {
            Some(p) => self.visit_option(&p.annotation),
            None => {
                assert(self.names.deep_view() =~= old(self).names.deep_view()
                    + called_names_in(Seq::<Expr>::empty()));
            },
        }
    }

    /// Records what a parameter list calls: in the defaults first, then in
    /// the annotations.
    pub fn visit_parameters(&mut self, parameters: &Parameters)
        ensures
            final(self).names.deep_view() == old(self).names.deep_view() + called_names_in(
                parameters_nodes(*parameters),
            ),
    {
        let ghost d1 = default_nodes(parameters.posonlyargs@);
        let ghost d2 = d1 + default_nodes(parameters.args@);
        let ghost d3 = d2 + default_nodes(parameters.kwonlyargs@);
        let ghost a1 = d3 + annotation_nodes(parameters.posonlyargs@);
        let ghost a2 = a1 + annotation_nodes(parameters.args@);
        let ghost a3 = a2 + variadic_nodes(parameters.vararg);
        let ghost a4 = a3 + annotation_nodes(parameters.kwonlyargs@);
        proof {
            lemma_called_names_add(d1, default_nodes(parameters.args@));
            lemma_called_names_add(d2, default_nodes(parameters.kwonlyargs@));
            lemma_called_names_add(d3, annotation_nodes(parameters.posonlyargs@));
            lemma_called_names_add(a1, annotation_nodes(parameters.args@));
            lemma_called_names_add(a2, variadic_nodes(parameters.vararg));
            lemma_called_names_add(a3, annotation_nodes(parameters.kwonlyargs@));
            lemma_called_names_add(a4, variadic_nodes(parameters.kwarg));
        }
        self.visit_defaults(&parameters.posonlyargs);
        self.visit_defaults(&parameters.args);
        self.visit_defaults(&parameters.kwonlyargs);
        self.visit_annotations(&parameters.posonlyargs);
        self.visit_annotations(&parameters.args);
        self.visit_variadic(&parameters.vararg);
        self.visit_annotations(&parameters.kwonlyargs);
        self.visit_variadic(&parameters.kwarg);
    }

    /// Records what the expressions inside `node` call, at any depth.
    pub fn visit_stmt(&mut self, node: &Stmt)
        ensures
            final(self).names.deep_view() == old(self).names.deep_view() + called_names_in(
                stmt_exprs(*node),
            ),
        decreases node,
    {
        match node {
            Stmt::ImportFrom { .. } => {
                assert(self.names.deep_view() =~= old(self).names.deep_view()
                    + called_names_in(Seq::<Expr>::empty()));
            },
            Stmt::FunctionDef { decorators, type_params, parameters, return_type, body, .. } => {
                let ghost e1 = exprs_nodes(decorators@);
                let ghost e2 = e1 + exprs_nodes(type_params@);
                let ghost e3 = e2 + parameters_nodes(*parameters);
                let ghost e4 = e3 + option_nodes(*return_type);
                proof {
                    lemma_called_names_add(e1, exprs_nodes(type_params@));
                    lemma_called_names_add(e2, parameters_nodes(*parameters));
                    lemma_called_names_add(e3, option_nodes(*return_type));
                    lemma_called_names_add(e4, stmts_exprs(body@));
                }
                self.visit_exprs(decorators);
                self.visit_exprs(type_params);
                self.visit_parameters(parameters);
                self.visit_option(return_type);
                self.visit_body(body);
            },
            Stmt::Expr { value, .. } => self.visit_expr(value),
            Stmt::Other { parts, .. } => self.visit_parts(parts),
        }
    }

    /// Records what the expressions inside the statements of `body` call.
    pub fn visit_body(&mut self, body: &Vec<Stmt>)
        ensures
            final(self).names.deep_view() == old(self).names.deep_view() + called_names_in(
                stmts_exprs(body@),
            ),
        decreases body,
    {
        let mut i: usize = 0;
        while i < body.len()
            invariant
                i <= body.len(),
                self.names.deep_view() == old(self).names.deep_view() + called_names_in(
                    stmts_exprs(body@.take(i as int)),
                ),
            decreases body.len() - i,
        {
            self.visit_stmt(&body[i]);
            proof {
                lemma_stmts_exprs_step(body@, i as int);
                lemma_called_names_add(
                    stmts_exprs(body@.take(i as int)),
                    stmt_exprs(body[i as int]),
                );
            }
            i += 1;
        }
        assert(body@.take(i as int) =~= body@);
    }

    /// Records what the expressions inside the parts of a statement call.
    pub fn visit_parts(&mut self, parts: &Vec<Node>)
        ensures
            final(self).names.deep_view() == old(self).names.deep_view() + called_names_in(
                parts_exprs(parts@),
            ),
        decreases parts,
    {
        let mut i: usize = 0;
        while i < parts.len()
            invariant
                i <= parts.len(),
                self.names.deep_view() == old(self).names.deep_view() + called_names_in(
                    parts_exprs(parts@.take(i as int)),
                ),
            decreases parts.len() - i,
        {
            match &parts[i] {
                Node::Expr(e) => self.visit_expr(e),
                Node::Stmt(s) => self.visit_stmt(s),
            }
            proof {
                lemma_parts_exprs_step(parts@, i as int);
                lemma_called_names_add(
                    parts_exprs(parts@.take(i as int)),
                    part_exprs(parts[i as int]),
                );
            }
            i += 1;
        }
        assert(parts@.take(i as int) =~= parts@);
    }
}

} // verus!
