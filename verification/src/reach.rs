//! Nothing of a tree is left out: the visiting order holds every statement
//! and every expression, at whatever depth.

use crate::seq_facts::{lemma_contains_add, lemma_contains_one};
use crate::syntax::{
    annotation_nodes, default_nodes, expr_nodes, exprs_nodes, option_nodes, parameters_nodes,
    part_exprs, part_stmts, parts_exprs, parts_stmts, stmt_exprs, stmt_nodes, stmts_exprs,
    stmts_nodes, variadic_nodes, Expr, Node, Parameter, ParameterWithDefault, Parameters, Stmt,
};
use vstd::prelude::*;

verus! {

/// `child` stands directly below `e`: it is the callee or an argument of a
/// call, or a sub-expression of any other expression.
pub open spec fn expr_holds_expr(e: Expr, child: Expr) -> bool {
    match e {
        Expr::Call { func, arguments, .. } => *func == child || arguments@.contains(child),
        Expr::Other { children, .. } => children@.contains(child),
        _ => false,
    }
}

/// `e` is the default of a parameter of the group.
pub open spec fn group_holds_default(group: Seq<ParameterWithDefault>, e: Expr) -> bool {
    exists|i: int| 0 <= i < group.len() && (#[trigger] group[i]).default == Some(e)
}

/// `e` is the annotation of a parameter of the group.
pub open spec fn group_holds_annotation(group: Seq<ParameterWithDefault>, e: Expr) -> bool {
    exists|i: int| 0 <= i < group.len() && (#[trigger] group[i]).parameter.annotation == Some(e)
}

/// `e` is the annotation or the default of a parameter of the group.
pub open spec fn group_holds_expr(group: Seq<ParameterWithDefault>, e: Expr) -> bool {
    group_holds_default(group, e) || group_holds_annotation(group, e)
}

/// `e` is the annotation of the parameter, where there is one.
pub open spec fn variadic_holds_expr(p: Option<Parameter>, e: Expr) -> bool {
    p matches Some(q) && q.annotation == Some(e)
}

/// `e` is an annotation or a default in the parameter list.
pub open spec fn parameters_hold_expr(ps: Parameters, e: Expr) -> bool {
    ||| group_holds_expr(ps.posonlyargs@, e)
    ||| group_holds_expr(ps.args@, e)
    ||| variadic_holds_expr(ps.vararg, e)
    ||| group_holds_expr(ps.kwonlyargs@, e)
    ||| variadic_holds_expr(ps.kwarg, e)
}

/// `e` stands directly in `s`, with no other expression or statement
/// between them.
pub open spec fn stmt_holds_expr(s: Stmt, e: Expr) -> bool {
    match s {
        Stmt::ImportFrom { .. } => false,
        Stmt::FunctionDef { decorators, type_params, parameters, return_type, .. } => {
            ||| decorators@.contains(e)
            ||| type_params@.contains(e)
            ||| parameters_hold_expr(parameters, e)
            ||| return_type == Some(e)
        },
        Stmt::Expr { value, .. } => value == e,
        Stmt::Other { parts, .. } => parts@.contains(Node::Expr(e)),
    }
}

/// `child` stands directly in `s`: in the body of a function definition or
/// among the parts of another statement.
pub open spec fn stmt_holds_stmt(s: Stmt, child: Stmt) -> bool {
    match s {
        Stmt::FunctionDef { body, .. } => body@.contains(child),
        Stmt::Other { parts, .. } => parts@.contains(Node::Stmt(child)),
        _ => false,
    }
}

/// With each of its statements `stmts` holds the statements that stand
/// directly in it and `exprs` the expressions that do, and with each of
/// its expressions `exprs` holds what stands directly below it.
pub open spec fn complete(stmts: Seq<Stmt>, exprs: Seq<Expr>) -> bool {
    &&& forall|s: Stmt, child: Stmt|
        #![trigger stmts.contains(s), stmt_holds_stmt(s, child)]
        stmts.contains(s) && stmt_holds_stmt(s, child) ==> stmts.contains(child)
    &&& forall|s: Stmt, e: Expr|
        #![trigger stmts.contains(s), stmt_holds_expr(s, e)]
        stmts.contains(s) && stmt_holds_expr(s, e) ==> exprs.contains(e)
    &&& forall|e: Expr, child: Expr|
        #![trigger exprs.contains(e), expr_holds_expr(e, child)]
        exprs.contains(e) && expr_holds_expr(e, child) ==> exprs.contains(child)
}

/// Two complete pairs of runs put together are complete.
proof fn lemma_complete_add(s1: Seq<Stmt>, e1: Seq<Expr>, s2: Seq<Stmt>, e2: Seq<Expr>)
    requires
        complete(s1, e1),
        complete(s2, e2),
    ensures
        complete(s1 + s2, e1 + e2),
{
    assert forall|s: Stmt| #[trigger]
        (s1 + s2).contains(s) == (s1.contains(s) || s2.contains(s)) by {
        lemma_contains_add(s1, s2, s);
    }
    assert forall|e: Expr| #[trigger]
        (e1 + e2).contains(e) == (e1.contains(e) || e2.contains(e)) by {
        lemma_contains_add(e1, e2, e);
    }
}

/// The nodes of an expression hold the expression and are complete.
proof fn lemma_expr_complete(e: Expr)
    ensures
        expr_nodes(e).contains(e),
        complete(Seq::empty(), expr_nodes(e)),
    decreases e,
{
    let nodes = expr_nodes(e);
    let below = nodes.subrange(1, nodes.len() as int);
    assert(nodes =~= seq![e] + below);
    assert(nodes[0] == e);
    match e {
        Expr::Call { func, arguments, .. } => {
            lemma_expr_complete(*func);
            lemma_exprs_complete(arguments@);
            lemma_complete_add(
                Seq::empty(),
                expr_nodes(*func),
                Seq::empty(),
                exprs_nodes(arguments@),
            );
            assert(Seq::<Stmt>::empty() + Seq::<Stmt>::empty() =~= Seq::<Stmt>::empty());
            assert(below =~= expr_nodes(*func) + exprs_nodes(arguments@));
            assert forall|child: Expr| expr_holds_expr(e, child) implies below.contains(child) by {
                lemma_contains_add(expr_nodes(*func), exprs_nodes(arguments@), child);
            }
        },
        Expr::Other { children, .. } => {
            lemma_exprs_complete(children@);
            assert(below =~= exprs_nodes(children@));
        },
        _ => {
            assert(below =~= Seq::<Expr>::empty());
        },
    }
    assert forall|x: Expr| nodes.contains(x) == (x == e || below.contains(x)) by {
        lemma_contains_add(seq![e], below, x);
        if seq![e].contains(x) {
            let i = choose|i: int| 0 <= i < seq![e].len() && #[trigger] seq![e][i] == x;
        }
        if x == e {
            assert(seq![e][0] == x);
        }
    }
}

/// The nodes of a run of expressions hold each expression of the run and
/// are complete.
proof fn lemma_exprs_complete(es: Seq<Expr>)
    ensures
        forall|x: Expr| es.contains(x) ==> exprs_nodes(es).contains(x),
        complete(Seq::empty(), exprs_nodes(es)),
    decreases es,
{
    if es.len() > 0 {
        let front = exprs_nodes(es.drop_last());
        let back = expr_nodes(es.last());
        lemma_exprs_complete(es.drop_last());
        lemma_expr_complete(es.last());
        lemma_complete_add(Seq::empty(), front, Seq::empty(), back);
        assert(Seq::<Stmt>::empty() + Seq::<Stmt>::empty() =~= Seq::<Stmt>::empty());
        assert(es =~= es.drop_last() + seq![es.last()]);
        assert forall|x: Expr| es.contains(x) implies exprs_nodes(es).contains(x) by {
            lemma_contains_add(es.drop_last(), seq![es.last()], x);
            lemma_contains_add(front, back, x);
            if seq![es.last()].contains(x) {
                let i = choose|i: int|
                    0 <= i < seq![es.last()].len() && #[trigger] seq![es.last()][i] == x;
            }
        }
    }
}

/// Two complete runs of expressions put together are complete.
proof fn lemma_complete_exprs_add(e1: Seq<Expr>, e2: Seq<Expr>)
    requires
        complete(Seq::empty(), e1),
        complete(Seq::empty(), e2),
    ensures
        complete(Seq::empty(), e1 + e2),
{
    lemma_complete_add(Seq::empty(), e1, Seq::empty(), e2);
    assert(Seq::<Stmt>::empty() + Seq::<Stmt>::empty() =~= Seq::<Stmt>::empty());
}

/// The nodes of an expression that may be absent hold it and are complete.
proof fn lemma_option_complete(e: Option<Expr>)
    ensures
        e matches Some(x) ==> option_nodes(e).contains(x),
        complete(Seq::empty(), option_nodes(e)),
{
    if let Some(x) = e {
        lemma_expr_complete(x);
    }
}

/// The nodes of the defaults of a group hold each default and are
/// complete.
proof fn lemma_defaults_complete(group: Seq<ParameterWithDefault>)
    ensures
        forall|i: int|
            0 <= i < group.len() ==> ((#[trigger] group[i]).default matches Some(x)
                ==> default_nodes(group).contains(x)),
        complete(Seq::empty(), default_nodes(group)),
    decreases group.len(),
{
    let f = |p: ParameterWithDefault| option_nodes(p.default);
    if group.len() == 0 {
        assert(default_nodes(group) =~= Seq::<Expr>::empty());
    } else {
        let front = default_nodes(group.drop_last());
        let back = option_nodes(group.last().default);
        lemma_defaults_complete(group.drop_last());
        lemma_option_complete(group.last().default);
        group.drop_last().lemma_flat_map_push(f, group.last());
        assert(group.drop_last().push(group.last()) =~= group);
        lemma_complete_exprs_add(front, back);
        assert forall|i: int| 0 <= i < group.len() implies ((
            #[trigger] group[i]).default matches Some(x) ==> default_nodes(group).contains(x)) by {
            if let Some(x) = group[i].default {
                lemma_contains_add(front, back, x);
                if i < group.len() - 1 {
                    assert(group.drop_last()[i] == group[i]);
                }
            }
        }
    }
}

/// The nodes of the annotations of a group hold each annotation and are
/// complete.
proof fn lemma_annotations_complete(group: Seq<ParameterWithDefault>)
    ensures
        forall|i: int|
            0 <= i < group.len() ==> ((#[trigger] group[i]).parameter.annotation matches Some(x)
                ==> annotation_nodes(group).contains(x)),
        complete(Seq::empty(), annotation_nodes(group)),
    decreases group.len(),
{
    let f = |p: ParameterWithDefault| option_nodes(p.parameter.annotation);
    if group.len() == 0 {
        assert(annotation_nodes(group) =~= Seq::<Expr>::empty());
    } else {
        let front = annotation_nodes(group.drop_last());
        let back = option_nodes(group.last().parameter.annotation);
        lemma_annotations_complete(group.drop_last());
        lemma_option_complete(group.last().parameter.annotation);
        group.drop_last().lemma_flat_map_push(f, group.last());
        assert(group.drop_last().push(group.last()) =~= group);
        lemma_complete_exprs_add(front, back);
        assert forall|i: int| 0 <= i < group.len() implies ((
            #[trigger] group[i]).parameter.annotation matches Some(x) ==> annotation_nodes(
            group,
        ).contains(x)) by {
            if let Some(x) = group[i].parameter.annotation {
                lemma_contains_add(front, back, x);
                if i < group.len() - 1 {
                    assert(group.drop_last()[i] == group[i]);
                }
            }
        }
    }
}

/// The nodes of a parameter list hold every annotation and default of the
/// list and are complete.
proof fn lemma_parameters_complete(ps: Parameters)
    ensures
        forall|e: Expr| parameters_hold_expr(ps, e) ==> parameters_nodes(ps).contains(e),
        complete(Seq::empty(), parameters_nodes(ps)),
{
    let d1 = default_nodes(ps.posonlyargs@);
    let d2 = d1 + default_nodes(ps.args@);
    let d3 = d2 + default_nodes(ps.kwonlyargs@);
    let a1 = d3 + annotation_nodes(ps.posonlyargs@);
    let a2 = a1 + annotation_nodes(ps.args@);
    let a3 = a2 + variadic_nodes(ps.vararg);
    let a4 = a3 + annotation_nodes(ps.kwonlyargs@);
    let a5 = a4 + variadic_nodes(ps.kwarg);
    lemma_defaults_complete(ps.posonlyargs@);
    lemma_defaults_complete(ps.args@);
    lemma_defaults_complete(ps.kwonlyargs@);
    lemma_annotations_complete(ps.posonlyargs@);
    lemma_annotations_complete(ps.args@);
    lemma_annotations_complete(ps.kwonlyargs@);
    if let Some(p) = ps.vararg {
        lemma_option_complete(p.annotation);
    }
    if let Some(p) = ps.kwarg {
        lemma_option_complete(p.annotation);
    }
    lemma_complete_exprs_add(d1, default_nodes(ps.args@));
    lemma_complete_exprs_add(d2, default_nodes(ps.kwonlyargs@));
    lemma_complete_exprs_add(d3, annotation_nodes(ps.posonlyargs@));
    lemma_complete_exprs_add(a1, annotation_nodes(ps.args@));
    lemma_complete_exprs_add(a2, variadic_nodes(ps.vararg));
    lemma_complete_exprs_add(a3, annotation_nodes(ps.kwonlyargs@));
    lemma_complete_exprs_add(a4, variadic_nodes(ps.kwarg));
    assert(parameters_nodes(ps) == a5);
    assert forall|e: Expr| parameters_hold_expr(ps, e) implies a5.contains(e) by {
        lemma_contains_add(d1, default_nodes(ps.args@), e);
        lemma_contains_add(d2, default_nodes(ps.kwonlyargs@), e);
        lemma_contains_add(d3, annotation_nodes(ps.posonlyargs@), e);
        lemma_contains_add(a1, annotation_nodes(ps.args@), e);
        lemma_contains_add(a2, variadic_nodes(ps.vararg), e);
        lemma_contains_add(a3, annotation_nodes(ps.kwonlyargs@), e);
        lemma_contains_add(a4, variadic_nodes(ps.kwarg), e);
    }
}

/// A statement put before a complete pair of runs that hold what stands
/// directly in it gives a complete pair.
proof fn lemma_complete_head(t: Stmt, stmts: Seq<Stmt>, exprs: Seq<Expr>)
    requires
        complete(stmts, exprs),
        forall|child: Stmt| #[trigger] stmt_holds_stmt(t, child) ==> stmts.contains(child),
        forall|e: Expr| #[trigger] stmt_holds_expr(t, e) ==> exprs.contains(e),
    ensures
        complete(seq![t] + stmts, exprs),
        (seq![t] + stmts).contains(t),
{
    assert forall|s: Stmt| #[trigger]
        (seq![t] + stmts).contains(s) == (s == t || stmts.contains(s)) by {
        lemma_contains_add(seq![t], stmts, s);
        lemma_contains_one(t, s);
    }
}

/// The nodes of a statement hold the statement, and with its expressions
/// they are complete.
proof fn lemma_stmt_complete(t: Stmt)
    ensures
        stmt_nodes(t).contains(t),
        complete(stmt_nodes(t), stmt_exprs(t)),
    decreases t,
{
    let nested = stmt_nodes(t).subrange(1, stmt_nodes(t).len() as int);
    assert(stmt_nodes(t) =~= seq![t] + nested);
    match t {
        Stmt::ImportFrom { .. } => {
            assert(nested =~= Seq::<Stmt>::empty());
            lemma_complete_head(t, nested, stmt_exprs(t));
        },
        Stmt::FunctionDef { decorators, type_params, parameters, return_type, body, .. } => {
            let e1 = exprs_nodes(decorators@);
            let e2 = e1 + exprs_nodes(type_params@);
            let e3 = e2 + parameters_nodes(parameters);
            let e4 = e3 + option_nodes(return_type);
            let e5 = e4 + stmts_exprs(body@);
            lemma_exprs_complete(decorators@);
            lemma_exprs_complete(type_params@);
            lemma_parameters_complete(parameters);
            lemma_option_complete(return_type);
            lemma_stmts_complete(body@);
            lemma_complete_exprs_add(e1, exprs_nodes(type_params@));
            lemma_complete_exprs_add(e2, parameters_nodes(parameters));
            lemma_complete_exprs_add(e3, option_nodes(return_type));
            lemma_complete_add(Seq::empty(), e4, stmts_nodes(body@), stmts_exprs(body@));
            assert(Seq::<Stmt>::empty() + stmts_nodes(body@) =~= stmts_nodes(body@));
            assert(nested =~= stmts_nodes(body@));
            assert(stmt_exprs(t) == e5);
            assert forall|e: Expr| #[trigger] stmt_holds_expr(t, e) implies e5.contains(e) by {
                lemma_contains_add(e1, exprs_nodes(type_params@), e);
                lemma_contains_add(e2, parameters_nodes(parameters), e);
                lemma_contains_add(e3, option_nodes(return_type), e);
                lemma_contains_add(e4, stmts_exprs(body@), e);
            }
            lemma_complete_head(t, nested, e5);
        },
        Stmt::Expr { value, .. } => {
            lemma_expr_complete(value);
            assert(nested =~= Seq::<Stmt>::empty());
            lemma_complete_head(t, nested, stmt_exprs(t));
        },
        Stmt::Other { parts, .. } => {
            lemma_parts_complete(parts@);
            assert(nested =~= parts_stmts(parts@));
            lemma_complete_head(t, nested, stmt_exprs(t));
        },
    }
}

/// The nodes of a run of statements hold each statement of the run, and
/// with their expressions they are complete.
proof fn lemma_stmts_complete(ss: Seq<Stmt>)
    ensures
        forall|x: Stmt| ss.contains(x) ==> stmts_nodes(ss).contains(x),
        complete(stmts_nodes(ss), stmts_exprs(ss)),
    decreases ss,
{
    if ss.len() > 0 {
        lemma_stmts_complete(ss.drop_last());
        lemma_stmt_complete(ss.last());
        lemma_complete_add(
            stmts_nodes(ss.drop_last()),
            stmts_exprs(ss.drop_last()),
            stmt_nodes(ss.last()),
            stmt_exprs(ss.last()),
        );
        assert(ss =~= ss.drop_last() + seq![ss.last()]);
        assert forall|x: Stmt| ss.contains(x) implies stmts_nodes(ss).contains(x) by {
            lemma_contains_add(ss.drop_last(), seq![ss.last()], x);
            lemma_contains_add(stmts_nodes(ss.drop_last()), stmt_nodes(ss.last()), x);
            lemma_contains_one(ss.last(), x);
        }
    }
}

/// What the parts of a statement give holds each statement and each
/// expression among the parts and is complete.
proof fn lemma_parts_complete(ns: Seq<Node>)
    ensures
        forall|s: Stmt| ns.contains(Node::Stmt(s)) ==> parts_stmts(ns).contains(s),
        forall|e: Expr| ns.contains(Node::Expr(e)) ==> parts_exprs(ns).contains(e),
        complete(parts_stmts(ns), parts_exprs(ns)),
    decreases ns,
{
    if ns.len() > 0 {
        lemma_parts_complete(ns.drop_last());
        match ns.last() {
            Node::Expr(e) => {
                lemma_expr_complete(e);
            },
            Node::Stmt(s) => {
                lemma_stmt_complete(s);
            },
        }
        lemma_complete_add(
            parts_stmts(ns.drop_last()),
            parts_exprs(ns.drop_last()),
            part_stmts(ns.last()),
            part_exprs(ns.last()),
        );
        assert(ns =~= ns.drop_last() + seq![ns.last()]);
        assert forall|s: Stmt| ns.contains(Node::Stmt(s)) implies parts_stmts(ns).contains(s) by {
            lemma_contains_add(ns.drop_last(), seq![ns.last()], Node::Stmt(s));
            lemma_contains_add(parts_stmts(ns.drop_last()), part_stmts(ns.last()), s);
            lemma_contains_one(ns.last(), Node::Stmt(s));
        }
        assert forall|e: Expr| ns.contains(Node::Expr(e)) implies parts_exprs(ns).contains(e) by {
            lemma_contains_add(ns.drop_last(), seq![ns.last()], Node::Expr(e));
            lemma_contains_add(parts_exprs(ns.drop_last()), part_exprs(ns.last()), e);
            lemma_contains_one(ns.last(), Node::Expr(e));
        }
    }
}

/// No statement and no expression of a unit is left out of its visiting
/// order. The statements of the unit are visited; with a visited statement
/// so are the statements and the expressions that stand directly in it;
/// and with a visited expression so are those that stand directly below
/// it.
pub proof fn lemma_nothing_left_out(body: Seq<Stmt>)
    ensures
        forall|s: Stmt| body.contains(s) ==> stmts_nodes(body).contains(s),
        forall|s: Stmt, child: Stmt|
            #![trigger stmts_nodes(body).contains(s), stmt_holds_stmt(s, child)]
            stmts_nodes(body).contains(s) && stmt_holds_stmt(s, child) ==> stmts_nodes(
                body,
            ).contains(child),
        forall|s: Stmt, e: Expr|
            #![trigger stmts_nodes(body).contains(s), stmt_holds_expr(s, e)]
            stmts_nodes(body).contains(s) && stmt_holds_expr(s, e) ==> stmts_exprs(body).contains(
                e,
            ),
        forall|e: Expr, child: Expr|
            #![trigger stmts_exprs(body).contains(e), expr_holds_expr(e, child)]
            stmts_exprs(body).contains(e) && expr_holds_expr(e, child) ==> stmts_exprs(
                body,
            ).contains(child),
{
    lemma_stmts_complete(body);
}

} // verus!
