//! Nothing is added to a tree: the visiting order holds only the
//! statements and the expressions of the unit.

use crate::reach::{
    expr_holds_expr, group_holds_annotation, group_holds_default, parameters_hold_expr,
    stmt_holds_expr, stmt_holds_stmt, variadic_holds_expr,
};
use crate::seq_facts::{lemma_contains_add, lemma_contains_one};
use crate::syntax::{
    annotation_nodes, default_nodes, expr_nodes, exprs_nodes, option_nodes, parameters_nodes,
    part_exprs, part_stmts, parts_exprs, parts_stmts, stmt_exprs, stmt_nodes, stmts_exprs,
    stmts_nodes, variadic_nodes, Expr, Node, Parameter, ParameterWithDefault, Parameters, Stmt,
};
use vstd::prelude::*;

verus! {

/// `x` is one of the `roots` or stands directly in a statement of `stmts`.
pub open spec fn stmt_has_place(x: Stmt, roots: spec_fn(Stmt) -> bool, stmts: Seq<Stmt>) -> bool {
    roots(x) || exists|s: Stmt| #[trigger] stmts.contains(s) && stmt_holds_stmt(s, x)
}

/// `e` is one of the `roots`, or stands directly in a statement of `stmts`
/// or directly below an expression of `exprs`.
pub open spec fn expr_has_place(
    e: Expr,
    roots: spec_fn(Expr) -> bool,
    stmts: Seq<Stmt>,
    exprs: Seq<Expr>,
) -> bool {
    ||| roots(e)
    ||| exists|s: Stmt| #[trigger] stmts.contains(s) && stmt_holds_expr(s, e)
    ||| exists|p: Expr| #[trigger] exprs.contains(p) && expr_holds_expr(p, e)
}

/// Every statement of `stmts` and every expression of `exprs` has its
/// place.
pub open spec fn grounded(
    stmt_roots: spec_fn(Stmt) -> bool,
    expr_roots: spec_fn(Expr) -> bool,
    stmts: Seq<Stmt>,
    exprs: Seq<Expr>,
) -> bool {
    &&& forall|x: Stmt| #[trigger] stmts.contains(x) ==> stmt_has_place(x, stmt_roots, stmts)
    &&& forall|e: Expr| #[trigger]
        exprs.contains(e) ==> expr_has_place(e, expr_roots, stmts, exprs)
}

/// Two grounded pairs of runs put together are grounded in the roots of
/// both.
proof fn lemma_grounded_add(
    r1: spec_fn(Stmt) -> bool,
    q1: spec_fn(Expr) -> bool,
    s1: Seq<Stmt>,
    e1: Seq<Expr>,
    r2: spec_fn(Stmt) -> bool,
    q2: spec_fn(Expr) -> bool,
    s2: Seq<Stmt>,
    e2: Seq<Expr>,
    r: spec_fn(Stmt) -> bool,
    q: spec_fn(Expr) -> bool,
)
    requires
        grounded(r1, q1, s1, e1),
        grounded(r2, q2, s2, e2),
        forall|x: Stmt| #[trigger] r(x) == (r1(x) || r2(x)),
        forall|e: Expr| #[trigger] q(e) == (q1(e) || q2(e)),
    ensures
        grounded(r, q, s1 + s2, e1 + e2),
{
    let stmts = s1 + s2;
    let exprs = e1 + e2;
    assert forall|x: Stmt| #[trigger] stmts.contains(x) == (s1.contains(x) || s2.contains(x)) by {
        lemma_contains_add(s1, s2, x);
    }
    assert forall|e: Expr| #[trigger] exprs.contains(e) == (e1.contains(e) || e2.contains(e)) by {
        lemma_contains_add(e1, e2, e);
    }
    assert forall|x: Stmt| #[trigger] stmts.contains(x) implies stmt_has_place(x, r, stmts) by {
        if s1.contains(x) {
            if !r1(x) {
                let s = choose|s: Stmt| #[trigger] s1.contains(s) && stmt_holds_stmt(s, x);
                assert(stmts.contains(s));
            }
        } else {
            if !r2(x) {
                let s = choose|s: Stmt| #[trigger] s2.contains(s) && stmt_holds_stmt(s, x);
                assert(stmts.contains(s));
            }
        }
    }
    assert forall|e: Expr| #[trigger] exprs.contains(e) implies expr_has_place(
        e,
        q,
        stmts,
        exprs,
    ) by {
        if e1.contains(e) {
            lemma_expr_place_kept(e, q1, s1, e1, q, stmts, exprs);
        } else {
            lemma_expr_place_kept(e, q2, s2, e2, q, stmts, exprs);
        }
    }
}

/// An expression that has its place keeps it among more roots, statements
/// and expressions.
proof fn lemma_expr_place_kept(
    e: Expr,
    roots: spec_fn(Expr) -> bool,
    stmts: Seq<Stmt>,
    exprs: Seq<Expr>,
    more_roots: spec_fn(Expr) -> bool,
    more_stmts: Seq<Stmt>,
    more_exprs: Seq<Expr>,
)
    requires
        expr_has_place(e, roots, stmts, exprs),
        roots(e) ==> more_roots(e),
        forall|y: Stmt| #[trigger] stmts.contains(y) ==> more_stmts.contains(y),
        forall|y: Expr| #[trigger] exprs.contains(y) ==> more_exprs.contains(y),
    ensures
        expr_has_place(e, more_roots, more_stmts, more_exprs),
{
    if roots(e) {
    } else if exists|s: Stmt| #[trigger] stmts.contains(s) && stmt_holds_expr(s, e) {
        let s = choose|s: Stmt| #[trigger] stmts.contains(s) && stmt_holds_expr(s, e);
        assert(more_stmts.contains(s));
    } else {
        let p = choose|p: Expr| #[trigger] exprs.contains(p) && expr_holds_expr(p, e);
        assert(more_exprs.contains(p));
    }
}

/// An expression put before a grounded run whose roots stand directly
/// below it gives a run grounded in the expression alone.
proof fn lemma_grounded_below(e: Expr, roots: spec_fn(Expr) -> bool, below: Seq<Expr>)
    requires
        grounded(|x: Stmt| false, roots, Seq::empty(), below),
        forall|c: Expr| #[trigger] roots(c) ==> expr_holds_expr(e, c),
    ensures
        grounded(|x: Stmt| false, |x: Expr| x == e, Seq::empty(), seq![e] + below),
{
    let nodes = seq![e] + below;
    assert forall|x: Expr| #[trigger] nodes.contains(x) == (x == e || below.contains(x)) by {
        lemma_contains_add(seq![e], below, x);
        lemma_contains_one(e, x);
    }
    assert forall|x: Expr| #[trigger] nodes.contains(x) implies expr_has_place(
        x,
        |x: Expr| x == e,
        Seq::empty(),
        nodes,
    ) by {
        if x != e {
            if roots(x) {
                assert(nodes.contains(e) && expr_holds_expr(e, x));
            } else {
                let p = choose|p: Expr| #[trigger] below.contains(p) && expr_holds_expr(p, x);
                assert(nodes.contains(p));
            }
        }
    }
}

/// The nodes of an expression are grounded in the expression.
proof fn lemma_expr_grounded(e: Expr)
    ensures
        grounded(|x: Stmt| false, |x: Expr| x == e, Seq::empty(), expr_nodes(e)),
    decreases e,
{
    let nodes = expr_nodes(e);
    let below = nodes.subrange(1, nodes.len() as int);
    assert(nodes =~= seq![e] + below);
    match e {
        Expr::Call { func, arguments, .. } => {
            lemma_expr_grounded(*func);
            lemma_exprs_grounded(arguments@);
            let roots = |x: Expr| x == *func || arguments@.contains(x);
            lemma_grounded_add(
                |x: Stmt| false,
                |x: Expr| x == *func,
                Seq::empty(),
                expr_nodes(*func),
                |x: Stmt| false,
                |x: Expr| arguments@.contains(x),
                Seq::empty(),
                exprs_nodes(arguments@),
                |x: Stmt| false,
                roots,
            );
            assert(Seq::<Stmt>::empty() + Seq::<Stmt>::empty() =~= Seq::<Stmt>::empty());
            assert(below =~= expr_nodes(*func) + exprs_nodes(arguments@));
            lemma_grounded_below(e, roots, below);
        },
        Expr::Other { children, .. } => {
            lemma_exprs_grounded(children@);
            assert(below =~= exprs_nodes(children@));
            lemma_grounded_below(e, |x: Expr| children@.contains(x), below);
        },
        _ => {
            assert(below =~= Seq::<Expr>::empty());
            lemma_grounded_below(e, |x: Expr| false, below);
        },
    }
}

/// The nodes of a run of expressions are grounded in the expressions of
/// the run.
proof fn lemma_exprs_grounded(es: Seq<Expr>)
    ensures
        grounded(|x: Stmt| false, |x: Expr| es.contains(x), Seq::empty(), exprs_nodes(es)),
    decreases es,
{
    if es.len() > 0 {
        lemma_exprs_grounded(es.drop_last());
        lemma_expr_grounded(es.last());
        assert(es =~= es.drop_last() + seq![es.last()]);
        assert forall|x: Expr| #[trigger]
            es.contains(x) == (es.drop_last().contains(x) || x == es.last()) by {
            lemma_contains_add(es.drop_last(), seq![es.last()], x);
            lemma_contains_one(es.last(), x);
        }
        lemma_grounded_add(
            |x: Stmt| false,
            |x: Expr| es.drop_last().contains(x),
            Seq::empty(),
            exprs_nodes(es.drop_last()),
            |x: Stmt| false,
            |x: Expr| x == es.last(),
            Seq::empty(),
            expr_nodes(es.last()),
            |x: Stmt| false,
            |x: Expr| es.contains(x),
        );
        assert(Seq::<Stmt>::empty() + Seq::<Stmt>::empty() =~= Seq::<Stmt>::empty());
    }
}

/// The nodes of an expression that may be absent are grounded in it.
proof fn lemma_option_grounded(o: Option<Expr>)
    ensures
        grounded(|x: Stmt| false, |x: Expr| o == Some(x), Seq::empty(), option_nodes(o)),
{
    match o {
        Some(e) => {
            lemma_expr_grounded(e);
            lemma_grounded_add(
                |x: Stmt| false,
                |x: Expr| x == e,
                Seq::empty(),
                expr_nodes(e),
                |x: Stmt| false,
                |x: Expr| false,
                Seq::empty(),
                Seq::empty(),
                |x: Stmt| false,
                |x: Expr| o == Some(x),
            );
            assert(Seq::<Stmt>::empty() + Seq::<Stmt>::empty() =~= Seq::<Stmt>::empty());
            assert(expr_nodes(e) + Seq::<Expr>::empty() =~= expr_nodes(e));
        },
        None => {},
    }
}

/// The nodes of the defaults of a group are grounded in the defaults.
proof fn lemma_defaults_grounded(group: Seq<ParameterWithDefault>)
    ensures
        grounded(
            |x: Stmt| false,
            |x: Expr| group_holds_default(group, x),
            Seq::empty(),
            default_nodes(group),
        ),
    decreases group.len(),
{
    let f = |p: ParameterWithDefault| option_nodes(p.default);
    if group.len() == 0 {
        assert(default_nodes(group) =~= Seq::<Expr>::empty());
    } else {
        let front = group.drop_last();
        let last = group.last();
        lemma_defaults_grounded(front);
        lemma_option_grounded(last.default);
        front.lemma_flat_map_push(f, last);
        assert(front.push(last) =~= group);
        assert forall|x: Expr| #[trigger]
            group_holds_default(group, x) == (group_holds_default(front, x) || last.default
                == Some(x)) by {
            if group_holds_default(group, x) {
                let i = choose|i: int|
                    0 <= i < group.len() && (#[trigger] group[i]).default == Some(x);
                if i < front.len() {
                    assert(front[i].default == Some(x));
                }
            }
            if group_holds_default(front, x) {
                let i = choose|i: int|
                    0 <= i < front.len() && (#[trigger] front[i]).default == Some(x);
                assert(group[i].default == Some(x));
            }
            if last.default == Some(x) {
                assert(group[group.len() - 1].default == Some(x));
            }
        }
        lemma_grounded_add(
            |x: Stmt| false,
            |x: Expr| group_holds_default(front, x),
            Seq::empty(),
            default_nodes(front),
            |x: Stmt| false,
            |x: Expr| last.default == Some(x),
            Seq::empty(),
            option_nodes(last.default),
            |x: Stmt| false,
            |x: Expr| group_holds_default(group, x),
        );
        assert(Seq::<Stmt>::empty() + Seq::<Stmt>::empty() =~= Seq::<Stmt>::empty());
    }
}

/// The nodes of the annotations of a group are grounded in the
/// annotations.
proof fn lemma_annotations_grounded(group: Seq<ParameterWithDefault>)
    ensures
        grounded(
            |x: Stmt| false,
            |x: Expr| group_holds_annotation(group, x),
            Seq::empty(),
            annotation_nodes(group),
        ),
    decreases group.len(),
{
    let f = |p: ParameterWithDefault| option_nodes(p.parameter.annotation);
    if group.len() == 0 {
        assert(annotation_nodes(group) =~= Seq::<Expr>::empty());
    } else {
        let front = group.drop_last();
        let last = group.last();
        lemma_annotations_grounded(front);
        lemma_option_grounded(last.parameter.annotation);
        front.lemma_flat_map_push(f, last);
        assert(front.push(last) =~= group);
        assert forall|x: Expr| #[trigger]
            group_holds_annotation(group, x) == (group_holds_annotation(front, x)
                || last.parameter.annotation == Some(x)) by {
            if group_holds_annotation(group, x) {
                let i = choose|i: int|
                    0 <= i < group.len() && (#[trigger] group[i]).parameter.annotation == Some(x);
                if i < front.len() {
                    assert(front[i].parameter.annotation == Some(x));
                }
            }
            if group_holds_annotation(front, x) {
                let i = choose|i: int|
                    0 <= i < front.len() && (#[trigger] front[i]).parameter.annotation == Some(x);
                assert(group[i].parameter.annotation == Some(x));
            }
            if last.parameter.annotation == Some(x) {
                assert(group[group.len() - 1].parameter.annotation == Some(x));
            }
        }
        lemma_grounded_add(
            |x: Stmt| false,
            |x: Expr| group_holds_annotation(front, x),
            Seq::empty(),
            annotation_nodes(front),
            |x: Stmt| false,
            |x: Expr| last.parameter.annotation == Some(x),
            Seq::empty(),
            option_nodes(last.parameter.annotation),
            |x: Stmt| false,
            |x: Expr| group_holds_annotation(group, x),
        );
        assert(Seq::<Stmt>::empty() + Seq::<Stmt>::empty() =~= Seq::<Stmt>::empty());
    }
}

/// A run of expressions grounded in some roots, followed by one grounded
/// in others, is grounded in the roots of both.
proof fn lemma_grounded_exprs_add(
    q1: spec_fn(Expr) -> bool,
    e1: Seq<Expr>,
    q2: spec_fn(Expr) -> bool,
    e2: Seq<Expr>,
    q: spec_fn(Expr) -> bool,
)
    requires
        grounded(|x: Stmt| false, q1, Seq::empty(), e1),
        grounded(|x: Stmt| false, q2, Seq::empty(), e2),
        forall|e: Expr| #[trigger] q(e) == (q1(e) || q2(e)),
    ensures
        grounded(|x: Stmt| false, q, Seq::empty(), e1 + e2),
{
    lemma_grounded_add(
        |x: Stmt| false,
        q1,
        Seq::empty(),
        e1,
        |x: Stmt| false,
        q2,
        Seq::empty(),
        e2,
        |x: Stmt| false,
        q,
    );
    assert(Seq::<Stmt>::empty() + Seq::<Stmt>::empty() =~= Seq::<Stmt>::empty());
}

/// The nodes of a parameter list are grounded in the annotations and
/// defaults of the list.
proof fn lemma_parameters_grounded(ps: Parameters)
    ensures
        grounded(
            |x: Stmt| false,
            |x: Expr| parameters_hold_expr(ps, x),
            Seq::empty(),
            parameters_nodes(ps),
        ),
{
    let d1 = default_nodes(ps.posonlyargs@);
    let d2 = d1 + default_nodes(ps.args@);
    let d3 = d2 + default_nodes(ps.kwonlyargs@);
    let a1 = d3 + annotation_nodes(ps.posonlyargs@);
    let a2 = a1 + annotation_nodes(ps.args@);
    let a3 = a2 + variadic_nodes(ps.vararg);
    let a4 = a3 + annotation_nodes(ps.kwonlyargs@);
    let q1 = |x: Expr| group_holds_default(ps.posonlyargs@, x);
    let q2 = |x: Expr| q1(x) || group_holds_default(ps.args@, x);
    let q3 = |x: Expr| q2(x) || group_holds_default(ps.kwonlyargs@, x);
    let q4 = |x: Expr| q3(x) || group_holds_annotation(ps.posonlyargs@, x);
    let q5 = |x: Expr| q4(x) || group_holds_annotation(ps.args@, x);
    let q6 = |x: Expr| q5(x) || variadic_holds_expr(ps.vararg, x);
    let q7 = |x: Expr| q6(x) || group_holds_annotation(ps.kwonlyargs@, x);
    lemma_defaults_grounded(ps.posonlyargs@);
    lemma_defaults_grounded(ps.args@);
    lemma_defaults_grounded(ps.kwonlyargs@);
    lemma_annotations_grounded(ps.posonlyargs@);
    lemma_annotations_grounded(ps.args@);
    lemma_annotations_grounded(ps.kwonlyargs@);
    lemma_variadic_grounded(ps.vararg);
    lemma_variadic_grounded(ps.kwarg);
    lemma_grounded_exprs_add(
        q1,
        d1,
        |x: Expr| group_holds_default(ps.args@, x),
        default_nodes(ps.args@),
        q2,
    );
    lemma_grounded_exprs_add(
        q2,
        d2,
        |x: Expr| group_holds_default(ps.kwonlyargs@, x),
        default_nodes(ps.kwonlyargs@),
        q3,
    );
    lemma_grounded_exprs_add(
        q3,
        d3,
        |x: Expr| group_holds_annotation(ps.posonlyargs@, x),
        annotation_nodes(ps.posonlyargs@),
        q4,
    );
    lemma_grounded_exprs_add(
        q4,
        a1,
        |x: Expr| group_holds_annotation(ps.args@, x),
        annotation_nodes(ps.args@),
        q5,
    );
    lemma_grounded_exprs_add(
        q5,
        a2,
        |x: Expr| variadic_holds_expr(ps.vararg, x),
        variadic_nodes(ps.vararg),
        q6,
    );
    lemma_grounded_exprs_add(
        q6,
        a3,
        |x: Expr| group_holds_annotation(ps.kwonlyargs@, x),
        annotation_nodes(ps.kwonlyargs@),
        q7,
    );
    lemma_grounded_exprs_add(
        q7,
        a4,
        |x: Expr| variadic_holds_expr(ps.kwarg, x),
        variadic_nodes(ps.kwarg),
        |x: Expr| parameters_hold_expr(ps, x),
    );
}

/// The nodes of the annotation of a variadic parameter are grounded in the
/// annotation.
proof fn lemma_variadic_grounded(p: Option<Parameter>)
    ensures
        grounded(
            |x: Stmt| false,
            |x: Expr| variadic_holds_expr(p, x),
            Seq::empty(),
            variadic_nodes(p),
        ),
{
    match p {
        Some(q) => {
            lemma_option_grounded(q.annotation);
            lemma_grounded_exprs_add(
                |x: Expr| q.annotation == Some(x),
                option_nodes(q.annotation),
                |x: Expr| false,
                Seq::empty(),
                |x: Expr| variadic_holds_expr(p, x),
            );
            assert(option_nodes(q.annotation) + Seq::<Expr>::empty() =~= option_nodes(
                q.annotation,
            ));
        },
        None => {},
    }
}

/// A statement put before a grounded pair of runs whose roots stand
/// directly in it gives a pair grounded in the statement alone.
proof fn lemma_grounded_head(
    t: Stmt,
    r: spec_fn(Stmt) -> bool,
    q: spec_fn(Expr) -> bool,
    stmts: Seq<Stmt>,
    exprs: Seq<Expr>,
)
    requires
        grounded(r, q, stmts, exprs),
        forall|x: Stmt| #[trigger] r(x) ==> stmt_holds_stmt(t, x),
        forall|e: Expr| #[trigger] q(e) ==> stmt_holds_expr(t, e),
    ensures
        grounded(|x: Stmt| x == t, |x: Expr| false, seq![t] + stmts, exprs),
{
    let all = seq![t] + stmts;
    assert forall|x: Stmt| #[trigger] all.contains(x) == (x == t || stmts.contains(x)) by {
        lemma_contains_add(seq![t], stmts, x);
        lemma_contains_one(t, x);
    }
    assert forall|x: Stmt| #[trigger] all.contains(x) implies stmt_has_place(
        x,
        |x: Stmt| x == t,
        all,
    ) by {
        if x != t {
            if r(x) {
                assert(all.contains(t) && stmt_holds_stmt(t, x));
            } else {
                let s = choose|s: Stmt| #[trigger] stmts.contains(s) && stmt_holds_stmt(s, x);
                assert(all.contains(s));
            }
        }
    }
    assert forall|e: Expr| #[trigger] exprs.contains(e) implies expr_has_place(
        e,
        |x: Expr| false,
        all,
        exprs,
    ) by {
        if q(e) {
            assert(all.contains(t) && stmt_holds_expr(t, e));
        } else {
            lemma_expr_place_kept(e, q, stmts, exprs, |x: Expr| false, all, exprs);
        }
    }
}

/// The nodes and the expressions of a statement are grounded in the
/// statement.
proof fn lemma_stmt_grounded(t: Stmt)
    ensures
        grounded(|x: Stmt| x == t, |x: Expr| false, stmt_nodes(t), stmt_exprs(t)),
    decreases t,
{
    let nested = stmt_nodes(t).subrange(1, stmt_nodes(t).len() as int);
    assert(stmt_nodes(t) =~= seq![t] + nested);
    match t {
        Stmt::ImportFrom { .. } => {
            assert(nested =~= Seq::<Stmt>::empty());
            lemma_grounded_head(t, |x: Stmt| false, |x: Expr| false, nested, stmt_exprs(t));
        },
        Stmt::FunctionDef { decorators, type_params, parameters, return_type, body, .. } => {
            let e1 = exprs_nodes(decorators@);
            let e2 = e1 + exprs_nodes(type_params@);
            let e3 = e2 + parameters_nodes(parameters);
            let e4 = e3 + option_nodes(return_type);
            let q1 = |x: Expr| decorators@.contains(x);
            let q2 = |x: Expr| q1(x) || type_params@.contains(x);
            let q3 = |x: Expr| q2(x) || parameters_hold_expr(parameters, x);
            let q4 = |x: Expr| q3(x) || return_type == Some(x);
            lemma_exprs_grounded(decorators@);
            lemma_exprs_grounded(type_params@);
            lemma_parameters_grounded(parameters);
            lemma_option_grounded(return_type);
            lemma_stmts_grounded(body@);
            lemma_grounded_exprs_add(
                q1,
                e1,
                |x: Expr| type_params@.contains(x),
                exprs_nodes(type_params@),
                q2,
            );
            lemma_grounded_exprs_add(
                q2,
                e2,
                |x: Expr| parameters_hold_expr(parameters, x),
                parameters_nodes(parameters),
                q3,
            );
            lemma_grounded_exprs_add(
                q3,
                e3,
                |x: Expr| return_type == Some(x),
                option_nodes(return_type),
                q4,
            );
            lemma_grounded_add(
                |x: Stmt| false,
                q4,
                Seq::empty(),
                e4,
                |x: Stmt| body@.contains(x),
                |x: Expr| false,
                stmts_nodes(body@),
                stmts_exprs(body@),
                |x: Stmt| body@.contains(x),
                q4,
            );
            assert(Seq::<Stmt>::empty() + stmts_nodes(body@) =~= stmts_nodes(body@));
            assert(nested =~= stmts_nodes(body@));
            lemma_grounded_head(t, |x: Stmt| body@.contains(x), q4, nested, stmt_exprs(t));
        },
        Stmt::Expr { value, .. } => {
            lemma_expr_grounded(value);
            assert(nested =~= Seq::<Stmt>::empty());
            lemma_grounded_head(t, |x: Stmt| false, |x: Expr| x == value, nested, stmt_exprs(t));
        },
        Stmt::Other { parts, .. } => {
            lemma_parts_grounded(parts@);
            assert(nested =~= parts_stmts(parts@));
            lemma_grounded_head(
                t,
                |x: Stmt| parts@.contains(Node::Stmt(x)),
                |x: Expr| parts@.contains(Node::Expr(x)),
                nested,
                stmt_exprs(t),
            );
        },
    }
}

/// The nodes and the expressions of a run of statements are grounded in
/// the statements of the run.
proof fn lemma_stmts_grounded(ss: Seq<Stmt>)
    ensures
        grounded(|x: Stmt| ss.contains(x), |x: Expr| false, stmts_nodes(ss), stmts_exprs(ss)),
    decreases ss,
{
    if ss.len() > 0 {
        lemma_stmts_grounded(ss.drop_last());
        lemma_stmt_grounded(ss.last());
        assert(ss =~= ss.drop_last() + seq![ss.last()]);
        assert forall|x: Stmt| #[trigger]
            ss.contains(x) == (ss.drop_last().contains(x) || x == ss.last()) by {
            lemma_contains_add(ss.drop_last(), seq![ss.last()], x);
            lemma_contains_one(ss.last(), x);
        }
        lemma_grounded_add(
            |x: Stmt| ss.drop_last().contains(x),
            |x: Expr| false,
            stmts_nodes(ss.drop_last()),
            stmts_exprs(ss.drop_last()),
            |x: Stmt| x == ss.last(),
            |x: Expr| false,
            stmt_nodes(ss.last()),
            stmt_exprs(ss.last()),
            |x: Stmt| ss.contains(x),
            |x: Expr| false,
        );
    }
}

/// What the parts of a statement give is grounded in the statements and
/// the expressions among the parts.
proof fn lemma_parts_grounded(ns: Seq<Node>)
    ensures
        grounded(
            |x: Stmt| ns.contains(Node::Stmt(x)),
            |x: Expr| ns.contains(Node::Expr(x)),
            parts_stmts(ns),
            parts_exprs(ns),
        ),
    decreases ns,
{
    if ns.len() > 0 {
        let front = ns.drop_last();
        let last = ns.last();
        lemma_parts_grounded(front);
        assert(ns =~= front + seq![last]);
        assert forall|n: Node| #[trigger] ns.contains(n) == (front.contains(n) || n == last) by {
            lemma_contains_add(front, seq![last], n);
            lemma_contains_one(last, n);
        }
        match last {
            Node::Expr(e) => {
                lemma_expr_grounded(e);
                lemma_grounded_add(
                    |x: Stmt| front.contains(Node::Stmt(x)),
                    |x: Expr| front.contains(Node::Expr(x)),
                    parts_stmts(front),
                    parts_exprs(front),
                    |x: Stmt| false,
                    |x: Expr| x == e,
                    Seq::empty(),
                    expr_nodes(e),
                    |x: Stmt| ns.contains(Node::Stmt(x)),
                    |x: Expr| ns.contains(Node::Expr(x)),
                );
                assert(parts_stmts(front) + Seq::<Stmt>::empty() =~= parts_stmts(front));
                assert(part_stmts(last) =~= Seq::<Stmt>::empty());
                assert(part_exprs(last) == expr_nodes(e));
            },
            Node::Stmt(t) => {
                lemma_stmt_grounded(t);
                assert(part_stmts(last) == stmt_nodes(t));
                assert(part_exprs(last) == stmt_exprs(t));
                lemma_grounded_add(
                    |x: Stmt| front.contains(Node::Stmt(x)),
                    |x: Expr| front.contains(Node::Expr(x)),
                    parts_stmts(front),
                    parts_exprs(front),
                    |x: Stmt| x == t,
                    |x: Expr| false,
                    stmt_nodes(t),
                    stmt_exprs(t),
                    |x: Stmt| ns.contains(Node::Stmt(x)),
                    |x: Expr| ns.contains(Node::Expr(x)),
                );
            },
        }
    }
}

/// Nothing but the statements and expressions of a unit is in its
/// visiting order. A visited statement is a statement of the unit or
/// stands directly in a visited statement; a visited expression stands
/// directly in a visited statement or directly below a visited expression.
pub proof fn lemma_nothing_added(body: Seq<Stmt>)
    ensures
        forall|x: Stmt| #[trigger]
            stmts_nodes(body).contains(x) ==> body.contains(x) || exists|s: Stmt| #[trigger]
                stmts_nodes(body).contains(s) && stmt_holds_stmt(s, x),
        forall|e: Expr| #[trigger]
            stmts_exprs(body).contains(e) ==> (exists|s: Stmt| #[trigger]
                stmts_nodes(body).contains(s) && stmt_holds_expr(s, e)) || (exists|p: Expr|
                #[trigger] stmts_exprs(body).contains(p) && expr_holds_expr(p, e)),
{
    lemma_stmts_grounded(body);
    assert forall|x: Stmt| #[trigger] stmts_nodes(body).contains(x) implies body.contains(x)
        || exists|s: Stmt| #[trigger] stmts_nodes(body).contains(s) && stmt_holds_stmt(s, x) by {
        assert(stmt_has_place(x, |x: Stmt| body.contains(x), stmts_nodes(body)));
    }
    assert forall|e: Expr| #[trigger] stmts_exprs(body).contains(e) implies (exists|s: Stmt|
        #[trigger] stmts_nodes(body).contains(s) && stmt_holds_expr(s, e)) || (exists|p: Expr|
        #[trigger] stmts_exprs(body).contains(p) && expr_holds_expr(p, e)) by {
        assert(expr_has_place(e, |x: Expr| false, stmts_nodes(body), stmts_exprs(body)));
    }
}

} // verus!
