//! What holds of every analysis.

use crate::analysis::{analysis, AnalysisResult, ParseErrorView};
use crate::calls::callee_of;
use crate::functions::{
    argument_of, arguments_of, function_of, group_arguments_of, variadic_argument_of,
};
use crate::imports::import_range_of;
use crate::syntax::{stmts_exprs, stmts_nodes, Expr, ParameterWithDefault, Parameters, Stmt};
use crate::text::text_at;
use vstd::prelude::*;

verus! {

/// The analysis depends on nothing but the text, the statements and the
/// syntax errors: two results for the same three hold the same.
pub proof fn lemma_analysis_repeatable(
    first: AnalysisResult,
    second: AnalysisResult,
    source: Seq<char>,
    body: Seq<Stmt>,
    errors: Seq<ParseErrorView>,
)
    requires
        first.deep_view() == analysis(source, body, errors),
        second.deep_view() == analysis(source, body, errors),
    ensures
        first.deep_view() == second.deep_view(),
{
}

/// An ellipsis literal is reported exactly when one of the unit's
/// expressions, at whatever depth, is the literal.
pub proof fn lemma_ellipsis_reported(
    source: Seq<char>,
    body: Seq<Stmt>,
    errors: Seq<ParseErrorView>,
)
    ensures
        analysis(source, body, errors).has_ellipsis <==> exists|i: int|
            0 <= i < stmts_exprs(body).len() && #[trigger] stmts_exprs(body)[i] is EllipsisLiteral,
{
}

/// The syntax errors are reported as they came, so a unit that was parsed
/// without any is reported without any.
pub proof fn lemma_errors_handed_on(
    source: Seq<char>,
    body: Seq<Stmt>,
    errors: Seq<ParseErrorView>,
)
    ensures
        analysis(source, body, errors).parse_errors == errors,
        errors.len() == 0 ==> analysis(source, body, errors).parse_errors.len() == 0,
{
}

/// The entries of a signature stand in the order positional, variadic,
/// keyword-only, each group as declared. Only the variadic entry is marked
/// as such, and it has no default.
pub proof fn lemma_arguments_order(ast_params: Parameters, source: Seq<char>)
    ensures
        ({
            let entries = arguments_of(ast_params, source);
            let positional = ast_params.args@.len() as int;
            let variadic: int = if ast_params.vararg is Some { 1 } else { 0 };
            &&& entries.len() == positional + variadic + ast_params.kwonlyargs@.len()
            &&& entries.subrange(0, positional) == group_arguments_of(ast_params.args@, source)
            &&& ast_params.vararg matches Some(arg) ==> entries[positional]
                == variadic_argument_of(arg, source)
            &&& entries.subrange(positional + variadic, entries.len() as int)
                == group_arguments_of(ast_params.kwonlyargs@, source)
            &&& forall|i: int|
                0 <= i < entries.len() ==> ((#[trigger] entries[i]).variable_length <==> (
                ast_params.vararg is Some && i == positional))
            &&& forall|i: int|
                0 <= i < entries.len() && (#[trigger] entries[i]).variable_length
                    ==> entries[i].default is None
        }),
{
    let entries = arguments_of(ast_params, source);
    let positional = ast_params.args@.len() as int;
    let variadic: int = if ast_params.vararg is Some { 1 } else { 0 };
    assert(entries.subrange(0, positional) =~= group_arguments_of(ast_params.args@, source));
    assert(entries.subrange(positional + variadic, entries.len() as int) =~= group_arguments_of(
        ast_params.kwonlyargs@,
        source,
    ));
}

/// The entry of a positional or keyword-only parameter carries the
/// parameter's name; as type the text that the range of its annotation
/// covers, or nothing where it has none; and a default, the text that the
/// range of the default covers, exactly where the parameter has one.
pub proof fn lemma_entry_of_parameter(param: ParameterWithDefault, source: Seq<char>)
    ensures
        argument_of(param, source).name == param.parameter.name@,
        argument_of(param, source).type_str == match param.parameter.annotation {
            Some(annotation) => text_at(source, annotation.range()),
            None => Seq::empty(),
        },
        argument_of(param, source).default == match param.default {
            Some(default) => Some(text_at(source, default.range())),
            None => None,
        },
        !argument_of(param, source).variable_length,
{
}

/// The signature of a function definition carries the definition's name;
/// as return type the text that the range of its return annotation covers,
/// or nothing where it has none; and as docstring the value of a string
/// literal that is the first statement of its body, or nothing where the
/// body does not begin with one.
pub proof fn lemma_signature_of_definition(s: Stmt, source: Seq<char>)
    requires
        s is FunctionDef,
    ensures
        function_of(s, source).len() == 1,
        function_of(s, source)[0].name == s->name@,
        function_of(s, source)[0].args == arguments_of(s->parameters, source),
        function_of(s, source)[0].return_type_str == match s->return_type {
            Some(annotation) => text_at(source, annotation.range()),
            None => Seq::empty(),
        },
        function_of(s, source)[0].docstring == if s->body@.len() > 0 {
            match s->body@[0] {
                Stmt::Expr { value: Expr::StringLiteral { value, .. }, .. } => value@,
                _ => Seq::empty(),
            }
        } else {
            Seq::empty()
        },
{
}

/// What the passes over the tree alone find does not depend on the text or
/// on the syntax errors, and no pass depends on what another finds.
pub proof fn lemma_passes_independent(
    source: Seq<char>,
    errors: Seq<ParseErrorView>,
    other_source: Seq<char>,
    other_errors: Seq<ParseErrorView>,
    body: Seq<Stmt>,
)
    ensures
        analysis(source, body, errors).imported_names == analysis(
            other_source,
            body,
            other_errors,
        ).imported_names,
        analysis(source, body, errors).import_ranges == analysis(
            other_source,
            body,
            other_errors,
        ).import_ranges,
        analysis(source, body, errors).called_names == analysis(
            other_source,
            body,
            other_errors,
        ).called_names,
        analysis(source, body, errors).has_ellipsis == analysis(
            other_source,
            body,
            other_errors,
        ).has_ellipsis,
        analysis(source, body, errors).defined_functions == analysis(
            source,
            body,
            other_errors,
        ).defined_functions,
{
}

/// Where `f` gives one entry for the elements that meet `keep` and none
/// for the others, it gives as many entries as elements meet `keep`.
proof fn lemma_flat_map_counts<A, B>(
    s: Seq<A>,
    f: spec_fn(A) -> Seq<B>,
    keep: spec_fn(A) -> bool,
)
    requires
        forall|a: A| #[trigger] f(a).len() == (if keep(a) { 1nat } else { 0nat }),
    ensures
        s.flat_map(f).len() == s.filter(keep).len(),
    decreases s.len(),
{
    if s.len() == 0 {
        assert(s.flat_map(f) =~= Seq::<B>::empty());
        assert(s.filter(keep) =~= Seq::<A>::empty());
    } else {
        lemma_flat_map_counts(s.drop_last(), f, keep);
        s.drop_last().lemma_flat_map_push(f, s.last());
        s.drop_last().lemma_filter_push(s.last(), keep);
        assert(s.drop_last().push(s.last()) =~= s);
    }
}

/// A call whose callee is a bare identifier.
pub open spec fn is_named_call(e: Expr) -> bool {
    e matches Expr::Call { func, .. } && *func is Name
}

/// An import that names its module.
pub open spec fn is_module_import(s: Stmt) -> bool {
    s matches Stmt::ImportFrom { module, .. } && module is Some
}

/// As many names are recorded as the unit holds call expressions whose
/// callee is a bare identifier.
pub proof fn lemma_called_names_count(
    source: Seq<char>,
    body: Seq<Stmt>,
    errors: Seq<ParseErrorView>,
)
    ensures
        analysis(source, body, errors).called_names.len() == stmts_exprs(body).filter(
            |e: Expr| is_named_call(e),
        ).len(),
{
    lemma_flat_map_counts(stmts_exprs(body), |e: Expr| callee_of(e), |e: Expr| is_named_call(e));
}

/// As many import ranges are recorded as the unit holds imports that name
/// their module, however many names each of them imports.
pub proof fn lemma_import_ranges_count(
    source: Seq<char>,
    body: Seq<Stmt>,
    errors: Seq<ParseErrorView>,
)
    ensures
        analysis(source, body, errors).import_ranges.len() == stmts_nodes(body).filter(
            |s: Stmt| is_module_import(s),
        ).len(),
{
    lemma_flat_map_counts(
        stmts_nodes(body),
        |s: Stmt| import_range_of(s),
        |s: Stmt| is_module_import(s),
    );
}

/// As many signatures are recorded as the unit holds function definitions,
/// nested ones included.
pub proof fn lemma_defined_functions_count(
    source: Seq<char>,
    body: Seq<Stmt>,
    errors: Seq<ParseErrorView>,
)
    ensures
        analysis(source, body, errors).defined_functions.len() == stmts_nodes(body).filter(
            |s: Stmt| s is FunctionDef,
        ).len(),
{
    lemma_flat_map_counts(
        stmts_nodes(body),
        |s: Stmt| function_of(s, source),
        |s: Stmt| s is FunctionDef,
    );
}

} // verus!
