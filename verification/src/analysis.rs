//! The analysis of one unit: every extraction run over the same tree, and
//! the syntax errors that came with it.

use crate::calls::{called_names_in, CalledNamesCollector};
use crate::ellipsis::{contains_ellipsis, EllipsisFinder};
use crate::functions::{
    check_signatures, defined_functions_in, signatures_in_text, FunctionDefinitionsCollector,
    PythonFunction, PythonFunctionView,
};
use crate::imports::{
    import_ranges_in, imported_names_in, ImportRangesVisitor, ImportedNamesCollector, PythonName,
    PythonNameView,
};
use crate::syntax::{stmts_exprs, stmts_nodes, Stmt};
use vstd::prelude::*;

verus! {

/// A syntax error that the parser recovered from: what it says, and the
/// bytes of the text that it is about (the end exclusive).
#[derive(Debug, PartialEq, Eq)]
pub struct ParseError {
    pub message: String,
    pub location: (u32, u32),
}

impl Clone for ParseError {
    fn clone(&self) -> (copy: Self)
        ensures
            copy == *self,
    {
        ParseError { message: self.message.clone(), location: (self.location.0, self.location.1) }
    }
}

/// What a [`ParseError`] holds, the message as a sequence of characters.
pub struct ParseErrorView {
    pub message: Seq<char>,
    pub location: (u32, u32),
}

impl DeepView for ParseError {
    type V = ParseErrorView;

    open spec fn deep_view(&self) -> ParseErrorView {
        ParseErrorView { message: self.message@, location: self.location }
    }
}

/// What a parser made of a text: the statements of the module, as far as
/// they could be read, and the syntax errors in the order they were found.
#[derive(Debug, PartialEq, Eq)]
pub struct Parsed {
    pub body: Vec<Stmt>,
    pub errors: Vec<ParseError>,
}

/// Everything the analysis finds in one unit.
#[derive(Clone, Debug, PartialEq, Eq)]
pub struct AnalysisResult {
    pub imported_names: Vec<PythonName>,
    pub defined_functions: Vec<PythonFunction>,
    pub called_names: Vec<String>,
    pub has_ellipsis: bool,
    pub import_ranges: Vec<(u32, u32)>,
    pub parse_errors: Vec<ParseError>,
}

/// What an [`AnalysisResult`] holds, as sequences.
pub struct AnalysisResultView {
    pub imported_names: Seq<PythonNameView>,
    pub defined_functions: Seq<PythonFunctionView>,
    pub called_names: Seq<Seq<char>>,
    pub has_ellipsis: bool,
    pub import_ranges: Seq<(u32, u32)>,
    pub parse_errors: Seq<ParseErrorView>,
}

impl DeepView for AnalysisResult {
    type V = AnalysisResultView;

    open spec fn deep_view(&self) -> AnalysisResultView {
        AnalysisResultView {
            imported_names: self.imported_names.deep_view(),
            defined_functions: self.defined_functions.deep_view(),
            called_names: self.called_names.deep_view(),
            has_ellipsis: self.has_ellipsis,
            import_ranges: self.import_ranges@,
            parse_errors: self.parse_errors.deep_view(),
        }
    }
}

/// The analysis of a unit with the text `source`, the statements `body` and
/// the syntax errors `errors`. The statement passes read every statement at
/// any depth, the expression passes every expression at any depth, both in
/// visiting order; the errors are handed on as they came.
pub open spec fn analysis(
    source: Seq<char>,
    body: Seq<Stmt>,
    errors: Seq<ParseErrorView>,
) -> AnalysisResultView {
    AnalysisResultView {
        imported_names: imported_names_in(stmts_nodes(body)),
        defined_functions: defined_functions_in(stmts_nodes(body), source),
        called_names: called_names_in(stmts_exprs(body)),
        has_ellipsis: contains_ellipsis(stmts_exprs(body)),
        import_ranges: import_ranges_in(stmts_nodes(body)),
        parse_errors: errors,
    }
}

/// Analyses one unit: `python_source` is its text and `parsed` what the
/// parser made of that text. The ranges of the annotations and defaults in
/// the signatures must lie in the text, as those of a tree parsed from it
/// do.
pub fn analyze(python_source: &str, parsed: Parsed) -> (result: AnalysisResult)
    requires
        signatures_in_text(stmts_nodes(parsed.body@), python_source@),
    ensures
        result.deep_view() == analysis(python_source@, parsed.body@, parsed.errors.deep_view()),
{
    let stmts = parsed.body;
    let parse_errors = parsed.errors;
    let imported_names = {
        let mut collector = ImportedNamesCollector { names: Vec::new() };
        collector.visit_body(&stmts);
        collector.names
    };
    let defined_functions = {
        let mut collector = FunctionDefinitionsCollector {
            functions: Vec::new(),
            source: python_source.to_owned(),
        };
        collector.visit_body(&stmts);
        collector.functions
    };
    let called_names = {
        let mut collector = CalledNamesCollector { names: Vec::new() };
        collector.visit_body(&stmts);
        collector.names
    };
    let has_ellipsis = {
        let mut finder = EllipsisFinder { found: false };
        finder.visit_body(&stmts);
        finder.found
    };
    let import_ranges = {
        let mut visitor = ImportRangesVisitor { ranges: Vec::new() };
        visitor.visit_body(&stmts);
        visitor.ranges
    };
    let result = AnalysisResult {
        imported_names,
        defined_functions,
        called_names,
        has_ellipsis,
        import_ranges,
        parse_errors,
    };
    proof {
        let expected = analysis(python_source@, stmts@, parse_errors.deep_view());
        assert(result.imported_names.deep_view() =~= expected.imported_names);
        assert(result.defined_functions.deep_view() =~= expected.defined_functions);
        assert(result.called_names.deep_view() =~= expected.called_names);
        assert(result.import_ranges@ =~= expected.import_ranges);
    }
    result
}

/// Analyses one unit where the ranges of its signatures lie in the text,
/// and gives nothing where one does not.
pub fn analyze_checked(python_source: &str, parsed: Parsed) -> (result: Option<AnalysisResult>)
    ensures
        result is Some == signatures_in_text(stmts_nodes(parsed.body@), python_source@),
        result matches Some(found) ==> found.deep_view() == analysis(
            python_source@,
            parsed.body@,
            parsed.errors.deep_view(),
        ),
{
    if check_signatures(&parsed.body, python_source) {
        Some(analyze(python_source, parsed))
    } else {
        None
    }
}

} // verus!
