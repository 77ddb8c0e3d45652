//! Static analysis of one unit of Python source text.
//!
//! The crate works on a syntax tree of its own ([`syntax`]) and extracts
//! from it the imported names, the signatures of the defined functions, the
//! names of the called functions, whether an ellipsis literal occurs, and
//! the byte ranges of the import statements. Every extraction is stated
//! over the sequence of the tree's nodes in visiting order and proved
//! against that statement.

pub mod analysis;
pub mod calls;
pub mod ellipsis;
pub mod functions;
pub mod imports;
pub mod laws;
pub mod origin;
pub mod reach;
pub mod seq_facts;
pub mod syntax;
pub mod text;

pub use analysis::{analyze, analyze_checked, AnalysisResult, ParseError, Parsed};
pub use calls::CalledNamesCollector;
pub use ellipsis::EllipsisFinder;
pub use functions::{
    check_signatures, docstring, get_type_str, parameter_with_default, parameters,
    FunctionDefinitionsCollector, PythonFunction, PythonFunctionArgument,
};
pub use imports::{ImportRangesVisitor, ImportedNamesCollector, PythonName};
pub use syntax::{Expr, Node, Parameter, ParameterWithDefault, Parameters, Stmt};
pub use text::{contains_range, slice, TextRange};
