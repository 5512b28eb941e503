//! The boundary to the external Python grammar: parsing source text into
//! the ordered top-level statement list that discovery filters.
use vstd::prelude::*;

verus! {

/// A top-level statement as discovery sees it: a function definition,
/// carrying its name, or any other statement.
#[derive(Debug)]
pub enum TopStmt {
    Def(String),
    Other,
}

impl View for TopStmt {
    type V = Option<Seq<char>>;

    open spec fn view(&self) -> Option<Seq<char>> {
        match self {
            TopStmt::Def(name) => Some(name@),
            TopStmt::Other => None,
        }
    }
}

#[verifier::external_type_specification]
#[verifier::external_body]
pub struct ExParseError(ruff_python_parser::ParseError);

/// What parsing a module yields: nothing for source text the grammar
/// rejects, else the ordered top-level statements, each either a function
/// definition's name or an unnamed other statement. Parsing is a function
/// of the source text alone.
pub uninterp spec fn parse_of(src: Seq<char>) -> Option<Seq<Option<Seq<char>>>>;

/// Source text that does not conform to the target language's grammar,
/// wrapping the parser's own error value.
#[derive(Debug)]
pub struct ParseFailure {
    pub cause: ruff_python_parser::ParseError,
}

/// Relies on ruff_python_parser::parse_module: whether source text parses
/// as a module, and the ordered top-level statements it holds, depend on the
/// text alone; a ruff_python_ast::Stmt::FunctionDef statement carries the
/// definition's name.
#[verifier::external_body]
pub(crate) fn parse_top_level(src: &str) -> (r: Result<
    Vec<TopStmt>,
    ruff_python_parser::ParseError,
>)
    ensures
        r is Ok <==> parse_of(src@) is Some,
        r matches Ok(v) ==> parse_of(src@) == Some(v@.map_values(|s: TopStmt| s@)),
{
    match ruff_python_parser::parse_module(src) {
        Ok(parsed) => Ok(parsed
            .into_suite()
            .into_iter()
            .map(|stmt| match stmt {
                ruff_python_ast::Stmt::FunctionDef(f) => TopStmt::Def(f.name.to_string()),
                _ => TopStmt::Other,
            })
            .collect()),
        Err(e) => Err(e),
    }
}

} // verus!
