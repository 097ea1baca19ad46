//! The pipeline: lexer, parser and type pass, one after the other.

use vstd::prelude::*;
use crate::analysis::{PropsSemanticAnalyzer, PropsTypeChecker};
use crate::error::{error_views, ParserErr, ParserErrView};
use crate::grammar::{parse_all, Cursor};
use crate::lexer::{fits_columns, lexed};
use crate::nodes::{node_views, AstNode, AstNodeView};
use crate::parser::PropsParser;
use crate::text::lines_of;
use crate::types::typer::{extends, lemma_typed_from_appends, typed_from, PropsTyper};
use crate::types::{TypeEnvironment, TypeView};

verus! {

/// A parser with the type environment that its programs fill, and the
/// passes that run over what it parses.
pub struct PropsPipeline {
    parser: PropsParser,
    type_environment: TypeEnvironment,
    typer: PropsTyper,
    checker: PropsTypeChecker,
}

/// The cursor at the start of the tokens of a source text.
pub open spec fn start_of(source: Seq<char>) -> Cursor {
    Cursor { tokens: lexed(source), line: 0, ws_delim: false, in_parenth: false }
}

/// The statements of a source text.
pub open spec fn statements_of(source: Seq<char>) -> Seq<AstNodeView> {
    parse_all(start_of(source), seq![], seq![]).0
}

/// The diagnostics of a source text: those of the parser, then those of
/// the type pass, each in the order of the statements. The type checker
/// adds none.
pub open spec fn diagnostics_of(source: Seq<char>) -> Seq<ParserErrView> {
    typed_from(
        statements_of(source),
        0,
        Map::empty(),
        parse_all(start_of(source), seq![], seq![]).1,
    ).1
}

/// The types that the assignments of a source text give to its names.
pub open spec fn environment_of(source: Seq<char>) -> Map<Seq<char>, TypeView> {
    typed_from(
        statements_of(source),
        0,
        Map::empty(),
        parse_all(start_of(source), seq![], seq![]).1,
    ).0
}

/// The diagnostics of the parser come first among the diagnostics of a
/// source text, in their order.
pub proof fn lemma_parser_diagnostics_first(source: Seq<char>)
    ensures
        extends(diagnostics_of(source), parse_all(start_of(source), seq![], seq![]).1),
{
    lemma_typed_from_appends(
        statements_of(source),
        0,
        Map::empty(),
        parse_all(start_of(source), seq![], seq![]).1,
    );
}

impl PropsPipeline {
    /// The types of the names of the program that was parsed last.
    pub closed spec fn environment(&self) -> Map<Seq<char>, TypeView> {
        self.type_environment@
    }

    /// The lines of the source text that was parsed last.
    pub closed spec fn source_lines(&self) -> Seq<Seq<char>> {
        self.parser.source_lines()
    }

    /// A pipeline around `parser`, with an empty type environment.
    pub fn new(parser: PropsParser) -> (pipeline: PropsPipeline)
        ensures
            pipeline.environment() == Map::<Seq<char>, TypeView>::empty(),
            pipeline.source_lines() == parser.source_lines(),
    {
        let type_env = TypeEnvironment::new();
        PropsPipeline {
            parser,
            typer: PropsTyper,
            checker: PropsTypeChecker,
            type_environment: type_env,
        }
    }

    /// Lexes, parses, types and checks a source text. The type environment
    /// is emptied first, so it holds the names of this text only.
    pub fn parse(&mut self, source: String) -> (r: (Vec<AstNode>, Vec<ParserErr>))
        requires
            fits_columns(source@),
        ensures
            node_views(r.0@) == statements_of(source@),
            error_views(r.1@) == diagnostics_of(source@),
            final(self).environment() == environment_of(source@),
            final(self).source_lines() == lines_of(source@),
    {
        self.parser.init(source);
        self.type_environment.clear();
        let (ast, errs) = self.parser.parse();
        let mut diagnostics = errs;
        self.typer.process(&ast, &mut self.type_environment, &mut diagnostics);
        let mut found = self.checker.analyze(&ast);
        let ghost typed = diagnostics@;
        diagnostics.append(&mut found);
        assert(diagnostics@ =~= typed);
        (ast, diagnostics)
    }

    /// The type environment as the last program left it.
    pub fn type_environment(&self) -> (env: &TypeEnvironment)
        ensures
            env@ == self.environment(),
    {
        &self.type_environment
    }

    /// The lines of the source text that was parsed last.
    pub fn source(&self) -> (lines: &Vec<String>)
        ensures
            crate::text::texts_of(lines@) == self.source_lines(),
    {
        self.parser.source()
    }
}

impl Default for PropsPipeline {
    fn default() -> (pipeline: PropsPipeline)
        ensures
            pipeline.environment() == Map::<Seq<char>, TypeView>::empty(),
    {
        PropsPipeline::new(PropsParser::new())
    }
}

} // verus!
