//! The grammar-node catalog: leaf matchers, combinators, the repetition
//! family, structural modifiers, and the deferred reference.
//!
//! A grammar is a tree of [`Expr`] values; recursive grammars close the loop
//! through [`forward::Forward`], which names a slot of a [`forward::Rules`]
//! table instead of holding its target directly.

use vstd::prelude::*;

use crate::context::ParseContext;
use crate::context::skip_ws;
use crate::engine::NodeRef;
use crate::engine::eval;
use crate::engine::fuel_of;
use crate::engine::probe;
use crate::exceptions::ParseException;
use crate::parser::ParseResult;
use crate::parser::ParserElement;
use crate::parser::ParserKind;
use crate::results::ParseResults;

pub mod chars;
pub mod combinators;
pub mod forward;
pub mod literals;
pub mod repetition;
pub mod structure;

use crate::elements::chars::RegexMatch;
use crate::elements::chars::Word;
use crate::elements::combinators::And;
use crate::elements::combinators::MatchFirst;
use crate::elements::forward::Forward;
use crate::elements::literals::Keyword;
use crate::elements::literals::Literal;
use crate::elements::repetition::Exactly;
use crate::elements::repetition::OneOrMore;
use crate::elements::repetition::Optional;
use crate::elements::repetition::ZeroOrMore;
use crate::elements::structure::Combine;
use crate::elements::structure::Empty;
use crate::elements::structure::Group;
use crate::elements::structure::NoMatch;
use crate::elements::structure::SkipTo;
use crate::elements::structure::Suppress;

verus! {

/// A grammar node: the closed set of primitives and combinators.
#[derive(Debug)]
pub enum Expr {
    Literal(Literal),
    Keyword(Keyword),
    Word(Word),
    Regex(RegexMatch),
    And(And),
    MatchFirst(MatchFirst),
    ZeroOrMore(ZeroOrMore),
    OneOrMore(OneOrMore),
    Optional(Optional),
    Exactly(Exactly),
    Group(Group),
    Suppress(Suppress),
    Combine(Combine),
    SkipTo(SkipTo),
    Empty(Empty),
    NoMatch(NoMatch),
    Forward(Forward),
}

impl ParserElement for Expr {
    open spec fn as_expr(&self) -> Expr {
        *self
    }

    fn parse_impl<'a>(&self, ctx: &mut ParseContext<'a>, loc: usize) -> ParseResult {
        let fuel = fuel_of(ctx.input());
        eval(ctx.rules_ref(), crate::engine::expr_ref(self), ctx.input(), ctx.skip_whitespace, loc, fuel)
    }

    fn try_match_at(&self, input: &str, loc: usize) -> Option<usize> {
        probe(None, crate::engine::expr_ref(self), input, true, loc, fuel_of(input))
    }

    fn parse_string(&self, input: &str) -> Result<ParseResults, ParseException> {
        let start = skip_ws(input, 0);
        match eval(None, crate::engine::expr_ref(self), input, true, start, fuel_of(input)) {
            Ok((_end, res)) => Ok(res),
            Err(e) => Err(e),
        }
    }

    fn parser_kind(&self) -> ParserKind {
        match self {
            Expr::Literal(_) => ParserKind::Normal,
            Expr::Keyword(_) => ParserKind::Normal,
            Expr::Word(_) => ParserKind::Normal,
            Expr::Regex(_) => ParserKind::Normal,
            Expr::And(_) => ParserKind::Complex,
            Expr::MatchFirst(_) => ParserKind::Complex,
            Expr::ZeroOrMore(_) => ParserKind::Complex,
            Expr::OneOrMore(_) => ParserKind::Complex,
            Expr::Optional(_) => ParserKind::Complex,
            Expr::Exactly(_) => ParserKind::Complex,
            Expr::Group(_) => ParserKind::Group,
            Expr::Suppress(_) => ParserKind::Suppress,
            Expr::Combine(_) => ParserKind::Normal,
            Expr::SkipTo(_) => ParserKind::Normal,
            Expr::Empty(_) => ParserKind::Normal,
            Expr::NoMatch(_) => ParserKind::Normal,
            Expr::Forward(_) => ParserKind::Complex,
        }
    }

    fn skip_whitespace_before(&self) -> bool {
        true
    }
}

} // verus!
