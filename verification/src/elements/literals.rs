//! Leaf matchers for fixed text: exact literals and boundary-checked
//! keywords.

use vstd::prelude::*;

use crate::context::ParseContext;
use crate::context::skip_ws;
use crate::engine::NodeRef;
use crate::engine::eval;
use crate::engine::fuel_of;
use crate::engine::probe;
use crate::exceptions::ParseException;
use crate::parser::ParseResult;
use crate::parser::ParserElement;
use crate::parser::ParserKind;
use crate::results::ParseResults;
use crate::elements::Expr;

verus! {

/// Match an exact string at the current offset.
///
/// Fails if the remaining buffer is shorter than the text or any character
/// differs; an empty text always matches and consumes nothing.
#[derive(Debug)]
pub struct Literal {
    pub match_string: String,
}

impl Literal {
    pub fn new(s: &str) -> (r: Literal)
        ensures
            r.match_string@ == s@,
    {
        Literal { match_string: s.to_owned() }
    }
}

/// Match an exact string, then require a word boundary: the character after
/// the match, if any, must not be an identifier character (ASCII letters,
/// digits, underscore).  Prevents "ifx" from matching the keyword "if".
#[derive(Debug)]
pub struct Keyword {
    pub match_string: String,
}

impl Keyword {
    pub fn new(s: &str) -> (r: Keyword)
        ensures
            r.match_string@ == s@,
    {
        Keyword { match_string: s.to_owned() }
    }
}

impl ParserElement for Literal {
    open spec fn as_expr(&self) -> Expr {
        Expr::Literal(*self)
    }

    fn parse_impl<'a>(&self, ctx: &mut ParseContext<'a>, loc: usize) -> ParseResult {
        let fuel = fuel_of(ctx.input());
        eval(ctx.rules_ref(), NodeRef::Literal(self), ctx.input(), ctx.skip_whitespace, loc, fuel)
    }

    fn try_match_at(&self, input: &str, loc: usize) -> Option<usize> {
        probe(None, NodeRef::Literal(self), input, true, loc, fuel_of(input))
    }

    fn parse_string(&self, input: &str) -> Result<ParseResults, ParseException> {
        let start = skip_ws(input, 0);
        match eval(None, NodeRef::Literal(self), input, true, start, fuel_of(input)) {
            Ok((_end, res)) => Ok(res),
            Err(e) => Err(e),
        }
    }

    fn parser_kind(&self) -> ParserKind {
        ParserKind::Normal
    }

    fn skip_whitespace_before(&self) -> bool {
        true
    }
}

impl ParserElement for Keyword {
    open spec fn as_expr(&self) -> Expr {
        Expr::Keyword(*self)
    }

    fn parse_impl<'a>(&self, ctx: &mut ParseContext<'a>, loc: usize) -> ParseResult {
        let fuel = fuel_of(ctx.input());
        eval(ctx.rules_ref(), NodeRef::Keyword(self), ctx.input(), ctx.skip_whitespace, loc, fuel)
    }

    fn try_match_at(&self, input: &str, loc: usize) -> Option<usize> {
        probe(None, NodeRef::Keyword(self), input, true, loc, fuel_of(input))
    }

    fn parse_string(&self, input: &str) -> Result<ParseResults, ParseException> {
        let start = skip_ws(input, 0);
        match eval(None, NodeRef::Keyword(self), input, true, start, fuel_of(input)) {
            Ok((_end, res)) => Ok(res),
            Err(e) => Err(e),
        }
    }

    fn parser_kind(&self) -> ParserKind {
        ParserKind::Normal
    }

    fn skip_whitespace_before(&self) -> bool {
        true
    }
}

} // verus!
