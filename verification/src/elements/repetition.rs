//! The repetition family: zero-or-more, one-or-more, optional, and exact
//! counts.
//!
//! The loops treat "new offset equals old offset" as zero-width progress:
//! zero-or-more and one-or-more stop there instead of looping forever, and
//! an exact count treats it as a failure, since the count could not
//! otherwise be met meaningfully.

use vstd::prelude::*;

use crate::context::ParseContext;
use crate::context::skip_ws;
use crate::engine::NodeRef;
use crate::engine::eval;
use crate::engine::fuel_of;
use crate::engine::probe;
use crate::exceptions::ParseException;
use crate::parser::ParseResult;
use crate::parser::ParserElement;
use crate::parser::ParserKind;
use crate::results::ParseResults;

use crate::elements::Expr;

verus! {

/// Match the inner node zero or more times; never fails.
#[derive(Debug)]
pub struct ZeroOrMore {
    pub element: Box<Expr>,
}

impl ZeroOrMore {
    pub fn new(element: Expr) -> (r: ZeroOrMore)
        ensures
            *r.element == element,
    {
        ZeroOrMore { element: Box::new(element) }
    }
}

/// Match the inner node one or more times; fails if no iteration succeeds.
#[derive(Debug)]
pub struct OneOrMore {
    pub element: Box<Expr>,
}

impl OneOrMore {
    pub fn new(element: Expr) -> (r: OneOrMore)
        ensures
            *r.element == element,
    {
        OneOrMore { element: Box::new(element) }
    }
}

/// Try the inner node once; on failure, succeed at the original offset with
/// empty results.
#[derive(Debug)]
pub struct Optional {
    pub element: Box<Expr>,
}

impl Optional {
    pub fn new(element: Expr) -> (r: Optional)
        ensures
            *r.element == element,
    {
        Optional { element: Box::new(element) }
    }
}

/// Require exactly `count` consecutive matches of the inner node.
#[derive(Debug)]
pub struct Exactly {
    pub element: Box<Expr>,
    pub count: usize,
}

impl Exactly {
    pub fn new(element: Expr, count: usize) -> (r: Exactly)
        ensures
            *r.element == element,
            r.count == count,
    {
        Exactly { element: Box::new(element), count }
    }
}

impl ParserElement for ZeroOrMore {
    open spec fn as_expr(&self) -> Expr {
        Expr::ZeroOrMore(*self)
    }

    fn parse_impl<'a>(&self, ctx: &mut ParseContext<'a>, loc: usize) -> ParseResult {
        let fuel = fuel_of(ctx.input());
        eval(ctx.rules_ref(), NodeRef::ZeroOrMore(self), ctx.input(), ctx.skip_whitespace, loc, fuel)
    }

    fn try_match_at(&self, input: &str, loc: usize) -> Option<usize> {
        probe(None, NodeRef::ZeroOrMore(self), input, true, loc, fuel_of(input))
    }

    fn parse_string(&self, input: &str) -> Result<ParseResults, ParseException> {
        let start = skip_ws(input, 0);
        match eval(None, NodeRef::ZeroOrMore(self), input, true, start, fuel_of(input)) {
            Ok((_end, res)) => Ok(res),
            Err(e) => Err(e),
        }
    }

    fn parser_kind(&self) -> ParserKind {
        ParserKind::Complex
    }

    fn skip_whitespace_before(&self) -> bool {
        true
    }
}

impl ParserElement for OneOrMore {
    open spec fn as_expr(&self) -> Expr {
        Expr::OneOrMore(*self)
    }

    fn parse_impl<'a>(&self, ctx: &mut ParseContext<'a>, loc: usize) -> ParseResult {
        let fuel = fuel_of(ctx.input());
        eval(ctx.rules_ref(), NodeRef::OneOrMore(self), ctx.input(), ctx.skip_whitespace, loc, fuel)
    }

    fn try_match_at(&self, input: &str, loc: usize) -> Option<usize> {
        probe(None, NodeRef::OneOrMore(self), input, true, loc, fuel_of(input))
    }

    fn parse_string(&self, input: &str) -> Result<ParseResults, ParseException> {
        let start = skip_ws(input, 0);
        match eval(None, NodeRef::OneOrMore(self), input, true, start, fuel_of(input)) {
            Ok((_end, res)) => Ok(res),
            Err(e) => Err(e),
        }
    }

    fn parser_kind(&self) -> ParserKind {
        ParserKind::Complex
    }

    fn skip_whitespace_before(&self) -> bool {
        true
    }
}

impl ParserElement for Optional {
    open spec fn as_expr(&self) -> Expr {
        Expr::Optional(*self)
    }

    fn parse_impl<'a>(&self, ctx: &mut ParseContext<'a>, loc: usize) -> ParseResult {
        let fuel = fuel_of(ctx.input());
        eval(ctx.rules_ref(), NodeRef::Optional(self), ctx.input(), ctx.skip_whitespace, loc, fuel)
    }

    fn try_match_at(&self, input: &str, loc: usize) -> Option<usize> {
        probe(None, NodeRef::Optional(self), input, true, loc, fuel_of(input))
    }

    fn parse_string(&self, input: &str) -> Result<ParseResults, ParseException> {
        let start = skip_ws(input, 0);
        match eval(None, NodeRef::Optional(self), input, true, start, fuel_of(input)) {
            Ok((_end, res)) => Ok(res),
            Err(e) => Err(e),
        }
    }

    fn parser_kind(&self) -> ParserKind {
        ParserKind::Complex
    }

    fn skip_whitespace_before(&self) -> bool {
        true
    }
}

impl ParserElement for Exactly {
    open spec fn as_expr(&self) -> Expr {
        Expr::Exactly(*self)
    }

    fn parse_impl<'a>(&self, ctx: &mut ParseContext<'a>, loc: usize) -> ParseResult {
        let fuel = fuel_of(ctx.input());
        eval(ctx.rules_ref(), NodeRef::Exactly(self), ctx.input(), ctx.skip_whitespace, loc, fuel)
    }

    fn try_match_at(&self, input: &str, loc: usize) -> Option<usize> {
        probe(None, NodeRef::Exactly(self), input, true, loc, fuel_of(input))
    }

    fn parse_string(&self, input: &str) -> Result<ParseResults, ParseException> {
        let start = skip_ws(input, 0);
        match eval(None, NodeRef::Exactly(self), input, true, start, fuel_of(input)) {
            Ok((_end, res)) => Ok(res),
            Err(e) => Err(e),
        }
    }

    fn parser_kind(&self) -> ParserKind {
        ParserKind::Complex
    }

    fn skip_whitespace_before(&self) -> bool {
        true
    }
}

} // verus!
