//! Structural modifiers: grouping, suppression, token fusion, forward
//! scanning, and the trivial always/never matchers.

use vstd::prelude::*;

use crate::context::ParseContext;
use crate::context::skip_ws;
use crate::engine::NodeRef;
use crate::engine::eval;
use crate::engine::fuel_of;
use crate::engine::probe;
use crate::exceptions::ParseException;
use crate::parser::ParseResult;
use crate::parser::ParserElement;
use crate::parser::ParserKind;
use crate::results::ParseResults;

use crate::elements::Expr;

verus! {

/// Always matches at the current offset, consuming nothing and producing no
/// tokens.
#[derive(Debug)]
pub struct Empty;

/// Never matches, regardless of offset or buffer content.
#[derive(Debug)]
pub struct NoMatch;

/// Scan forward one position at a time, probing the target at each
/// candidate; the first position where the target matches becomes the match
/// end, and the skipped text (possibly empty) is the emitted token.
#[derive(Debug)]
pub struct SkipTo {
    pub target: Box<Expr>,
}

impl SkipTo {
    pub fn new(target: Expr) -> (r: SkipTo)
        ensures
            *r.target == target,
    {
        SkipTo { target: Box::new(target) }
    }
}

/// Delegate to the inner node and wrap its results as a single nested group
/// item rather than splicing them into the parent's sequence.
#[derive(Debug)]
pub struct Group {
    pub element: Box<Expr>,
}

impl Group {
    pub fn new(element: Expr) -> (r: Group)
        ensures
            *r.element == element,
    {
        Group { element: Box::new(element) }
    }
}

/// Match via the inner node's probe only; on success, contribute no tokens.
#[derive(Debug)]
pub struct Suppress {
    pub element: Box<Expr>,
}

impl Suppress {
    pub fn new(element: Expr) -> (r: Suppress)
        ensures
            *r.element == element,
    {
        Suppress { element: Box::new(element) }
    }
}

/// Disable whitespace skipping for the inner node's match, then discard its
/// structured results and emit a single token: the exact consumed substring
/// of the buffer.
#[derive(Debug)]
pub struct Combine {
    pub element: Box<Expr>,
}

impl Combine {
    pub fn new(element: Expr) -> (r: Combine)
        ensures
            *r.element == element,
    {
        Combine { element: Box::new(element) }
    }
}

impl ParserElement for Empty {
    open spec fn as_expr(&self) -> Expr {
        Expr::Empty(*self)
    }

    fn parse_impl<'a>(&self, ctx: &mut ParseContext<'a>, loc: usize) -> ParseResult {
        let fuel = fuel_of(ctx.input());
        eval(ctx.rules_ref(), NodeRef::Empty(self), ctx.input(), ctx.skip_whitespace, loc, fuel)
    }

    fn try_match_at(&self, input: &str, loc: usize) -> Option<usize> {
        probe(None, NodeRef::Empty(self), input, true, loc, fuel_of(input))
    }

    fn parse_string(&self, input: &str) -> Result<ParseResults, ParseException> {
        let start = skip_ws(input, 0);
        match eval(None, NodeRef::Empty(self), input, true, start, fuel_of(input)) {
            Ok((_end, res)) => Ok(res),
            Err(e) => Err(e),
        }
    }

    fn parser_kind(&self) -> ParserKind {
        ParserKind::Normal
    }

    fn skip_whitespace_before(&self) -> bool {
        true
    }
}

impl ParserElement for NoMatch {
    open spec fn as_expr(&self) -> Expr {
        Expr::NoMatch(*self)
    }

    fn parse_impl<'a>(&self, ctx: &mut ParseContext<'a>, loc: usize) -> ParseResult {
        let fuel = fuel_of(ctx.input());
        eval(ctx.rules_ref(), NodeRef::NoMatch(self), ctx.input(), ctx.skip_whitespace, loc, fuel)
    }

    fn try_match_at(&self, input: &str, loc: usize) -> Option<usize> {
        probe(None, NodeRef::NoMatch(self), input, true, loc, fuel_of(input))
    }

    fn parse_string(&self, input: &str) -> Result<ParseResults, ParseException> {
        let start = skip_ws(input, 0);
        match eval(None, NodeRef::NoMatch(self), input, true, start, fuel_of(input)) {
            Ok((_end, res)) => Ok(res),
            Err(e) => Err(e),
        }
    }

    fn parser_kind(&self) -> ParserKind {
        ParserKind::Normal
    }

    fn skip_whitespace_before(&self) -> bool {
        true
    }
}

impl ParserElement for SkipTo {
    open spec fn as_expr(&self) -> Expr {
        Expr::SkipTo(*self)
    }

    fn parse_impl<'a>(&self, ctx: &mut ParseContext<'a>, loc: usize) -> ParseResult {
        let fuel = fuel_of(ctx.input());
        eval(ctx.rules_ref(), NodeRef::SkipTo(self), ctx.input(), ctx.skip_whitespace, loc, fuel)
    }

    fn try_match_at(&self, input: &str, loc: usize) -> Option<usize> {
        probe(None, NodeRef::SkipTo(self), input, true, loc, fuel_of(input))
    }

    fn parse_string(&self, input: &str) -> Result<ParseResults, ParseException> {
        let start = skip_ws(input, 0);
        match eval(None, NodeRef::SkipTo(self), input, true, start, fuel_of(input)) {
            Ok((_end, res)) => Ok(res),
            Err(e) => Err(e),
        }
    }

    fn parser_kind(&self) -> ParserKind {
        ParserKind::Normal
    }

    fn skip_whitespace_before(&self) -> bool {
        true
    }
}

impl ParserElement for Group {
    open spec fn as_expr(&self) -> Expr {
        Expr::Group(*self)
    }

    fn parse_impl<'a>(&self, ctx: &mut ParseContext<'a>, loc: usize) -> ParseResult {
        let fuel = fuel_of(ctx.input());
        eval(ctx.rules_ref(), NodeRef::Group(self), ctx.input(), ctx.skip_whitespace, loc, fuel)
    }

    fn try_match_at(&self, input: &str, loc: usize) -> Option<usize> {
        probe(None, NodeRef::Group(self), input, true, loc, fuel_of(input))
    }

    fn parse_string(&self, input: &str) -> Result<ParseResults, ParseException> {
        let start = skip_ws(input, 0);
        match eval(None, NodeRef::Group(self), input, true, start, fuel_of(input)) {
            Ok((_end, res)) => Ok(res),
            Err(e) => Err(e),
        }
    }

    fn parser_kind(&self) -> ParserKind {
        ParserKind::Group
    }

    fn skip_whitespace_before(&self) -> bool {
        true
    }
}

impl ParserElement for Suppress {
    open spec fn as_expr(&self) -> Expr {
        Expr::Suppress(*self)
    }

    fn parse_impl<'a>(&self, ctx: &mut ParseContext<'a>, loc: usize) -> ParseResult {
        let fuel = fuel_of(ctx.input());
        eval(ctx.rules_ref(), NodeRef::Suppress(self), ctx.input(), ctx.skip_whitespace, loc, fuel)
    }

    fn try_match_at(&self, input: &str, loc: usize) -> Option<usize> {
        probe(None, NodeRef::Suppress(self), input, true, loc, fuel_of(input))
    }

    fn parse_string(&self, input: &str) -> Result<ParseResults, ParseException> {
        let start = skip_ws(input, 0);
        match eval(None, NodeRef::Suppress(self), input, true, start, fuel_of(input)) {
            Ok((_end, res)) => Ok(res),
            Err(e) => Err(e),
        }
    }

    fn parser_kind(&self) -> ParserKind {
        ParserKind::Suppress
    }

    fn skip_whitespace_before(&self) -> bool {
        true
    }
}

impl ParserElement for Combine {
    open spec fn as_expr(&self) -> Expr {
        Expr::Combine(*self)
    }

    fn parse_impl<'a>(&self, ctx: &mut ParseContext<'a>, loc: usize) -> ParseResult {
        let fuel = fuel_of(ctx.input());
        eval(ctx.rules_ref(), NodeRef::Combine(self), ctx.input(), ctx.skip_whitespace, loc, fuel)
    }

    fn try_match_at(&self, input: &str, loc: usize) -> Option<usize> {
        probe(None, NodeRef::Combine(self), input, true, loc, fuel_of(input))
    }

    fn parse_string(&self, input: &str) -> Result<ParseResults, ParseException> {
        let start = skip_ws(input, 0);
        match eval(None, NodeRef::Combine(self), input, true, start, fuel_of(input)) {
            Ok((_end, res)) => Ok(res),
            Err(e) => Err(e),
        }
    }

    fn parser_kind(&self) -> ParserKind {
        ParserKind::Normal
    }

    fn skip_whitespace_before(&self) -> bool {
        true
    }
}

} // verus!
