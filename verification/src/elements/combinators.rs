//! Sequence and alternation combinators.

use vstd::prelude::*;

use crate::context::ParseContext;
use crate::context::skip_ws;
use crate::engine::NodeRef;
use crate::engine::eval;
use crate::engine::fuel_of;
use crate::engine::probe;
use crate::exceptions::ParseException;
use crate::parser::ParseResult;
use crate::parser::ParserElement;
use crate::parser::ParserKind;
use crate::results::ParseResults;

use crate::elements::Expr;

verus! {

/// Ordered conjunction: every child must match in turn, each picking up
/// where the previous one ended; whitespace is skipped before a child when
/// both the context and the child allow it.
#[derive(Debug)]
pub struct And {
    pub elements: Vec<Expr>,
}

impl And {
    pub fn new(elements: Vec<Expr>) -> (r: And)
        ensures
            r.elements == elements,
    {
        And { elements }
    }

    pub fn elements(&self) -> (r: &Vec<Expr>)
        ensures
            r == &self.elements,
    {
        &self.elements
    }
}

/// Ordered disjunction: the first child to match wins; if all fail, the
/// last child's failure is reported.
#[derive(Debug)]
pub struct MatchFirst {
    pub elements: Vec<Expr>,
}

impl MatchFirst {
    pub fn new(elements: Vec<Expr>) -> (r: MatchFirst)
        ensures
            r.elements == elements,
    {
        MatchFirst { elements }
    }

    pub fn elements(&self) -> (r: &Vec<Expr>)
        ensures
            r == &self.elements,
    {
        &self.elements
    }
}

impl ParserElement for And {
    open spec fn as_expr(&self) -> Expr {
        Expr::And(*self)
    }

    fn parse_impl<'a>(&self, ctx: &mut ParseContext<'a>, loc: usize) -> ParseResult {
        let fuel = fuel_of(ctx.input());
        eval(ctx.rules_ref(), NodeRef::And(self), ctx.input(), ctx.skip_whitespace, loc, fuel)
    }

    fn try_match_at(&self, input: &str, loc: usize) -> Option<usize> {
        probe(None, NodeRef::And(self), input, true, loc, fuel_of(input))
    }

    fn parse_string(&self, input: &str) -> Result<ParseResults, ParseException> {
        let start = skip_ws(input, 0);
        match eval(None, NodeRef::And(self), input, true, start, fuel_of(input)) {
            Ok((_end, res)) => Ok(res),
            Err(e) => Err(e),
        }
    }

    fn parser_kind(&self) -> ParserKind {
        ParserKind::Complex
    }

    fn skip_whitespace_before(&self) -> bool {
        true
    }
}

impl ParserElement for MatchFirst {
    open spec fn as_expr(&self) -> Expr {
        Expr::MatchFirst(*self)
    }

    fn parse_impl<'a>(&self, ctx: &mut ParseContext<'a>, loc: usize) -> ParseResult {
        let fuel = fuel_of(ctx.input());
        eval(ctx.rules_ref(), NodeRef::MatchFirst(self), ctx.input(), ctx.skip_whitespace, loc, fuel)
    }

    fn try_match_at(&self, input: &str, loc: usize) -> Option<usize> {
        probe(None, NodeRef::MatchFirst(self), input, true, loc, fuel_of(input))
    }

    fn parse_string(&self, input: &str) -> Result<ParseResults, ParseException> {
        let start = skip_ws(input, 0);
        match eval(None, NodeRef::MatchFirst(self), input, true, start, fuel_of(input)) {
            Ok((_end, res)) => Ok(res),
            Err(e) => Err(e),
        }
    }

    fn parser_kind(&self) -> ParserKind {
        ParserKind::Complex
    }

    fn skip_whitespace_before(&self) -> bool {
        true
    }
}

impl And {

    /// Scan the whole input for matches of this sequence: probe at each
    /// position as a pre-filter, build results where the probe succeeds,
    /// and re-anchor at each match end.
    pub fn search_string(&self, input: &str) -> (r: Vec<ParseResults>)
        ensures
            ({
                let found = crate::semantics::spec_search(
                    Seq::<Option<Expr>>::empty(),
                    Expr::And(*self),
                    input@,
                    true,
                    0,
                    crate::semantics::fuel_for(input@),
                );
                r@.len() == found.len() && forall|i: int| #![trigger r@[i]]
                    0 <= i < r@.len() ==> r@[i]@.items == found[i] && r@[i]@.named.len() == 0
            }),
    {
        crate::engine::search_all(NodeRef::And(self), input)
    }
}

impl MatchFirst {

    /// Scan the whole input for matches of this alternation: probe at each
    /// position as a pre-filter, build results where the probe succeeds,
    /// and re-anchor at each match end.
    pub fn search_string(&self, input: &str) -> (r: Vec<ParseResults>)
        ensures
            ({
                let found = crate::semantics::spec_search(
                    Seq::<Option<Expr>>::empty(),
                    Expr::MatchFirst(*self),
                    input@,
                    true,
                    0,
                    crate::semantics::fuel_for(input@),
                );
                r@.len() == found.len() && forall|i: int| #![trigger r@[i]]
                    0 <= i < r@.len() ==> r@[i]@.items == found[i] && r@[i]@.named.len() == 0
            }),
    {
        crate::engine::search_all(NodeRef::MatchFirst(self), input)
    }
}

} // verus!
