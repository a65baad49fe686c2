//! The capability every grammar node offers: a full match that builds
//! results, an allocation-free match probe, a classification tag that tells
//! a parent how to fold this node's output, and the whitespace-skip-before
//! flag.

use vstd::prelude::*;

use crate::context::ParseContext;
use crate::context::spec_skip_ws;
use crate::elements::Expr;
use crate::exceptions::ParseException;
use crate::engine::outcome_matches;
use crate::results::ParseResults;
use crate::semantics::Outcome;
use crate::semantics::fuel_for;
use crate::semantics::spec_parse;
use crate::semantics::spec_probe;
use crate::semantics::spec_skip_before;

verus! {

/// The result of a full-match attempt: the new offset with the accumulated
/// results, or a location-tagged failure.
pub type ParseResult = Result<(usize, ParseResults), ParseException>;

/// How a parent combinator should fold this node's results.
#[derive(Debug, Clone, Copy, PartialEq, Eq, Structural)]
pub enum ParserKind {
    /// Produces zero or more tokens from its own span.
    Normal,
    /// Matches but contributes nothing to the parent's results.
    Suppress,
    /// Wraps its inner results one level deeper.
    Group,
    /// May produce a variable number of tokens; parents must compose it via
    /// the full match rather than naive concatenation.
    Complex,
}

/// The classification tag of each grammar node.
pub open spec fn spec_kind(e: Expr) -> ParserKind {
    match e {
        Expr::Literal(_) => ParserKind::Normal,
        Expr::Keyword(_) => ParserKind::Normal,
        Expr::Word(_) => ParserKind::Normal,
        Expr::Regex(_) => ParserKind::Normal,
        Expr::And(_) => ParserKind::Complex,
        Expr::MatchFirst(_) => ParserKind::Complex,
        Expr::ZeroOrMore(_) => ParserKind::Complex,
        Expr::OneOrMore(_) => ParserKind::Complex,
        Expr::Optional(_) => ParserKind::Complex,
        Expr::Exactly(_) => ParserKind::Complex,
        Expr::Group(_) => ParserKind::Group,
        Expr::Suppress(_) => ParserKind::Suppress,
        Expr::Combine(_) => ParserKind::Normal,
        Expr::SkipTo(_) => ParserKind::Normal,
        Expr::Empty(_) => ParserKind::Normal,
        Expr::NoMatch(_) => ParserKind::Normal,
        Expr::Forward(_) => ParserKind::Complex,
    }
}

/// The uniform contract of every grammar node.
///
/// All entry points are proved equal to the specification interpreter
/// [`spec_parse`] applied to the node this element stands for.
pub trait ParserElement {
    /// The grammar node this element stands for.
    spec fn as_expr(&self) -> Expr;

    /// Attempt a full match at `loc`, producing the new offset and the
    /// accumulated results, or a failure.  The context is handed back
    /// unchanged, whatever the outcome.
    fn parse_impl<'a>(&self, ctx: &mut ParseContext<'a>, loc: usize) -> (r: ParseResult)
        requires
            loc <= old(ctx).spec_input().len(),
        ensures
            *final(ctx) == *old(ctx),
            outcome_matches(
                r,
                spec_parse(
                    old(ctx).spec_rules(),
                    self.as_expr(),
                    old(ctx).spec_input(),
                    old(ctx).skip_whitespace,
                    loc as int,
                    fuel_for(old(ctx).spec_input()),
                ),
            ),
    ;

    /// Report only whether and where a match would end, without building
    /// result data.  The probe runs without a deferred-rule table, as a
    /// fresh context would.
    fn try_match_at(&self, input: &str, loc: usize) -> (r: Option<usize>)
        requires
            loc <= input@.len(),
        ensures
            match r {
                Some(end) => Some(end as int) == spec_probe(
                    Seq::<Option<Expr>>::empty(),
                    self.as_expr(),
                    input@,
                    true,
                    loc as int,
                    fuel_for(input@),
                ) && loc <= end <= input@.len(),
                None => spec_probe(
                    Seq::<Option<Expr>>::empty(),
                    self.as_expr(),
                    input@,
                    true,
                    loc as int,
                    fuel_for(input@),
                ) is None,
            },
    ;

    /// Parse from the beginning of `input`, skipping leading whitespace,
    /// and hand back the results alone.
    fn parse_string(&self, input: &str) -> (r: Result<ParseResults, ParseException>)
        ensures
            ({
                let start = spec_skip_ws(input@, 0);
                match spec_parse(
                    Seq::<Option<Expr>>::empty(),
                    self.as_expr(),
                    input@,
                    true,
                    start,
                    fuel_for(input@),
                ) {
                    Outcome::Matched { items, .. } => r matches Ok(res) && res@.items == items
                        && res@.named.len() == 0,
                    Outcome::Failed { at, msg } => r matches Err(ex) && ex.loc == at && ex.msg@
                        == msg,
                }
            }),
    ;

    /// How a parent combinator should fold this node's results.
    fn parser_kind(&self) -> (k: ParserKind)
        ensures
            k == spec_kind(self.as_expr()),
    ;

    /// Whether whitespace should be skipped before this node runs.
    fn skip_whitespace_before(&self) -> (b: bool)
        ensures
            b == spec_skip_before(self.as_expr()),
    ;
}

} // verus!
