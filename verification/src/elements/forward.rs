//! The deferred reference: a late-bound node enabling recursive and
//! forward-declared grammar rules.
//!
//! A [`Forward`] does not own its target; it names a slot of a [`Rules`]
//! table, and the slot is filled during the single-threaded grammar-assembly
//! phase, before parsing begins.  A grammar may reach itself through such a
//! slot, which is the only way the grammar graph can contain a cycle.

use vstd::prelude::*;

use crate::context::ParseContext;
use crate::context::skip_ws;
use crate::engine::NodeRef;
use crate::engine::eval;
use crate::engine::fuel_of;
use crate::engine::probe;
use crate::exceptions::ParseException;
use crate::parser::ParseResult;
use crate::parser::ParserElement;
use crate::parser::ParserKind;
use crate::results::ParseResults;

use crate::elements::Expr;

verus! {

/// The table of deferred-rule targets that [`Forward`] nodes refer into.
#[derive(Debug)]
pub struct Rules {
    slots: Vec<Option<Expr>>,
}

impl View for Rules {
    type V = Seq<Option<Expr>>;

    closed spec fn view(&self) -> Seq<Option<Expr>> {
        self.slots@
    }
}

impl Rules {
    /// An empty table.
    pub fn new() -> (r: Rules)
        ensures
            r@ == Seq::<Option<Expr>>::empty(),
    {
        Rules { slots: Vec::new() }
    }

    /// The number of slots.
    pub fn len(&self) -> (r: usize)
        ensures
            r == self@.len(),
    {
        self.slots.len()
    }

    /// The target bound to `slot`, if the slot exists and has been bound.
    pub fn get(&self, slot: usize) -> (r: Option<&Expr>)
        ensures
            match r {
                Some(e) => slot < self@.len() && self@[slot as int] == Some(*e),
                None => slot >= self@.len() || self@[slot as int] is None,
            },
    {
        if slot < self.slots.len() {
            match &self.slots[slot] {
                Some(e) => Some(e),
                None => None,
            }
        } else {
            None
        }
    }
}

/// A placeholder node whose target is installed after construction,
/// enabling self-referential grammars.  Matching an unbound `Forward` fails
/// with a configuration-error diagnostic.
#[derive(Debug, Clone, Copy)]
pub struct Forward {
    pub slot: usize,
}

impl Forward {
    /// Reserve a fresh, unbound slot in `rules`.
    pub fn new(rules: &mut Rules) -> (r: Forward)
        ensures
            final(rules)@ == old(rules)@.push(None),
            r.slot == old(rules)@.len(),
    {
        let slot = rules.slots.len();
        rules.slots.push(None);
        Forward { slot }
    }

    /// Install the target this node defers to.  Intended to be called
    /// exactly once, during grammar assembly and before any parse.
    pub fn set(&self, rules: &mut Rules, target: Expr)
        requires
            self.slot < old(rules)@.len(),
        ensures
            final(rules)@ == old(rules)@.update(self.slot as int, Some(target)),
    {
        rules.slots.set(self.slot, Some(target));
    }
}

impl ParserElement for Forward {
    open spec fn as_expr(&self) -> Expr {
        Expr::Forward(*self)
    }

    fn parse_impl<'a>(&self, ctx: &mut ParseContext<'a>, loc: usize) -> ParseResult {
        let fuel = fuel_of(ctx.input());
        eval(ctx.rules_ref(), NodeRef::Forward(self), ctx.input(), ctx.skip_whitespace, loc, fuel)
    }

    fn try_match_at(&self, input: &str, loc: usize) -> Option<usize> {
        probe(None, NodeRef::Forward(self), input, true, loc, fuel_of(input))
    }

    fn parse_string(&self, input: &str) -> Result<ParseResults, ParseException> {
        let start = skip_ws(input, 0);
        match eval(None, NodeRef::Forward(self), input, true, start, fuel_of(input)) {
            Ok((_end, res)) => Ok(res),
            Err(e) => Err(e),
        }
    }

    fn parser_kind(&self) -> ParserKind {
        ParserKind::Complex
    }

    fn skip_whitespace_before(&self) -> bool {
        true
    }
}

} // verus!
