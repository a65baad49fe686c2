//! The parse context: the input buffer, the whitespace-skip flag, and the
//! deferred-rule table shared by one parse invocation.
//!
//! The context carries no parse position: positions are threaded explicitly
//! through every call, counted in Unicode scalar values of the input.

use vstd::prelude::*;
use vstd::string::StrSliceExecFns;

use crate::elements::Expr;
use crate::elements::forward::Rules;

verus! {

/// A whitespace character for the skipping discipline: space, tab, newline
/// or carriage return.
pub open spec fn is_ws_char(c: char) -> bool {
    c == ' ' || c == '\t' || c == '\n' || c == '\r'
}

/// The first position at or after `loc` that does not hold a whitespace
/// character.
pub open spec fn spec_skip_ws(input: Seq<char>, loc: int) -> int
    decreases input.len() - loc,
{
    if 0 <= loc < input.len() && is_ws_char(input[loc]) {
        spec_skip_ws(input, loc + 1)
    } else {
        loc
    }
}

/// Skipping whitespace never moves backwards and never leaves the buffer.
pub proof fn lemma_skip_ws_bounds(input: Seq<char>, loc: int)
    requires
        0 <= loc <= input.len(),
    ensures
        loc <= spec_skip_ws(input, loc) <= input.len(),
    decreases input.len() - loc,
{
    if loc < input.len() && is_ws_char(input[loc]) {
        lemma_skip_ws_bounds(input, loc + 1);
    }
}

/// Skip whitespace characters starting at `loc`; returns the position of
/// the first non-whitespace character.
pub fn skip_ws(input: &str, loc: usize) -> (r: usize)
    requires
        loc <= input@.len(),
    ensures
        r == spec_skip_ws(input@, loc as int),
        loc <= r <= input@.len(),
{
    let l = input.unicode_len();
    let mut pos = loc;
    while pos < l && is_ws_at(input, pos)
        invariant
            loc <= pos <= l,
            l == input@.len(),
            spec_skip_ws(input@, loc as int) == spec_skip_ws(input@, pos as int),
        decreases l - pos,
    {
        pos = pos + 1;
    }
    pos
}

/// Whether the character at `pos` is whitespace.
fn is_ws_at(input: &str, pos: usize) -> (r: bool)
    requires
        pos < input@.len(),
    ensures
        r == is_ws_char(input@[pos as int]),
{
    let c = input.get_char(pos);
    c == ' ' || c == '\t' || c == '\n' || c == '\r'
}

/// Context for one parse invocation: the input buffer, whether combinators
/// skip whitespace before a child (default true; set false inside
/// `Combine`), and the deferred-rule table, if any.
pub struct ParseContext<'a> {
    pub input: &'a str,
    pub skip_whitespace: bool,
    pub rules: Option<&'a Rules>,
}

/// The bound deferred rules a context carries; an absent table reads as an
/// empty one.
pub open spec fn spec_rules_of(rules: Option<&Rules>) -> Seq<Option<Expr>> {
    match rules {
        Some(r) => r@,
        None => Seq::empty(),
    }
}

impl<'a> ParseContext<'a> {
    /// The input buffer, as the sequence of its characters.
    pub open spec fn spec_input(&self) -> Seq<char> {
        self.input@
    }

    /// The deferred-rule table the context carries.
    pub open spec fn spec_rules(&self) -> Seq<Option<Expr>> {
        spec_rules_of(self.rules)
    }

    /// A context over `input` with no deferred rules.
    pub fn new(input: &'a str) -> (r: ParseContext<'a>)
        ensures
            r.spec_input() == input@,
            r.skip_whitespace == true,
            r.spec_rules() == Seq::<Option<Expr>>::empty(),
    {
        ParseContext { input, skip_whitespace: true, rules: None }
    }

    /// A context over `input` that resolves deferred references through
    /// `rules`.
    pub fn with_rules(input: &'a str, rules: &'a Rules) -> (r: ParseContext<'a>)
        ensures
            r.spec_input() == input@,
            r.skip_whitespace == true,
            r.spec_rules() == rules@,
    {
        ParseContext { input, skip_whitespace: true, rules: Some(rules) }
    }

    /// The input buffer.
    pub fn input(&self) -> (r: &'a str)
        ensures
            r@ == self.spec_input(),
    {
        self.input
    }

    /// The deferred-rule table, for the evaluator.
    pub(crate) fn rules_ref(&self) -> (r: Option<&'a Rules>)
        ensures
            spec_rules_of(r) == self.spec_rules(),
    {
        self.rules
    }
}

} // verus!
