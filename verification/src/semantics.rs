//! The meaning of a grammar: a recursive interpreter over the input's
//! character sequence, stated entirely in specification land.
//!
//! Every executable entry point of the crate is proved equal to
//! [`spec_parse`].  The interpreter is total: repetition stops at zero-width
//! progress, forward scanning is bounded by the buffer, and deferred
//! references consume fuel so that a cyclic grammar fails with a
//! recursion-limit diagnostic instead of descending forever.

use vstd::prelude::*;

use crate::context::is_ws_char;
use crate::context::spec_skip_ws;
use crate::elements::Expr;
use crate::elements::chars::regex_first_match;
use crate::elements::chars::regex_pattern_ok;
use crate::results::SpecItem;

verus! {

/// What one match attempt comes to: a new offset with the accumulated
/// items, or a failure at an offset with an expectation message.
pub enum Outcome {
    Matched { end: int, items: Seq<SpecItem> },
    Failed { at: int, msg: Seq<char> },
}

/// Prefix the items of a successful outcome; failures pass through.
pub open spec fn with_prefix(items: Seq<SpecItem>, o: Outcome) -> Outcome {
    match o {
        Outcome::Matched { end, items: rest } => Outcome::Matched { end, items: items + rest },
        Outcome::Failed { .. } => o,
    }
}

/// An identifier character for keyword boundaries: ASCII letters, digits,
/// underscore.
pub open spec fn is_ident_char(c: char) -> bool {
    ('A' <= c && c <= 'Z') || ('a' <= c && c <= 'z') || ('0' <= c && c <= '9') || c == '_'
}

/// Diagnostic for a literal that did not match.
pub open spec fn msg_expected_literal(text: Seq<char>) -> Seq<char> {
    "Expected '"@ + text + "'"@
}

/// Diagnostic for a keyword that did not match.
pub open spec fn msg_expected_keyword(text: Seq<char>) -> Seq<char> {
    "Expected keyword '"@ + text + "'"@
}

/// Diagnostic for a word that did not match, under the word's display name.
pub open spec fn msg_expected_word(name: Seq<char>) -> Seq<char> {
    "Expected "@ + name
}

/// Diagnostic for a regular expression that did not match.
pub open spec fn msg_expected_regex(pattern: Seq<char>) -> Seq<char> {
    "Expected match for /"@ + pattern + "/"@
}

/// Diagnostic when one-or-more saw no successful iteration.
pub open spec fn msg_one_or_more() -> Seq<char> {
    "Expected at least one match"@
}

/// Diagnostic when an exact count met a zero-width match.
pub open spec fn msg_exactly_zero_width() -> Seq<char> {
    "Exactly: zero-width match"@
}

/// Diagnostic of the never-matching node.
pub open spec fn msg_no_match() -> Seq<char> {
    "NoMatch will never match"@
}

/// Diagnostic when an alternation has no branches at all.
pub open spec fn msg_no_alternative() -> Seq<char> {
    "No match found"@
}

/// Diagnostic when a suppressed node did not match.
pub open spec fn msg_suppress() -> Seq<char> {
    "Suppress: no match"@
}

/// Diagnostic when forward scanning ran off the end of the buffer.
pub open spec fn msg_skip_to() -> Seq<char> {
    "SkipTo: target not found"@
}

/// Diagnostic for a deferred reference that was never bound.
pub open spec fn msg_forward_unset() -> Seq<char> {
    "Forward not initialized"@
}

/// Diagnostic when the recursion budget of deferred references ran out.
pub open spec fn msg_recursion_limit() -> Seq<char> {
    "Forward recursion limit reached"@
}

/// The recursion budget a parse of `input` starts with: one deferred-rule
/// expansion per character, plus one.
pub open spec fn fuel_for(input: Seq<char>) -> nat {
    if input.len() < usize::MAX {
        input.len() + 1
    } else {
        input.len()
    }
}

/// Positions left in the buffer from `loc` on, clamped to zero outside the
/// buffer; a termination measure for loops that advance through the input.
pub open spec fn rem(input: Seq<char>, loc: int) -> int {
    if 0 <= loc <= input.len() {
        input.len() + 1 - loc
    } else {
        0
    }
}

/// The end of the greedy character run of a word: starting at `pos` with
/// `count` characters already taken, extend while the next character is in
/// the body set and the maximum length (0 = unlimited) is not exceeded.
pub open spec fn word_scan(
    body: Seq<char>,
    max_len: int,
    input: Seq<char>,
    pos: int,
    count: int,
) -> int
    decreases input.len() - pos,
{
    if pos < input.len() && body.contains(input[pos]) && (max_len == 0 || count + 1 <= max_len) {
        word_scan(body, max_len, input, pos + 1, count + 1)
    } else {
        pos
    }
}

/// Whether whitespace is skipped before this node runs.  Every node of this
/// catalog reports true; the hook exists for extensions that consume
/// leading whitespace themselves.
pub open spec fn spec_skip_before(e: Expr) -> bool {
    true
}

/// The canonical full-match semantics of a grammar node at offset `loc` of
/// `input`, with whitespace skipping per `skip` and deferred references
/// resolved through `rules` under a budget of `fuel` expansions.
pub open spec fn spec_parse(
    rules: Seq<Option<Expr>>,
    e: Expr,
    input: Seq<char>,
    skip: bool,
    loc: int,
    fuel: nat,
) -> Outcome
    decreases fuel, e, 0int,
{
    match e {
        Expr::Literal(l) => {
            let text = l.match_string@;
            if 0 <= loc && loc + text.len() <= input.len() && input.subrange(
                loc,
                loc + text.len(),
            ) == text {
                Outcome::Matched { end: loc + text.len(), items: seq![SpecItem::Token(text)] }
            } else {
                Outcome::Failed { at: loc, msg: msg_expected_literal(text) }
            }
        },
        Expr::Keyword(k) => {
            let text = k.match_string@;
            let end = loc + text.len();
            if 0 <= loc && end <= input.len() && input.subrange(loc, end) == text && (end
                < input.len() ==> !is_ident_char(input[end])) {
                Outcome::Matched { end, items: seq![SpecItem::Token(text)] }
            } else {
                Outcome::Failed { at: loc, msg: msg_expected_keyword(text) }
            }
        },
        Expr::Word(w) => {
            if !(0 <= loc < input.len()) {
                Outcome::Failed { at: loc, msg: msg_expected_word(w.name@) }
            } else if !w.init_chars@.contains(input[loc]) {
                Outcome::Failed { at: loc, msg: msg_expected_word(w.name@) }
            } else {
                let end = word_scan(w.body_chars@, w.max_len as int, input, loc + 1, 1);
                if end - loc < w.min_len {
                    Outcome::Failed { at: loc, msg: msg_expected_word(w.name@) }
                } else {
                    Outcome::Matched {
                        end,
                        items: seq![SpecItem::Token(input.subrange(loc, end))],
                    }
                }
            }
        },
        Expr::Regex(r) => {
            if !(0 <= loc <= input.len()) || !regex_pattern_ok(r.anchored@) {
                Outcome::Failed { at: loc, msg: msg_expected_regex(r.pattern_str@) }
            } else {
                match regex_first_match(r.anchored@, input.subrange(loc, input.len() as int)) {
                    Some(m) => if loc + m.len() <= input.len() {
                        Outcome::Matched { end: loc + m.len(), items: seq![SpecItem::Token(m)] }
                    } else {
                        Outcome::Failed { at: loc, msg: msg_expected_regex(r.pattern_str@) }
                    },
                    None => Outcome::Failed { at: loc, msg: msg_expected_regex(r.pattern_str@) },
                }
            }
        },
        Expr::And(a) => spec_parse_seq(rules, a.elements@, input, skip, 0, loc, fuel),
        Expr::MatchFirst(m) => spec_parse_first(rules, m.elements@, input, skip, 0, loc, fuel),
        Expr::ZeroOrMore(z) => spec_parse_star(rules, *z.element, input, skip, loc, fuel),
        Expr::OneOrMore(o) => {
            match spec_parse(rules, *o.element, input, skip, loc, fuel) {
                Outcome::Failed { .. } => Outcome::Failed { at: loc, msg: msg_one_or_more() },
                Outcome::Matched { end, items } => {
                    if loc < end <= input.len() {
                        with_prefix(
                            items,
                            spec_parse_star(rules, *o.element, input, skip, end, fuel),
                        )
                    } else {
                        Outcome::Failed { at: loc, msg: msg_one_or_more() }
                    }
                },
            }
        },
        Expr::Optional(o) => {
            match spec_parse(rules, *o.element, input, skip, loc, fuel) {
                Outcome::Matched { end, items } => Outcome::Matched { end, items },
                Outcome::Failed { .. } => Outcome::Matched {
                    end: loc,
                    items: Seq::empty(),
                },
            }
        },
        Expr::Exactly(x) => spec_parse_exactly(
            rules,
            *x.element,
            input,
            skip,
            loc,
            x.count as int,
            fuel,
        ),
        Expr::Group(g) => {
            match spec_parse(rules, *g.element, input, skip, loc, fuel) {
                Outcome::Matched { end, items } => Outcome::Matched {
                    end,
                    items: seq![SpecItem::Group(items)],
                },
                Outcome::Failed { at, msg } => Outcome::Failed { at, msg },
            }
        },
        Expr::Suppress(s) => {
            match spec_parse(rules, *s.element, input, skip, loc, fuel) {
                Outcome::Matched { end, .. } => Outcome::Matched { end, items: Seq::empty() },
                Outcome::Failed { .. } => Outcome::Failed { at: loc, msg: msg_suppress() },
            }
        },
        Expr::Combine(c) => {
            match spec_parse(rules, *c.element, input, false, loc, fuel) {
                Outcome::Matched { end, .. } => {
                    if 0 <= loc <= end <= input.len() {
                        Outcome::Matched {
                            end,
                            items: seq![SpecItem::Token(input.subrange(loc, end))],
                        }
                    } else {
                        // a match never ends outside the buffer; see the
                        // progress law
                        Outcome::Failed { at: loc, msg: Seq::empty() }
                    }
                },
                Outcome::Failed { at, msg } => Outcome::Failed { at, msg },
            }
        },
        Expr::SkipTo(s) => spec_parse_skip_to(rules, *s.target, input, skip, loc, loc, fuel),
        Expr::Empty(_) => Outcome::Matched { end: loc, items: Seq::empty() },
        Expr::NoMatch(_) => Outcome::Failed { at: loc, msg: msg_no_match() },
        Expr::Forward(f) => {
            if f.slot < rules.len() {
                match rules[f.slot as int] {
                    Some(target) => {
                        if fuel == 0 {
                            Outcome::Failed { at: loc, msg: msg_recursion_limit() }
                        } else {
                            spec_parse(rules, target, input, skip, loc, (fuel - 1) as nat)
                        }
                    },
                    None => Outcome::Failed { at: loc, msg: msg_forward_unset() },
                }
            } else {
                Outcome::Failed { at: loc, msg: msg_forward_unset() }
            }
        },
    }
}

/// Sequence semantics: match the children of an `And` from index `i` on,
/// each at the offset the previous one reached, skipping whitespace before
/// a child when both the context and the child allow it.  The first failure
/// is surfaced verbatim.
pub open spec fn spec_parse_seq(
    rules: Seq<Option<Expr>>,
    elems: Seq<Expr>,
    input: Seq<char>,
    skip: bool,
    i: int,
    loc: int,
    fuel: nat,
) -> Outcome
    decreases fuel, elems, elems.len() - i,
{
    if !(0 <= i < elems.len()) {
        Outcome::Matched { end: loc, items: Seq::empty() }
    } else {
        let at = if skip && spec_skip_before(elems[i]) {
            spec_skip_ws(input, loc)
        } else {
            loc
        };
        match spec_parse(rules, elems[i], input, skip, at, fuel) {
            Outcome::Failed { at: fat, msg } => Outcome::Failed { at: fat, msg },
            Outcome::Matched { end, items } => with_prefix(
                items,
                spec_parse_seq(rules, elems, input, skip, i + 1, end, fuel),
            ),
        }
    }
}

/// Alternation semantics: try the children of a `MatchFirst` from index `i`
/// on, in declaration order at the unchanged offset; the first success
/// wins, and if every branch fails, the last branch's failure is reported.
pub open spec fn spec_parse_first(
    rules: Seq<Option<Expr>>,
    elems: Seq<Expr>,
    input: Seq<char>,
    skip: bool,
    i: int,
    loc: int,
    fuel: nat,
) -> Outcome
    decreases fuel, elems, elems.len() - i,
{
    if !(0 <= i < elems.len()) {
        Outcome::Failed { at: loc, msg: msg_no_alternative() }
    } else {
        match spec_parse(rules, elems[i], input, skip, loc, fuel) {
            Outcome::Matched { end, items } => Outcome::Matched { end, items },
            Outcome::Failed { at, msg } => {
                if i + 1 < elems.len() {
                    spec_parse_first(rules, elems, input, skip, i + 1, loc, fuel)
                } else {
                    Outcome::Failed { at, msg }
                }
            },
        }
    }
}

/// Zero-or-more semantics: repeat the inner node while it succeeds and
/// advances, folding items in match order; never fails.  A successful match
/// that consumes nothing ends the loop, which is what guarantees
/// termination on zero-width matches.
pub open spec fn spec_parse_star(
    rules: Seq<Option<Expr>>,
    inner: Expr,
    input: Seq<char>,
    skip: bool,
    loc: int,
    fuel: nat,
) -> Outcome
    decreases fuel, inner, rem(input, loc),
{
    if !(0 <= loc <= input.len()) {
        Outcome::Matched { end: loc, items: Seq::empty() }
    } else {
        match spec_parse(rules, inner, input, skip, loc, fuel) {
            Outcome::Failed { .. } => Outcome::Matched { end: loc, items: Seq::empty() },
            Outcome::Matched { end, items } => {
                if loc < end <= input.len() {
                    with_prefix(items, spec_parse_star(rules, inner, input, skip, end, fuel))
                } else {
                    Outcome::Matched { end: loc, items: Seq::empty() }
                }
            },
        }
    }
}

/// Exact-count semantics: `n` more consecutive matches of the inner node
/// are required; a failure propagates verbatim, and a zero-width match
/// aborts with a failure, since the count could not otherwise be met
/// meaningfully.
pub open spec fn spec_parse_exactly(
    rules: Seq<Option<Expr>>,
    inner: Expr,
    input: Seq<char>,
    skip: bool,
    loc: int,
    n: int,
    fuel: nat,
) -> Outcome
    decreases fuel, inner, n,
{
    if n <= 0 {
        Outcome::Matched { end: loc, items: Seq::empty() }
    } else {
        match spec_parse(rules, inner, input, skip, loc, fuel) {
            Outcome::Failed { at, msg } => Outcome::Failed { at, msg },
            Outcome::Matched { end, items } => {
                if loc < end <= input.len() {
                    with_prefix(
                        items,
                        spec_parse_exactly(rules, inner, input, skip, end, n - 1, fuel),
                    )
                } else {
                    Outcome::Failed { at: loc, msg: msg_exactly_zero_width() }
                }
            },
        }
    }
}

/// Forward-scan semantics: from `pos` on, the first position where the
/// target matches becomes the match end, and the text skipped over from
/// `start` (possibly empty) is the emitted token; if no position up to and
/// including the end of the buffer satisfies the target, the scan fails at
/// `start`.
pub open spec fn spec_parse_skip_to(
    rules: Seq<Option<Expr>>,
    target: Expr,
    input: Seq<char>,
    skip: bool,
    start: int,
    pos: int,
    fuel: nat,
) -> Outcome
    decreases fuel, target, rem(input, pos),
{
    if !(0 <= start <= pos <= input.len()) {
        Outcome::Failed { at: start, msg: msg_skip_to() }
    } else {
        match spec_parse(rules, target, input, skip, pos, fuel) {
            Outcome::Matched { .. } => Outcome::Matched {
                end: pos,
                items: seq![SpecItem::Token(input.subrange(start, pos))],
            },
            Outcome::Failed { .. } => spec_parse_skip_to(
                rules,
                target,
                input,
                skip,
                start,
                pos + 1,
                fuel,
            ),
        }
    }
}

/// Whether two outcomes agree on success, and on where a successful match
/// ends; what a probe observes of an outcome.
pub open spec fn same_end(a: Outcome, b: Outcome) -> bool {
    match (a, b) {
        (Outcome::Matched { end: e1, .. }, Outcome::Matched { end: e2, .. }) => e1 == e2,
        (Outcome::Failed { .. }, Outcome::Failed { .. }) => true,
        _ => false,
    }
}

/// Prefixing items twice is prefixing their concatenation.
pub proof fn lemma_with_prefix_assoc(a: Seq<SpecItem>, b: Seq<SpecItem>, o: Outcome)
    ensures
        with_prefix(a, with_prefix(b, o)) == with_prefix(a + b, o),
{
    match o {
        Outcome::Matched { end, items } => {
            assert(a + (b + items) =~= (a + b) + items);
        },
        Outcome::Failed { .. } => {},
    }
}

/// Prefixing no items changes nothing.
pub proof fn lemma_with_prefix_empty(o: Outcome)
    ensures
        with_prefix(Seq::empty(), o) == o,
{
    match o {
        Outcome::Matched { end, items } => {
            assert(Seq::empty() + items =~= items);
        },
        Outcome::Failed { .. } => {},
    }
}

/// The match probe: where a full match would end, and nothing else.
pub open spec fn spec_probe(
    rules: Seq<Option<Expr>>,
    e: Expr,
    input: Seq<char>,
    skip: bool,
    loc: int,
    fuel: nat,
) -> Option<int> {
    match spec_parse(rules, e, input, skip, loc, fuel) {
        Outcome::Matched { end, .. } => Some(end),
        Outcome::Failed { .. } => None,
    }
}

/// Scan-all semantics: from `pos` on, try a full match at each position;
/// a match is collected and the scan re-anchors at its end (or one past a
/// zero-width match), a failure advances one position.
pub open spec fn spec_search(
    rules: Seq<Option<Expr>>,
    e: Expr,
    input: Seq<char>,
    skip: bool,
    pos: int,
    fuel: nat,
) -> Seq<Seq<SpecItem>>
    decreases input.len() - pos,
{
    if !(0 <= pos < input.len()) {
        Seq::empty()
    } else {
        match spec_parse(rules, e, input, skip, pos, fuel) {
            Outcome::Failed { .. } => spec_search(rules, e, input, skip, pos + 1, fuel),
            Outcome::Matched { end, items } => seq![items] + spec_search(
                rules,
                e,
                input,
                skip,
                if pos < end <= input.len() {
                    end
                } else {
                    pos + 1
                },
                fuel,
            ),
        }
    }
}

} // verus!
