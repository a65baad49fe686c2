//! Laws of the grammar semantics, proved once and for all over
//! [`spec_parse`].

use vstd::prelude::*;

use crate::context::lemma_skip_ws_bounds;
use crate::context::spec_skip_ws;
use crate::elements::Expr;
use crate::semantics::Outcome;
use crate::semantics::rem;
use crate::semantics::spec_parse;
use crate::semantics::spec_parse_exactly;
use crate::semantics::spec_parse_first;
use crate::semantics::spec_parse_seq;
use crate::semantics::spec_parse_skip_to;
use crate::semantics::spec_parse_star;
use crate::semantics::word_scan;
use crate::semantics::spec_skip_before;
use crate::results::SpecItem;
use crate::results::flat_tokens;
use crate::results::flat_tokens_from;
use crate::results::flat_tokens_of_item;

verus! {

/// A word's character run stays within the buffer and never moves
/// backwards.
pub proof fn lemma_word_scan_bounds(
    body: Seq<char>,
    max_len: int,
    input: Seq<char>,
    pos: int,
    count: int,
)
    requires
        0 <= pos <= input.len(),
    ensures
        pos <= word_scan(body, max_len, input, pos, count) <= input.len(),
    decreases input.len() - pos,
{
    if pos < input.len() && body.contains(input[pos]) && (max_len == 0 || count + 1 <= max_len) {
        lemma_word_scan_bounds(body, max_len, input, pos + 1, count + 1);
    }
}

/// The progress invariant: for every grammar node and every offset within
/// the buffer, a successful match ends at or after that offset and never
/// beyond the end of the buffer.
pub proof fn lemma_parse_progress(
    rules: Seq<Option<Expr>>,
    e: Expr,
    input: Seq<char>,
    skip: bool,
    loc: int,
    fuel: nat,
)
    requires
        0 <= loc <= input.len(),
    ensures
        match spec_parse(rules, e, input, skip, loc, fuel) {
            Outcome::Matched { end, .. } => loc <= end <= input.len(),
            Outcome::Failed { .. } => true,
        },
    decreases fuel, e, 0int,
{
    match e {
        Expr::Word(w) => {
            if 0 <= loc < input.len() && w.init_chars@.contains(input[loc]) {
                lemma_word_scan_bounds(w.body_chars@, w.max_len as int, input, loc + 1, 1);
            }
        },
        Expr::And(a) => {
            lemma_seq_progress(rules, a.elements@, input, skip, 0, loc, fuel);
        },
        Expr::MatchFirst(m) => {
            lemma_first_progress(rules, m.elements@, input, skip, 0, loc, fuel);
        },
        Expr::ZeroOrMore(z) => {
            lemma_star_progress(rules, *z.element, input, skip, loc, fuel);
        },
        Expr::OneOrMore(o) => {
            lemma_parse_progress(rules, *o.element, input, skip, loc, fuel);
            match spec_parse(rules, *o.element, input, skip, loc, fuel) {
                Outcome::Matched { end, .. } => {
                    if loc < end <= input.len() {
                        lemma_star_progress(rules, *o.element, input, skip, end, fuel);
                    }
                },
                Outcome::Failed { .. } => {},
            }
        },
        Expr::Optional(o) => {
            lemma_parse_progress(rules, *o.element, input, skip, loc, fuel);
        },
        Expr::Exactly(x) => {
            lemma_exactly_progress(rules, *x.element, input, skip, loc, x.count as int, fuel);
        },
        Expr::Group(g) => {
            lemma_parse_progress(rules, *g.element, input, skip, loc, fuel);
        },
        Expr::Suppress(s) => {
            lemma_parse_progress(rules, *s.element, input, skip, loc, fuel);
        },
        Expr::Combine(c) => {
            lemma_parse_progress(rules, *c.element, input, false, loc, fuel);
        },
        Expr::SkipTo(s) => {
            lemma_skip_to_progress(rules, *s.target, input, skip, loc, loc, fuel);
        },
        Expr::Forward(f) => {
            if f.slot < rules.len() {
                match rules[f.slot as int] {
                    Some(target) => {
                        if fuel > 0 {
                            lemma_parse_progress(rules, target, input, skip, loc, (fuel - 1) as nat);
                        }
                    },
                    None => {},
                }
            }
        },
        _ => {},
    }
}

/// Progress for the sequence semantics.
pub proof fn lemma_seq_progress(
    rules: Seq<Option<Expr>>,
    elems: Seq<Expr>,
    input: Seq<char>,
    skip: bool,
    i: int,
    loc: int,
    fuel: nat,
)
    requires
        0 <= loc <= input.len(),
    ensures
        match spec_parse_seq(rules, elems, input, skip, i, loc, fuel) {
            Outcome::Matched { end, .. } => loc <= end <= input.len(),
            Outcome::Failed { .. } => true,
        },
    decreases fuel, elems, elems.len() - i,
{
    if 0 <= i < elems.len() {
        let at = if skip && crate::semantics::spec_skip_before(elems[i]) {
            spec_skip_ws(input, loc)
        } else {
            loc
        };
        lemma_skip_ws_bounds(input, loc);
        lemma_parse_progress(rules, elems[i], input, skip, at, fuel);
        match spec_parse(rules, elems[i], input, skip, at, fuel) {
            Outcome::Matched { end, .. } => {
                lemma_seq_progress(rules, elems, input, skip, i + 1, end, fuel);
            },
            Outcome::Failed { .. } => {},
        }
    }
}

/// Progress for the alternation semantics.
pub proof fn lemma_first_progress(
    rules: Seq<Option<Expr>>,
    elems: Seq<Expr>,
    input: Seq<char>,
    skip: bool,
    i: int,
    loc: int,
    fuel: nat,
)
    requires
        0 <= loc <= input.len(),
    ensures
        match spec_parse_first(rules, elems, input, skip, i, loc, fuel) {
            Outcome::Matched { end, .. } => loc <= end <= input.len(),
            Outcome::Failed { .. } => true,
        },
    decreases fuel, elems, elems.len() - i,
{
    if 0 <= i < elems.len() {
        lemma_parse_progress(rules, elems[i], input, skip, loc, fuel);
        match spec_parse(rules, elems[i], input, skip, loc, fuel) {
            Outcome::Matched { .. } => {},
            Outcome::Failed { .. } => {
                if i + 1 < elems.len() {
                    lemma_first_progress(rules, elems, input, skip, i + 1, loc, fuel);
                }
            },
        }
    }
}

/// Zero-or-more never fails, and its end stays within the buffer: the
/// general half of the contrast between one-or-more and zero-or-more, and
/// the reason repetition terminates even on zero-width inner matches.
pub proof fn lemma_star_progress(
    rules: Seq<Option<Expr>>,
    inner: Expr,
    input: Seq<char>,
    skip: bool,
    loc: int,
    fuel: nat,
)
    requires
        0 <= loc <= input.len(),
    ensures
        match spec_parse_star(rules, inner, input, skip, loc, fuel) {
            Outcome::Matched { end, .. } => loc <= end <= input.len(),
            Outcome::Failed { .. } => false,
        },
    decreases fuel, inner, rem(input, loc),
{
    lemma_parse_progress(rules, inner, input, skip, loc, fuel);
    match spec_parse(rules, inner, input, skip, loc, fuel) {
        Outcome::Matched { end, .. } => {
            if loc < end <= input.len() {
                lemma_star_progress(rules, inner, input, skip, end, fuel);
            }
        },
        Outcome::Failed { .. } => {},
    }
}

/// Progress for the exact-count semantics.
pub proof fn lemma_exactly_progress(
    rules: Seq<Option<Expr>>,
    inner: Expr,
    input: Seq<char>,
    skip: bool,
    loc: int,
    n: int,
    fuel: nat,
)
    requires
        0 <= loc <= input.len(),
    ensures
        match spec_parse_exactly(rules, inner, input, skip, loc, n, fuel) {
            Outcome::Matched { end, .. } => loc <= end <= input.len(),
            Outcome::Failed { .. } => true,
        },
    decreases fuel, inner, n,
{
    if n > 0 {
        lemma_parse_progress(rules, inner, input, skip, loc, fuel);
        match spec_parse(rules, inner, input, skip, loc, fuel) {
            Outcome::Matched { end, .. } => {
                if loc < end <= input.len() {
                    lemma_exactly_progress(rules, inner, input, skip, end, n - 1, fuel);
                }
            },
            Outcome::Failed { .. } => {},
        }
    }
}

/// Progress for the forward-scan semantics: a successful scan ends at the
/// first position where the target matches, which lies between the start of
/// the scan and the end of the buffer.
pub proof fn lemma_skip_to_progress(
    rules: Seq<Option<Expr>>,
    target: Expr,
    input: Seq<char>,
    skip: bool,
    start: int,
    pos: int,
    fuel: nat,
)
    requires
        0 <= start <= pos <= input.len(),
    ensures
        match spec_parse_skip_to(rules, target, input, skip, start, pos, fuel) {
            Outcome::Matched { end, .. } => start <= end <= input.len(),
            Outcome::Failed { .. } => true,
        },
    decreases fuel, target, rem(input, pos),
{
    lemma_parse_progress(rules, target, input, skip, pos, fuel);
    match spec_parse(rules, target, input, skip, pos, fuel) {
        Outcome::Matched { .. } => {},
        Outcome::Failed { .. } => {
            if pos + 1 <= input.len() {
                lemma_skip_to_progress(rules, target, input, skip, start, pos + 1, fuel);
            }
        },
    }
}

/// A successful forward scan emits exactly the skipped text as its one
/// token.
pub proof fn lemma_skip_to_items(
    rules: Seq<Option<Expr>>,
    target: Expr,
    input: Seq<char>,
    skip: bool,
    start: int,
    pos: int,
    fuel: nat,
)
    requires
        0 <= start <= pos <= input.len(),
    ensures
        match spec_parse_skip_to(rules, target, input, skip, start, pos, fuel) {
            Outcome::Matched { end, items } => pos <= end <= input.len() && items == seq![
                crate::results::SpecItem::Token(input.subrange(start, end)),
            ],
            Outcome::Failed { at, msg } => at == start && msg
                == crate::semantics::msg_skip_to(),
        },
    decreases input.len() - pos,
{
    match spec_parse(rules, target, input, skip, pos, fuel) {
        Outcome::Matched { .. } => {},
        Outcome::Failed { .. } => {
            if pos + 1 <= input.len() {
                lemma_skip_to_items(rules, target, input, skip, start, pos + 1, fuel);
            }
        },
    }
}

/// The sequence combinator short-circuits: when the first element of a
/// two-element sequence matches and the second then fails at the offset the
/// first left off (after any whitespace skip), the whole sequence fails
/// with exactly that failure, regardless of what the first element matched.
pub proof fn lemma_and_short_circuit(
    rules: Seq<Option<Expr>>,
    elems: Seq<Expr>,
    input: Seq<char>,
    skip: bool,
    loc: int,
    fuel: nat,
)
    requires
        elems.len() == 2,
        0 <= loc <= input.len(),
    ensures
        ({
            let at0 = if skip && spec_skip_before(elems[0]) {
                spec_skip_ws(input, loc)
            } else {
                loc
            };
            match spec_parse(rules, elems[0], input, skip, at0, fuel) {
                Outcome::Matched { end, .. } => {
                    let at1 = if skip && spec_skip_before(elems[1]) {
                        spec_skip_ws(input, end)
                    } else {
                        end
                    };
                    match spec_parse(rules, elems[1], input, skip, at1, fuel) {
                        Outcome::Failed { at, msg } => spec_parse_seq(
                            rules,
                            elems,
                            input,
                            skip,
                            0,
                            loc,
                            fuel,
                        ) == (Outcome::Failed { at, msg }),
                        Outcome::Matched { .. } => true,
                    }
                },
                Outcome::Failed { .. } => true,
            }
        }),
{
    let at0 = if skip && spec_skip_before(elems[0]) {
        spec_skip_ws(input, loc)
    } else {
        loc
    };
    match spec_parse(rules, elems[0], input, skip, at0, fuel) {
        Outcome::Matched { end, items } => {
            let at1 = if skip && spec_skip_before(elems[1]) {
                spec_skip_ws(input, end)
            } else {
                end
            };
            match spec_parse(rules, elems[1], input, skip, at1, fuel) {
                Outcome::Failed { at, msg } => {
                    assert(spec_parse_seq(rules, elems, input, skip, 1, end, fuel) == (
                    Outcome::Failed { at, msg }));
                },
                Outcome::Matched { .. } => {},
            }
        },
        Outcome::Failed { .. } => {},
    }
}

/// Forward scanning is minimal: a successful scan ends at the first
/// position at or after its start where the target matches, and a failing
/// scan means the target matches at no position up to and including the
/// end of the buffer.
pub proof fn lemma_skip_to_minimal(
    rules: Seq<Option<Expr>>,
    target: Expr,
    input: Seq<char>,
    skip: bool,
    start: int,
    pos: int,
    fuel: nat,
)
    requires
        0 <= start <= pos <= input.len(),
    ensures
        match spec_parse_skip_to(rules, target, input, skip, start, pos, fuel) {
            Outcome::Matched { end, .. } => pos <= end <= input.len() && spec_parse(
                rules,
                target,
                input,
                skip,
                end,
                fuel,
            ) is Matched && forall|p: int|
                pos <= p < end ==> spec_parse(rules, target, input, skip, p, fuel) is Failed,
            Outcome::Failed { .. } => forall|p: int|
                pos <= p <= input.len() ==> spec_parse(
                    rules,
                    target,
                    input,
                    skip,
                    p,
                    fuel,
                ) is Failed,
        },
    decreases input.len() - pos,
{
    match spec_parse(rules, target, input, skip, pos, fuel) {
        Outcome::Matched { .. } => {},
        Outcome::Failed { .. } => {
            if pos + 1 <= input.len() {
                lemma_skip_to_minimal(rules, target, input, skip, start, pos + 1, fuel);
            }
        },
    }
}

/// Absence as success: an optional wrapper never fails; when its inner node
/// fails, it succeeds at the original offset with empty results.
pub proof fn lemma_optional_total(
    rules: Seq<Option<Expr>>,
    inner: Expr,
    input: Seq<char>,
    skip: bool,
    loc: int,
    fuel: nat,
)
    requires
        0 <= loc <= input.len(),
    ensures
        spec_parse(
            rules,
            Expr::Optional(crate::elements::repetition::Optional {
                element: Box::new(inner),
            }),
            input,
            skip,
            loc,
            fuel,
        ) is Matched,
        spec_parse(rules, inner, input, skip, loc, fuel) is Failed ==> spec_parse(
            rules,
            Expr::Optional(crate::elements::repetition::Optional { element: Box::new(inner) }),
            input,
            skip,
            loc,
            fuel,
        ) == (Outcome::Matched { end: loc, items: Seq::empty() }),
{
}

/// A grammar built purely from literals, keywords, words and sequencing.
pub open spec fn plain_expr(e: Expr) -> bool
    decreases e, 0int,
{
    match e {
        Expr::Literal(_) => true,
        Expr::Keyword(_) => true,
        Expr::Word(_) => true,
        Expr::And(a) => plain_exprs(a.elements@, 0),
        _ => false,
    }
}

/// Whether every element from index `i` on is a plain grammar.
pub open spec fn plain_exprs(s: Seq<Expr>, i: int) -> bool
    decreases s, s.len() - i,
{
    if !(0 <= i < s.len()) {
        true
    } else {
        plain_expr(s[i]) && plain_exprs(s, i + 1)
    }
}

/// The concatenation of the texts of `ts` from index `i` on.
pub open spec fn texts_concat(ts: Seq<Seq<char>>, i: int) -> Seq<char>
    decreases ts.len() - i,
{
    if !(0 <= i < ts.len()) {
        Seq::empty()
    } else {
        ts[i] + texts_concat(ts, i + 1)
    }
}

/// The token texts of `items` joined in order, groups flattened.
pub open spec fn tokens_text(items: Seq<SpecItem>) -> Seq<char> {
    texts_concat(flat_tokens(items), 0)
}

proof fn lemma_flat_tokens_from_shift(x: Seq<SpecItem>, y: Seq<SpecItem>, j: int)
    requires
        0 <= j <= y.len(),
    ensures
        flat_tokens_from(x + y, x.len() + j) == flat_tokens_from(y, j),
    decreases y.len() - j,
{
    let xy = x + y;
    if j < y.len() {
        assert(xy[x.len() + j] == y[j]);
        lemma_flat_tokens_from_shift(x, y, j + 1);
        assert(flat_tokens_from(xy, x.len() + j) == flat_tokens_of_item(xy[x.len() + j])
            + flat_tokens_from(xy, x.len() + j + 1));
        assert(flat_tokens_from(y, j) == flat_tokens_of_item(y[j]) + flat_tokens_from(y, j + 1));
    } else {
        assert(flat_tokens_from(xy, x.len() + j) == Seq::<Seq<char>>::empty());
        assert(flat_tokens_from(y, j) == Seq::<Seq<char>>::empty());
    }
}

proof fn lemma_flat_tokens_from_concat(x: Seq<SpecItem>, y: Seq<SpecItem>, i: int)
    requires
        0 <= i <= x.len(),
    ensures
        flat_tokens_from(x + y, i) == flat_tokens_from(x, i) + flat_tokens_from(y, 0),
    decreases x.len() - i,
{
    let xy = x + y;
    if i < x.len() {
        assert(xy[i] == x[i]);
        lemma_flat_tokens_from_concat(x, y, i + 1);
        assert(flat_tokens_from(xy, i) == flat_tokens_of_item(xy[i]) + flat_tokens_from(
            xy,
            i + 1,
        ));
        assert(flat_tokens_from(x, i) == flat_tokens_of_item(x[i]) + flat_tokens_from(x, i + 1));
        assert(flat_tokens_of_item(x[i]) + (flat_tokens_from(x, i + 1) + flat_tokens_from(y, 0))
            =~= (flat_tokens_of_item(x[i]) + flat_tokens_from(x, i + 1)) + flat_tokens_from(
            y,
            0,
        ));
    } else {
        lemma_flat_tokens_from_shift(x, y, 0);
        assert(flat_tokens_from(x, i) == Seq::<Seq<char>>::empty());
        assert(flat_tokens_from(xy, i) =~= flat_tokens_from(x, i) + flat_tokens_from(y, 0));
    }
}

proof fn lemma_texts_concat_shift(a: Seq<Seq<char>>, b: Seq<Seq<char>>, j: int)
    requires
        0 <= j <= b.len(),
    ensures
        texts_concat(a + b, a.len() + j) == texts_concat(b, j),
    decreases b.len() - j,
{
    let ab = a + b;
    if j < b.len() {
        assert(ab[a.len() + j] == b[j]);
        lemma_texts_concat_shift(a, b, j + 1);
        assert(texts_concat(ab, a.len() + j) == ab[a.len() + j] + texts_concat(
            ab,
            a.len() + j + 1,
        ));
        assert(texts_concat(b, j) == b[j] + texts_concat(b, j + 1));
    } else {
        assert(texts_concat(ab, a.len() + j) == Seq::<char>::empty());
        assert(texts_concat(b, j) == Seq::<char>::empty());
    }
}

proof fn lemma_texts_concat_concat(a: Seq<Seq<char>>, b: Seq<Seq<char>>, i: int)
    requires
        0 <= i <= a.len(),
    ensures
        texts_concat(a + b, i) == texts_concat(a, i) + texts_concat(b, 0),
    decreases a.len() - i,
{
    let ab = a + b;
    if i < a.len() {
        assert(ab[i] == a[i]);
        lemma_texts_concat_concat(a, b, i + 1);
        assert(texts_concat(ab, i) == ab[i] + texts_concat(ab, i + 1));
        assert(texts_concat(a, i) == a[i] + texts_concat(a, i + 1));
        assert(a[i] + (texts_concat(a, i + 1) + texts_concat(b, 0)) =~= (a[i] + texts_concat(
            a,
            i + 1,
        )) + texts_concat(b, 0));
    } else {
        lemma_texts_concat_shift(a, b, 0);
        assert(texts_concat(a, i) == Seq::<char>::empty());
        assert(texts_concat(ab, i) =~= texts_concat(a, i) + texts_concat(b, 0));
    }
}

/// Joining the tokens of two item runs in order joins their texts.
pub proof fn lemma_tokens_text_concat(x: Seq<SpecItem>, y: Seq<SpecItem>)
    ensures
        tokens_text(x + y) == tokens_text(x) + tokens_text(y),
{
    lemma_flat_tokens_from_concat(x, y, 0);
    lemma_texts_concat_concat(flat_tokens(x), flat_tokens(y), 0);
}

/// The joined text of a single token is that token.
pub proof fn lemma_tokens_text_token(t: Seq<char>)
    ensures
        tokens_text(seq![SpecItem::Token(t)]) == t,
{
    let s = seq![SpecItem::Token(t)];
    assert(flat_tokens_from(s, 1) == Seq::<Seq<char>>::empty());
    assert(flat_tokens_of_item(s[0]) == seq![t]);
    assert(flat_tokens_from(s, 0) =~= seq![t]);
    assert(texts_concat(seq![t], 1) == Seq::<char>::empty());
    assert(texts_concat(seq![t], 0) =~= t);
}

/// The joined text of no items is empty.
pub proof fn lemma_tokens_text_empty()
    ensures
        tokens_text(Seq::<SpecItem>::empty()) == Seq::<char>::empty(),
{
    assert(flat_tokens_from(Seq::<SpecItem>::empty(), 0) == Seq::<Seq<char>>::empty());
    assert(texts_concat(Seq::<Seq<char>>::empty(), 0) == Seq::<char>::empty());
}

/// The round trip: a grammar built purely from literals, keywords, words
/// and sequencing, run with whitespace skipping disabled, reproduces the
/// matched substring of the input exactly when its tokens are joined in
/// order.  (With skipping enabled the law does not hold: the whitespace a
/// sequence skips between elements appears in no token.)
pub proof fn lemma_round_trip(
    rules: Seq<Option<Expr>>,
    e: Expr,
    input: Seq<char>,
    loc: int,
    fuel: nat,
)
    requires
        plain_expr(e),
        0 <= loc <= input.len(),
    ensures
        match spec_parse(rules, e, input, false, loc, fuel) {
            Outcome::Matched { end, items } => tokens_text(items) == input.subrange(loc, end),
            Outcome::Failed { .. } => true,
        },
    decreases fuel, e, 0int,
{
    match e {
        Expr::Literal(l) => {
            let text = l.match_string@;
            if 0 <= loc && loc + text.len() <= input.len() && input.subrange(
                loc,
                loc + text.len(),
            ) == text {
                lemma_tokens_text_token(text);
            }
        },
        Expr::Keyword(k) => {
            let text = k.match_string@;
            let end = loc + text.len();
            if 0 <= loc && end <= input.len() && input.subrange(loc, end) == text {
                lemma_tokens_text_token(text);
            }
        },
        Expr::Word(w) => {
            if 0 <= loc < input.len() && w.init_chars@.contains(input[loc]) {
                let end = word_scan(w.body_chars@, w.max_len as int, input, loc + 1, 1);
                lemma_word_scan_bounds(w.body_chars@, w.max_len as int, input, loc + 1, 1);
                lemma_tokens_text_token(input.subrange(loc, end));
            }
        },
        Expr::And(a) => {
            lemma_round_trip_seq(rules, a.elements@, input, 0, loc, fuel);
        },
        _ => {},
    }
}

/// The round trip for a run of plain sequence elements.
pub proof fn lemma_round_trip_seq(
    rules: Seq<Option<Expr>>,
    elems: Seq<Expr>,
    input: Seq<char>,
    i: int,
    loc: int,
    fuel: nat,
)
    requires
        plain_exprs(elems, i),
        0 <= loc <= input.len(),
    ensures
        match spec_parse_seq(rules, elems, input, false, i, loc, fuel) {
            Outcome::Matched { end, items } => tokens_text(items) == input.subrange(loc, end),
            Outcome::Failed { .. } => true,
        },
    decreases fuel, elems, elems.len() - i,
{
    if 0 <= i < elems.len() {
        lemma_parse_progress(rules, elems[i], input, false, loc, fuel);
        lemma_round_trip(rules, elems[i], input, loc, fuel);
        match spec_parse(rules, elems[i], input, false, loc, fuel) {
            Outcome::Matched { end: e1, items: it1 } => {
                lemma_seq_progress(rules, elems, input, false, i + 1, e1, fuel);
                lemma_round_trip_seq(rules, elems, input, i + 1, e1, fuel);
                match spec_parse_seq(rules, elems, input, false, i + 1, e1, fuel) {
                    Outcome::Matched { end: e2, items: it2 } => {
                        lemma_tokens_text_concat(it1, it2);
                        assert(input.subrange(loc, e1) + input.subrange(e1, e2) =~= input.subrange(
                            loc,
                            e2,
                        ));
                    },
                    Outcome::Failed { .. } => {},
                }
            },
            Outcome::Failed { .. } => {},
        }
    } else {
        lemma_tokens_text_empty();
        assert(input.subrange(loc, loc) =~= Seq::<char>::empty());
    }
}

} // verus!
