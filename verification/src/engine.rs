//! The executable evaluators, proved equal to the specification
//! interpreter: a full matcher that builds results, and an allocation-free
//! probe that only reports where a match would end.

use vstd::prelude::*;
use vstd::string::StrSliceExecFns;
use vstd::string::StringExecFns;

use crate::context::skip_ws;
use crate::context::spec_rules_of;
use crate::elements::Expr;
use crate::elements::chars::regex_search;
use crate::elements::forward::Rules;
use crate::exceptions::ParseException;
use crate::laws::lemma_parse_progress;
use crate::laws::lemma_star_progress;
use crate::results::ParseResults;
use crate::semantics::Outcome;
use crate::semantics::is_ident_char;
use crate::semantics::msg_expected_literal;
use crate::semantics::msg_expected_keyword;
use crate::semantics::msg_expected_regex;
use crate::semantics::msg_expected_word;
use crate::semantics::same_end;
use crate::semantics::spec_parse;
use crate::semantics::spec_parse_exactly;
use crate::semantics::spec_parse_first;
use crate::semantics::spec_parse_seq;
use crate::semantics::spec_parse_skip_to;
use crate::semantics::spec_parse_star;
use crate::semantics::spec_probe;
use crate::semantics::with_prefix;
use crate::semantics::lemma_with_prefix_assoc;
use crate::semantics::lemma_with_prefix_empty;
use crate::semantics::word_scan;

verus! {


/// A borrowed grammar node: what the evaluators dispatch on, so that an
/// element can be matched in place without building an owned [`Expr`].
#[derive(Clone, Copy)]
pub enum NodeRef<'a> {
    Literal(&'a crate::elements::literals::Literal),
    Keyword(&'a crate::elements::literals::Keyword),
    Word(&'a crate::elements::chars::Word),
    Regex(&'a crate::elements::chars::RegexMatch),
    And(&'a crate::elements::combinators::And),
    MatchFirst(&'a crate::elements::combinators::MatchFirst),
    ZeroOrMore(&'a crate::elements::repetition::ZeroOrMore),
    OneOrMore(&'a crate::elements::repetition::OneOrMore),
    Optional(&'a crate::elements::repetition::Optional),
    Exactly(&'a crate::elements::repetition::Exactly),
    Group(&'a crate::elements::structure::Group),
    Suppress(&'a crate::elements::structure::Suppress),
    Combine(&'a crate::elements::structure::Combine),
    SkipTo(&'a crate::elements::structure::SkipTo),
    Empty(&'a crate::elements::structure::Empty),
    NoMatch(&'a crate::elements::structure::NoMatch),
    Forward(&'a crate::elements::forward::Forward),
}

/// The grammar node a [`NodeRef`] refers to.
pub open spec fn node_view<'a>(n: NodeRef<'a>) -> Expr {
    match n {
        NodeRef::Literal(x) => Expr::Literal(*x),
        NodeRef::Keyword(x) => Expr::Keyword(*x),
        NodeRef::Word(x) => Expr::Word(*x),
        NodeRef::Regex(x) => Expr::Regex(*x),
        NodeRef::And(x) => Expr::And(*x),
        NodeRef::MatchFirst(x) => Expr::MatchFirst(*x),
        NodeRef::ZeroOrMore(x) => Expr::ZeroOrMore(*x),
        NodeRef::OneOrMore(x) => Expr::OneOrMore(*x),
        NodeRef::Optional(x) => Expr::Optional(*x),
        NodeRef::Exactly(x) => Expr::Exactly(*x),
        NodeRef::Group(x) => Expr::Group(*x),
        NodeRef::Suppress(x) => Expr::Suppress(*x),
        NodeRef::Combine(x) => Expr::Combine(*x),
        NodeRef::SkipTo(x) => Expr::SkipTo(*x),
        NodeRef::Empty(x) => Expr::Empty(*x),
        NodeRef::NoMatch(x) => Expr::NoMatch(*x),
        NodeRef::Forward(x) => Expr::Forward(*x),
    }
}

/// Borrow an owned grammar node.
pub fn expr_ref<'a>(e: &'a Expr) -> (r: NodeRef<'a>)
    ensures
        node_view(r) == *e,
{
    match e {
        Expr::Literal(x) => NodeRef::Literal(x),
        Expr::Keyword(x) => NodeRef::Keyword(x),
        Expr::Word(x) => NodeRef::Word(x),
        Expr::Regex(x) => NodeRef::Regex(x),
        Expr::And(x) => NodeRef::And(x),
        Expr::MatchFirst(x) => NodeRef::MatchFirst(x),
        Expr::ZeroOrMore(x) => NodeRef::ZeroOrMore(x),
        Expr::OneOrMore(x) => NodeRef::OneOrMore(x),
        Expr::Optional(x) => NodeRef::Optional(x),
        Expr::Exactly(x) => NodeRef::Exactly(x),
        Expr::Group(x) => NodeRef::Group(x),
        Expr::Suppress(x) => NodeRef::Suppress(x),
        Expr::Combine(x) => NodeRef::Combine(x),
        Expr::SkipTo(x) => NodeRef::SkipTo(x),
        Expr::Empty(x) => NodeRef::Empty(x),
        Expr::NoMatch(x) => NodeRef::NoMatch(x),
        Expr::Forward(x) => NodeRef::Forward(x),
    }
}


/// The recursion budget a parse of `input` starts with.
pub(crate) fn fuel_of(input: &str) -> (f: usize)
    ensures
        f as nat == crate::semantics::fuel_for(input@),
{
    let l = input.unicode_len();
    if l < usize::MAX {
        l + 1
    } else {
        l
    }
}

/// Whether `pat` occurs character for character at `loc` of `input`.
fn str_matches_at(input: &str, loc: usize, pat: &str) -> (b: bool)
    requires
        loc <= input@.len(),
    ensures
        b == (loc + pat@.len() <= input@.len() && input@.subrange(
            loc as int,
            loc + pat@.len(),
        ) == pat@),
{
    let l = input.unicode_len();
    let pl = pat.unicode_len();
    if pl > l - loc {
        return false;
    }
    let mut j: usize = 0;
    while j < pl
        invariant
            j <= pl,
            loc + pl <= l,
            l == input@.len(),
            pl == pat@.len(),
            forall|k: int| 0 <= k < j ==> input@[loc + k] == pat@[k],
        decreases pl - j,
    {
        if input.get_char(loc + j) != pat.get_char(j) {
            proof {
                let sub = input@.subrange(loc as int, loc + pat@.len());
                assert(sub[j as int] == input@[loc + j]);
            }
            return false;
        }
        j = j + 1;
    }
    proof {
        assert(input@.subrange(loc as int, loc + pat@.len()) =~= pat@);
    }
    true
}

/// Whether the set `v` holds the character `c`.
fn contains_char(v: &Vec<char>, c: char) -> (r: bool)
    ensures
        r == v@.contains(c),
{
    let mut i: usize = 0;
    while i < v.len()
        invariant
            i <= v@.len(),
            forall|k: int| 0 <= k < i ==> v@[k] != c,
        decreases v@.len() - i,
    {
        if v[i] == c {
            proof {
                assert(v@.contains(c));
            }
            return true;
        }
        i = i + 1;
    }
    proof {
        if v@.contains(c) {
            let k = choose|k: int| 0 <= k < v@.len() && v@[k] == c;
            assert(v@[k] != c);
        }
    }
    false
}

/// Whether `c` is an identifier character for keyword boundaries.
fn is_ident_char_at(c: char) -> (r: bool)
    ensures
        r == is_ident_char(c),
{
    ('A' <= c && c <= 'Z') || ('a' <= c && c <= 'z') || ('0' <= c && c <= '9') || c == '_'
}

/// The end of the greedy character run of a word, starting at `pos` with
/// `count` characters taken.
fn word_scan_at(
    body: &Vec<char>,
    max_len: usize,
    input: &str,
    pos: usize,
    count: usize,
) -> (r: usize)
    requires
        count <= pos <= input@.len(),
    ensures
        r == word_scan(body@, max_len as int, input@, pos as int, count as int),
        pos <= r <= input@.len(),
    decreases input@.len() - pos,
{
    let l = input.unicode_len();
    if pos < l && contains_char(body, input.get_char(pos)) && (max_len == 0 || count < max_len) {
        word_scan_at(body, max_len, input, pos + 1, count + 1)
    } else {
        pos
    }
}

/// Where a full match of `e` at `loc` would end, without building any
/// result data.
#[verifier::loop_isolation(false)]
pub(crate) fn probe<'a>(
    rules: Option<&Rules>,
    e: NodeRef<'a>,
    input: &str,
    skip: bool,
    loc: usize,
    fuel: usize,
) -> (r: Option<usize>)
    requires
        loc <= input@.len(),
    ensures
        match r {
            Some(end) => Some(end as int) == spec_probe(
                spec_rules_of(rules),
                node_view(e),
                input@,
                skip,
                loc as int,
                fuel as nat,
            ) && loc <= end <= input@.len(),
            None => spec_probe(
                spec_rules_of(rules),
                node_view(e),
                input@,
                skip,
                loc as int,
                fuel as nat,
            ) is None,
        },
    decreases fuel, node_view(e), 0int,
{
    let ghost rv = spec_rules_of(rules);
    proof {
        lemma_parse_progress(rv, node_view(e), input@, skip, loc as int, fuel as nat);
    }
    match e {
        NodeRef::Literal(l) => {
            let il = input.unicode_len();
            if str_matches_at(input, loc, l.match_string.as_str()) {
                let pl = l.match_string.as_str().unicode_len();
                proof {
                    assert(loc + pl <= il);
                }
                Some(loc + pl)
            } else {
                None
            }
        },
        NodeRef::Keyword(k) => {
            let l = input.unicode_len();
            if str_matches_at(input, loc, k.match_string.as_str()) {
                let pl = k.match_string.as_str().unicode_len();
                proof {
                    assert(loc + pl <= l);
                }
                let end = loc + pl;
                if end < l && is_ident_char_at(input.get_char(end)) {
                    None
                } else {
                    Some(end)
                }
            } else {
                None
            }
        },
        NodeRef::Word(w) => {
            let l = input.unicode_len();
            if loc >= l {
                return None;
            }
            if !contains_char(&w.init_chars, input.get_char(loc)) {
                return None;
            }
            let end = word_scan_at(&w.body_chars, w.max_len, input, loc + 1, 1);
            if end - loc < w.min_len {
                None
            } else {
                Some(end)
            }
        },
        NodeRef::Regex(re) => {
            let l = input.unicode_len();
            let hay = input.substring_char(loc, l);
            match regex_search(re, hay) {
                Some(m) => {
                    let n = m.unicode_len();
                    if n <= l - loc {
                        Some(loc + n)
                    } else {
                        None
                    }
                },
                None => None,
            }
        },
        NodeRef::And(a) => {
            let n = a.elements.len();
            let mut i: usize = 0;
            let mut cur = loc;
            while i < n
                invariant
                    i <= n,
                    loc <= cur <= input@.len(),
                    same_end(
                        spec_parse_seq(rv, a.elements@, input@, skip, 0, loc as int, fuel as nat),
                        spec_parse_seq(
                            rv,
                            a.elements@,
                            input@,
                            skip,
                            i as int,
                            cur as int,
                            fuel as nat,
                        ),
                    ),
                decreases n - i,
            {
                let at = if skip {
                    skip_ws(input, cur)
                } else {
                    cur
                };
                proof {
                    lemma_parse_progress(
                        rv,
                        a.elements@[i as int],
                        input@,
                        skip,
                        at as int,
                        fuel as nat,
                    );
                }
                match probe(rules, expr_ref(&a.elements[i]), input, skip, at, fuel) {
                    Some(end) => {
                        cur = end;
                        i = i + 1;
                    },
                    None => {
                        return None;
                    },
                }
            }
            Some(cur)
        },
        NodeRef::MatchFirst(m) => {
            let n = m.elements.len();
            let mut i: usize = 0;
            while i < n
                invariant
                    i <= n,
                    same_end(
                        spec_parse_first(rv, m.elements@, input@, skip, 0, loc as int, fuel as nat),
                        spec_parse_first(
                            rv,
                            m.elements@,
                            input@,
                            skip,
                            i as int,
                            loc as int,
                            fuel as nat,
                        ),
                    ),
                decreases n - i,
            {
                match probe(rules, expr_ref(&m.elements[i]), input, skip, loc, fuel) {
                    Some(end) => {
                        return Some(end);
                    },
                    None => {
                        i = i + 1;
                    },
                }
            }
            None
        },
        NodeRef::ZeroOrMore(z) => {
            let end = probe_star(rules, &*z.element, input, skip, loc, fuel);
            Some(end)
        },
        NodeRef::OneOrMore(o) => {
            match probe(rules, expr_ref(&*o.element), input, skip, loc, fuel) {
                None => None,
                Some(first_end) => {
                    if first_end <= loc {
                        None
                    } else {
                        let end = probe_star(rules, &*o.element, input, skip, first_end, fuel);
                        Some(end)
                    }
                },
            }
        },
        NodeRef::Optional(o) => {
            match probe(rules, expr_ref(&*o.element), input, skip, loc, fuel) {
                Some(end) => Some(end),
                None => Some(loc),
            }
        },
        NodeRef::Exactly(x) => {
            let n = x.count;
            let mut k: usize = 0;
            let mut cur = loc;
            while k < n
                invariant
                    k <= n,
                    loc <= cur <= input@.len(),
                    same_end(
                        spec_parse_exactly(
                            rv,
                            *x.element,
                            input@,
                            skip,
                            loc as int,
                            n as int,
                            fuel as nat,
                        ),
                        spec_parse_exactly(
                            rv,
                            *x.element,
                            input@,
                            skip,
                            cur as int,
                            n - k,
                            fuel as nat,
                        ),
                    ),
                decreases n - k,
            {
                proof {
                    lemma_parse_progress(rv, *x.element, input@, skip, cur as int, fuel as nat);
                }
                match probe(rules, expr_ref(&*x.element), input, skip, cur, fuel) {
                    Some(end) => {
                        if end <= cur {
                            return None;
                        }
                        cur = end;
                        k = k + 1;
                    },
                    None => {
                        return None;
                    },
                }
            }
            Some(cur)
        },
        NodeRef::Group(g) => {
            match probe(rules, expr_ref(&*g.element), input, skip, loc, fuel) {
                Some(end) => Some(end),
                None => None,
            }
        },
        NodeRef::Suppress(s) => {
            match probe(rules, expr_ref(&*s.element), input, skip, loc, fuel) {
                Some(end) => Some(end),
                None => None,
            }
        },
        NodeRef::Combine(c) => {
            proof {
                lemma_parse_progress(rv, *c.element, input@, false, loc as int, fuel as nat);
            }
            match probe(rules, expr_ref(&*c.element), input, false, loc, fuel) {
                Some(end) => Some(end),
                None => None,
            }
        },
        NodeRef::SkipTo(s) => {
            match probe_skip_to(rules, &*s.target, input, skip, loc, fuel) {
                Some(pos) => Some(pos),
                None => None,
            }
        },
        NodeRef::Empty(_) => Some(loc),
        NodeRef::NoMatch(_) => None,
        NodeRef::Forward(f) => {
            match rules {
                None => None,
                Some(rt) => {
                    match rt.get(f.slot) {
                        Some(target) => {
                            if fuel == 0 {
                                None
                            } else {
                                probe(rules, expr_ref(target), input, skip, loc, fuel - 1)
                            }
                        },
                        None => None,
                    }
                },
            }
        },
    }
}

/// Where the zero-or-more repetition of `inner` starting at `loc` ends.
#[verifier::loop_isolation(false)]
fn probe_star(
    rules: Option<&Rules>,
    inner: &Expr,
    input: &str,
    skip: bool,
    loc: usize,
    fuel: usize,
) -> (end: usize)
    requires
        loc <= input@.len(),
    ensures
        match spec_parse_star(
            spec_rules_of(rules),
            *inner,
            input@,
            skip,
            loc as int,
            fuel as nat,
        ) {
            Outcome::Matched { end: e2, .. } => end as int == e2,
            Outcome::Failed { .. } => false,
        },
        loc <= end <= input@.len(),
    decreases fuel, inner, 1int,
{
    let ghost rv = spec_rules_of(rules);
    proof {
        lemma_star_progress(rv, *inner, input@, skip, loc as int, fuel as nat);
    }
    let mut cur = loc;
    let mut done = false;
    while !done
        invariant
            loc <= cur <= input@.len(),
            same_end(
                spec_parse_star(rv, *inner, input@, skip, loc as int, fuel as nat),
                spec_parse_star(rv, *inner, input@, skip, cur as int, fuel as nat),
            ),
            done ==> spec_parse_star(rv, *inner, input@, skip, cur as int, fuel as nat)
                == (Outcome::Matched { end: cur as int, items: Seq::empty() }),
        decreases input@.len() - cur, (if done { 0int } else { 1int }),
    {
        match probe(rules, expr_ref(inner), input, skip, cur, fuel) {
            Some(e) => {
                if e <= cur {
                    done = true;
                } else {
                    cur = e;
                }
            },
            None => {
                done = true;
            },
        }
    }
    cur
}

/// The first position at or after `loc` where the target matches, if any.
#[verifier::loop_isolation(false)]
fn probe_skip_to(
    rules: Option<&Rules>,
    target: &Expr,
    input: &str,
    skip: bool,
    loc: usize,
    fuel: usize,
) -> (r: Option<usize>)
    requires
        loc <= input@.len(),
    ensures
        match spec_parse_skip_to(
            spec_rules_of(rules),
            *target,
            input@,
            skip,
            loc as int,
            loc as int,
            fuel as nat,
        ) {
            Outcome::Matched { end, .. } => r matches Some(pos) && pos as int == end && loc <= pos
                <= input@.len(),
            Outcome::Failed { .. } => r is None,
        },
    decreases fuel, target, 1int,
{
    let ghost rv = spec_rules_of(rules);
    let l = input.unicode_len();
    let mut pos = loc;
    let mut found = false;
    let mut failed = false;
    while !found && !failed
        invariant
            loc <= pos <= l,
            l == input@.len(),
            !(found && failed),
            !found ==> same_end(
                spec_parse_skip_to(rv, *target, input@, skip, loc as int, loc as int, fuel as nat),
                spec_parse_skip_to(rv, *target, input@, skip, loc as int, pos as int, fuel as nat),
            ),
            found ==> (match spec_parse_skip_to(
                rv,
                *target,
                input@,
                skip,
                loc as int,
                loc as int,
                fuel as nat,
            ) {
                Outcome::Matched { end, .. } => end == pos as int,
                Outcome::Failed { .. } => false,
            }),
            failed ==> spec_parse_skip_to(
                rv,
                *target,
                input@,
                skip,
                loc as int,
                loc as int,
                fuel as nat,
            ) is Failed,
        decreases l - pos, (if found || failed { 0int } else { 1int }),
    {
        match probe(rules, expr_ref(target), input, skip, pos, fuel) {
            Some(_) => {
                found = true;
            },
            None => {
                if pos >= l {
                    proof {
                        assert(spec_parse_skip_to(
                            rv,
                            *target,
                            input@,
                            skip,
                            loc as int,
                            pos + 1,
                            fuel as nat,
                        ) is Failed);
                    }
                    failed = true;
                } else {
                    pos = pos + 1;
                }
            },
        }
    }
    if found {
        Some(pos)
    } else {
        None
    }
}

/// How an executable result embodies a specification outcome: same
/// success, same end offset, same items, no stray name associations, and
/// on failure the same location and message.
pub open spec fn outcome_matches(
    r: Result<(usize, ParseResults), ParseException>,
    o: Outcome,
) -> bool {
    match r {
        Ok((end, res)) => o == (Outcome::Matched { end: end as int, items: res@.items })
            && res@.named.len() == 0,
        Err(ex) => o == (Outcome::Failed { at: ex.loc as int, msg: ex.msg@ }),
    }
}

/// Diagnostic text for a literal that did not match.
fn msg_literal_text(text: &str) -> (m: String)
    ensures
        m@ == msg_expected_literal(text@),
{
    let mut m = String::from_str("Expected '");
    m.append(text);
    m.append("'");
    m
}

/// Diagnostic text for a keyword that did not match.
fn msg_keyword_text(text: &str) -> (m: String)
    ensures
        m@ == msg_expected_keyword(text@),
{
    let mut m = String::from_str("Expected keyword '");
    m.append(text);
    m.append("'");
    m
}

/// Diagnostic text for a word that did not match.
fn msg_word_text(name: &str) -> (m: String)
    ensures
        m@ == msg_expected_word(name@),
{
    let mut m = String::from_str("Expected ");
    m.append(name);
    m
}

/// Diagnostic text for a regular expression that did not match.
fn msg_regex_text(pattern: &str) -> (m: String)
    ensures
        m@ == msg_expected_regex(pattern@),
{
    let mut m = String::from_str("Expected match for /");
    m.append(pattern);
    m.append("/");
    m
}

/// The full matcher: match `e` at `loc` of `input`, building the result
/// items, exactly as the specification interpreter prescribes.
#[verifier::loop_isolation(false)]
pub(crate) fn eval<'a>(
    rules: Option<&Rules>,
    e: NodeRef<'a>,
    input: &str,
    skip: bool,
    loc: usize,
    fuel: usize,
) -> (r: Result<(usize, ParseResults), ParseException>)
    requires
        loc <= input@.len(),
    ensures
        outcome_matches(
            r,
            spec_parse(spec_rules_of(rules), node_view(e), input@, skip, loc as int, fuel as nat),
        ),
        r matches Ok((end, _)) ==> loc <= end <= input@.len(),
    decreases fuel, node_view(e), 0int,
{
    let ghost rv = spec_rules_of(rules);
    proof {
        lemma_parse_progress(rv, node_view(e), input@, skip, loc as int, fuel as nat);
    }
    match e {
        NodeRef::Literal(l) => {
            let il = input.unicode_len();
            if str_matches_at(input, loc, l.match_string.as_str()) {
                let pl = l.match_string.as_str().unicode_len();
                proof {
                    assert(loc + pl <= il);
                }
                Ok((loc + pl, ParseResults::from_single(l.match_string.as_str())))
            } else {
                let m = msg_literal_text(l.match_string.as_str());
                Err(ParseException::new(loc, m.as_str()))
            }
        },
        NodeRef::Keyword(k) => {
            let il = input.unicode_len();
            if str_matches_at(input, loc, k.match_string.as_str()) {
                let pl = k.match_string.as_str().unicode_len();
                proof {
                    assert(loc + pl <= il);
                }
                let end = loc + pl;
                if end < il && is_ident_char_at(input.get_char(end)) {
                    let m = msg_keyword_text(k.match_string.as_str());
                    Err(ParseException::new(loc, m.as_str()))
                } else {
                    Ok((end, ParseResults::from_single(k.match_string.as_str())))
                }
            } else {
                let m = msg_keyword_text(k.match_string.as_str());
                Err(ParseException::new(loc, m.as_str()))
            }
        },
        NodeRef::Word(w) => {
            let il = input.unicode_len();
            if loc >= il {
                let m = msg_word_text(w.name.as_str());
                return Err(ParseException::new(loc, m.as_str()));
            }
            if !contains_char(&w.init_chars, input.get_char(loc)) {
                let m = msg_word_text(w.name.as_str());
                return Err(ParseException::new(loc, m.as_str()));
            }
            let end = word_scan_at(&w.body_chars, w.max_len, input, loc + 1, 1);
            if end - loc < w.min_len {
                let m = msg_word_text(w.name.as_str());
                Err(ParseException::new(loc, m.as_str()))
            } else {
                let tok = input.substring_char(loc, end);
                Ok((end, ParseResults::from_single(tok)))
            }
        },
        NodeRef::Regex(re) => {
            let il = input.unicode_len();
            let hay = input.substring_char(loc, il);
            match regex_search(re, hay) {
                Some(m) => {
                    let n = m.unicode_len();
                    if n <= il - loc {
                        Ok((loc + n, ParseResults::from_single(m)))
                    } else {
                        let t = msg_regex_text(re.pattern_str.as_str());
                        Err(ParseException::new(loc, t.as_str()))
                    }
                },
                None => {
                    let t = msg_regex_text(re.pattern_str.as_str());
                    Err(ParseException::new(loc, t.as_str()))
                },
            }
        },
        NodeRef::And(a) => {
            let n = a.elements.len();
            let mut i: usize = 0;
            let mut cur = loc;
            let mut acc = ParseResults::new();
            proof {
                lemma_with_prefix_empty(
                    spec_parse_seq(rv, a.elements@, input@, skip, 0, loc as int, fuel as nat),
                );
            }
            while i < n
                invariant
                    i <= n,
                    loc <= cur <= input@.len(),
                    acc@.named.len() == 0,
                    spec_parse_seq(rv, a.elements@, input@, skip, 0, loc as int, fuel as nat)
                        == with_prefix(
                        acc@.items,
                        spec_parse_seq(
                            rv,
                            a.elements@,
                            input@,
                            skip,
                            i as int,
                            cur as int,
                            fuel as nat,
                        ),
                    ),
                decreases n - i,
            {
                let at = if skip {
                    skip_ws(input, cur)
                } else {
                    cur
                };
                match eval(rules, expr_ref(&a.elements[i]), input, skip, at, fuel) {
                    Ok((end, res)) => {
                        proof {
                            lemma_parse_progress(
                                rv,
                                a.elements@[i as int],
                                input@,
                                skip,
                                at as int,
                                fuel as nat,
                            );
                            lemma_with_prefix_assoc(
                                acc@.items,
                                res@.items,
                                spec_parse_seq(
                                    rv,
                                    a.elements@,
                                    input@,
                                    skip,
                                    i + 1,
                                    end as int,
                                    fuel as nat,
                                ),
                            );
                        }
                        acc.extend(res);
                        cur = end;
                        i = i + 1;
                    },
                    Err(ex) => {
                        return Err(ex);
                    },
                }
            }
            proof {
                assert(acc@.items + Seq::<crate::results::SpecItem>::empty() =~= acc@.items);
            }
            Ok((cur, acc))
        },
        NodeRef::MatchFirst(m) => {
            let n = m.elements.len();
            if n == 0 {
                return Err(ParseException::new(loc, "No match found"));
            }
            let mut i: usize = 0;
            while i < n
                invariant
                    i < n,
                    spec_parse_first(rv, m.elements@, input@, skip, 0, loc as int, fuel as nat)
                        == spec_parse_first(
                        rv,
                        m.elements@,
                        input@,
                        skip,
                        i as int,
                        loc as int,
                        fuel as nat,
                    ),
                decreases n - i,
            {
                match eval(rules, expr_ref(&m.elements[i]), input, skip, loc, fuel) {
                    Ok((end, res)) => {
                        proof {
                            lemma_parse_progress(
                                rv,
                                m.elements@[i as int],
                                input@,
                                skip,
                                loc as int,
                                fuel as nat,
                            );
                        }
                        return Ok((end, res));
                    },
                    Err(ex) => {
                        if i + 1 < n {
                            i = i + 1;
                        } else {
                            return Err(ex);
                        }
                    },
                }
            }
            proof {
                assert(false);
            }
            Err(ParseException::new(loc, "No match found"))
        },
        NodeRef::ZeroOrMore(z) => {
            let (end, acc) = eval_star(rules, &*z.element, input, skip, loc, fuel);
            Ok((end, acc))
        },
        NodeRef::OneOrMore(o) => {
            match eval(rules, expr_ref(&*o.element), input, skip, loc, fuel) {
                Err(_) => {
                    Err(ParseException::new(loc, "Expected at least one match"))
                },
                Ok((end, mut res)) => {
                    proof {
                        lemma_parse_progress(rv, *o.element, input@, skip, loc as int, fuel as nat);
                    }
                    if end <= loc {
                        Err(ParseException::new(loc, "Expected at least one match"))
                    } else {
                        let (end2, rest) = eval_star(rules, &*o.element, input, skip, end, fuel);
                        proof {
                            lemma_with_prefix_assoc(
                                Seq::empty(),
                                res@.items,
                                spec_parse_star(
                                    rv,
                                    *o.element,
                                    input@,
                                    skip,
                                    end as int,
                                    fuel as nat,
                                ),
                            );
                        }
                        res.extend(rest);
                        Ok((end2, res))
                    }
                },
            }
        },
        NodeRef::Optional(o) => {
            match eval(rules, expr_ref(&*o.element), input, skip, loc, fuel) {
                Ok((end, res)) => {
                    proof {
                        lemma_parse_progress(rv, *o.element, input@, skip, loc as int, fuel as nat);
                    }
                    Ok((end, res))
                },
                Err(_) => {
                    Ok((loc, ParseResults::new()))
                },
            }
        },
        NodeRef::Exactly(x) => {
            let n = x.count;
            let mut k: usize = 0;
            let mut cur = loc;
            let mut acc = ParseResults::new();
            proof {
                lemma_with_prefix_empty(
                    spec_parse_exactly(
                        rv,
                        *x.element,
                        input@,
                        skip,
                        loc as int,
                        n as int,
                        fuel as nat,
                    ),
                );
            }
            while k < n
                invariant
                    k <= n,
                    loc <= cur <= input@.len(),
                    acc@.named.len() == 0,
                    spec_parse_exactly(
                        rv,
                        *x.element,
                        input@,
                        skip,
                        loc as int,
                        n as int,
                        fuel as nat,
                    ) == with_prefix(
                        acc@.items,
                        spec_parse_exactly(
                            rv,
                            *x.element,
                            input@,
                            skip,
                            cur as int,
                            n - k,
                            fuel as nat,
                        ),
                    ),
                decreases n - k,
            {
                match eval(rules, expr_ref(&*x.element), input, skip, cur, fuel) {
                    Err(ex) => {
                        return Err(ex);
                    },
                    Ok((end, res)) => {
                        proof {
                            lemma_parse_progress(
                                rv,
                                *x.element,
                                input@,
                                skip,
                                cur as int,
                                fuel as nat,
                            );
                        }
                        if end <= cur {
                            return Err(ParseException::new(cur, "Exactly: zero-width match"));
                        }
                        proof {
                            lemma_with_prefix_assoc(
                                acc@.items,
                                res@.items,
                                spec_parse_exactly(
                                    rv,
                                    *x.element,
                                    input@,
                                    skip,
                                    end as int,
                                    n - k - 1,
                                    fuel as nat,
                                ),
                            );
                        }
                        acc.extend(res);
                        cur = end;
                        k = k + 1;
                    },
                }
            }
            proof {
                assert(acc@.items + Seq::<crate::results::SpecItem>::empty() =~= acc@.items);
            }
            Ok((cur, acc))
        },
        NodeRef::Group(g) => {
            match eval(rules, expr_ref(&*g.element), input, skip, loc, fuel) {
                Ok((end, res)) => {
                    proof {
                        lemma_parse_progress(rv, *g.element, input@, skip, loc as int, fuel as nat);
                    }
                    Ok((end, ParseResults::from_group(res)))
                },
                Err(ex) => {
                    Err(ex)
                },
            }
        },
        NodeRef::Suppress(s) => {
            match probe(rules, expr_ref(&*s.element), input, skip, loc, fuel) {
                Some(end) => {
                    Ok((end, ParseResults::new()))
                },
                None => {
                    Err(ParseException::new(loc, "Suppress: no match"))
                },
            }
        },
        NodeRef::Combine(c) => {
            match eval(rules, expr_ref(&*c.element), input, false, loc, fuel) {
                Ok((end, _res)) => {
                    proof {
                        lemma_parse_progress(
                            rv,
                            *c.element,
                            input@,
                            false,
                            loc as int,
                            fuel as nat,
                        );
                    }
                    let tok = input.substring_char(loc, end);
                    Ok((end, ParseResults::from_single(tok)))
                },
                Err(ex) => {
                    Err(ex)
                },
            }
        },
        NodeRef::SkipTo(s) => {
            proof {
                crate::laws::lemma_skip_to_items(
                    rv,
                    *s.target,
                    input@,
                    skip,
                    loc as int,
                    loc as int,
                    fuel as nat,
                );
            }
            match probe_skip_to(rules, &*s.target, input, skip, loc, fuel) {
                Some(pos) => {
                    let tok = input.substring_char(loc, pos);
                    Ok((pos, ParseResults::from_single(tok)))
                },
                None => {
                    Err(ParseException::new(loc, "SkipTo: target not found"))
                },
            }
        },
        NodeRef::Empty(_) => {
            Ok((loc, ParseResults::new()))
        },
        NodeRef::NoMatch(_) => {
            Err(ParseException::new(loc, "NoMatch will never match"))
        },
        NodeRef::Forward(f) => {
            match rules {
                None => {
                    Err(ParseException::new(loc, "Forward not initialized"))
                },
                Some(rt) => {
                    match rt.get(f.slot) {
                        Some(target) => {
                            if fuel == 0 {
                                Err(ParseException::new(loc, "Forward recursion limit reached"))
                            } else {
                                eval(rules, expr_ref(target), input, skip, loc, fuel - 1)
                            }
                        },
                        None => {
                            Err(ParseException::new(loc, "Forward not initialized"))
                        },
                    }
                },
            }
        },
    }
}

/// Match the zero-or-more repetition of `inner` starting at `loc`,
/// accumulating items in match order; repetition never fails.
#[verifier::loop_isolation(false)]
fn eval_star(
    rules: Option<&Rules>,
    inner: &Expr,
    input: &str,
    skip: bool,
    loc: usize,
    fuel: usize,
) -> (r: (usize, ParseResults))
    requires
        loc <= input@.len(),
    ensures
        spec_parse_star(spec_rules_of(rules), *inner, input@, skip, loc as int, fuel as nat) == (
        Outcome::Matched { end: r.0 as int, items: r.1@.items }),
        r.1@.named.len() == 0,
        loc <= r.0 <= input@.len(),
    decreases fuel, inner, 1int,
{
    let ghost rv = spec_rules_of(rules);
    let mut cur = loc;
    let mut acc = ParseResults::new();
    let mut done = false;
    proof {
        lemma_with_prefix_empty(
            spec_parse_star(rv, *inner, input@, skip, loc as int, fuel as nat),
        );
    }
    while !done
        invariant
            loc <= cur <= input@.len(),
            acc@.named.len() == 0,
            spec_parse_star(rv, *inner, input@, skip, loc as int, fuel as nat) == with_prefix(
                acc@.items,
                spec_parse_star(rv, *inner, input@, skip, cur as int, fuel as nat),
            ),
            done ==> spec_parse_star(rv, *inner, input@, skip, cur as int, fuel as nat) == (
            Outcome::Matched { end: cur as int, items: Seq::empty() }),
        decreases input@.len() - cur, (if done { 0int } else { 1int }),
    {
        match eval(rules, expr_ref(inner), input, skip, cur, fuel) {
            Ok((end, res)) => {
                proof {
                    lemma_parse_progress(rv, *inner, input@, skip, cur as int, fuel as nat);
                }
                if end <= cur {
                    done = true;
                } else {
                    proof {
                        lemma_with_prefix_assoc(
                            acc@.items,
                            res@.items,
                            spec_parse_star(rv, *inner, input@, skip, end as int, fuel as nat),
                        );
                    }
                    acc.extend(res);
                    cur = end;
                }
            },
            Err(_) => {
                done = true;
            },
        }
    }
    proof {
        assert(acc@.items + Seq::<crate::results::SpecItem>::empty() =~= acc@.items);
    }
    (cur, acc)
}

/// Scan the whole input for matches of `e`: probe at each position as a
/// pre-filter, run the full match where the probe succeeds, collect its
/// results, and re-anchor at the match end (or one past a zero-width
/// match).
#[verifier::loop_isolation(false)]
pub(crate) fn search_all<'a>(e: NodeRef<'a>, input: &str) -> (r: Vec<ParseResults>)
    ensures
        ({
            let found = crate::semantics::spec_search(
                Seq::<Option<Expr>>::empty(),
                node_view(e),
                input@,
                true,
                0,
                crate::semantics::fuel_for(input@),
            );
            r@.len() == found.len() && forall|i: int| #![trigger r@[i]]
                0 <= i < r@.len() ==> r@[i]@.items == found[i] && r@[i]@.named.len() == 0
        }),
{
    let ghost rv = Seq::<Option<Expr>>::empty();
    let ghost fuel_s = crate::semantics::fuel_for(input@);
    let fuel = fuel_of(input);
    let l = input.unicode_len();
    let mut out: Vec<ParseResults> = Vec::new();
    let mut pos: usize = 0;
    let ghost mut collected = Seq::<Seq<crate::results::SpecItem>>::empty();
    while pos < l
        invariant
            pos <= l,
            out@.len() == collected.len(),
            forall|i: int| #![trigger out@[i]]
                0 <= i < out@.len() ==> out@[i]@.items == collected[i] && out@[i]@.named.len()
                    == 0,
            crate::semantics::spec_search(rv, node_view(e), input@, true, 0, fuel_s) == collected
                + crate::semantics::spec_search(rv, node_view(e), input@, true, pos as int, fuel_s),
        decreases l - pos,
    {
        let ghost rest = crate::semantics::spec_search(
            rv,
            node_view(e),
            input@,
            true,
            pos as int,
            fuel_s,
        );
        match probe(None, e, input, true, pos, fuel) {
            Some(_) => {
                match eval(None, e, input, true, pos, fuel) {
                    Ok((end, res)) => {
                        let ghost prev = collected;
                        proof {
                            collected = collected.push(res@.items);
                            assert(prev + rest =~= collected + crate::semantics::spec_search(
                                rv,
                                node_view(e),
                                input@,
                                true,
                                if pos < end <= input@.len() {
                                    end as int
                                } else {
                                    pos + 1
                                },
                                fuel_s,
                            ));
                        }
                        let ghost res_items = res@.items;
                        let ghost prev_out = out@;
                        out.push(res);
                        proof {
                            assert forall|i: int| #![trigger out@[i]]
                                0 <= i < out@.len() implies out@[i]@.items == collected[i]
                                && out@[i]@.named.len() == 0 by {
                                if i < prev_out.len() {
                                    assert(out@[i] == prev_out[i]);
                                    assert(collected[i] == prev[i]);
                                } else {
                                    assert(out@[i] == out@.last());
                                    assert(out@.last()@.items == res_items);
                                    assert(out@.last()@.named.len() == 0);
                                    assert(collected == prev.push(res_items));
                                    assert(collected[i] == res_items);
                                }
                            }
                        }
                        if end > pos {
                            pos = end;
                        } else {
                            pos = pos + 1;
                        }
                    },
                    Err(_) => {
                        proof {
                            assert(false);
                        }
                    },
                }
            },
            None => {
                pos = pos + 1;
            },
        }
    }
    proof {
        assert(crate::semantics::spec_search(rv, node_view(e), input@, true, pos as int, fuel_s)
            =~= Seq::<Seq<crate::results::SpecItem>>::empty());
        assert(collected + Seq::<Seq<crate::results::SpecItem>>::empty() =~= collected);
    }
    out
}

} // verus!
