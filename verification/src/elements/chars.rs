//! Leaf matchers over character classes and regular expressions.

use vstd::prelude::*;

use crate::context::ParseContext;
use crate::context::skip_ws;
use crate::engine::NodeRef;
use crate::engine::eval;
use crate::engine::fuel_of;
use crate::engine::probe;
use crate::exceptions::ParseException;
use crate::parser::ParseResult;
use crate::parser::ParserElement;
use crate::parser::ParserKind;
use crate::results::ParseResults;
use crate::elements::Expr;
use vstd::string::StrSliceExecFns;
use vstd::string::StringExecFns;

verus! {

/// Match a run of characters: the first must come from the head set, the
/// following ones from the body set (the head set by default), counted in
/// Unicode scalar values and subject to a minimum length (default 1) and an
/// optional maximum (0 = unlimited).
#[derive(Debug)]
pub struct Word {
    pub init_chars: Vec<char>,
    pub body_chars: Vec<char>,
    pub min_len: usize,
    pub max_len: usize,
    pub name: String,
}

/// The display name a [`Word`] introduces itself with in diagnostics: the
/// head set, shortened to its first eight characters.
pub open spec fn word_name(init: Seq<char>) -> Seq<char> {
    "W:("@ + (if init.len() <= 8 {
        init
    } else {
        init.subrange(0, 8)
    }) + "...)"@
}

impl Word {
    pub fn new(init_chars: &str) -> (r: Word)
        ensures
            r.init_chars@ == init_chars@,
            r.body_chars@ == init_chars@,
            r.min_len == 1,
            r.max_len == 0,
            r.name@ == word_name(init_chars@),
    {
        let l = init_chars.unicode_len();
        let take = if l <= 8 {
            l
        } else {
            8
        };
        let prefix = init_chars.substring_char(0, take);
        let mut name = String::from_str("W:(");
        name.append(prefix);
        name.append("...)");
        proof {
            if init_chars@.len() <= 8 {
                assert(init_chars@.subrange(0, init_chars@.len() as int) =~= init_chars@);
            }
        }
        Word {
            init_chars: chars_of(init_chars),
            body_chars: chars_of(init_chars),
            min_len: 1,
            max_len: 0,
            name,
        }
    }

    /// Replace the body character set, keeping the head set.
    pub fn with_body_chars(self, body: &str) -> (r: Word)
        ensures
            r.init_chars@ == self.init_chars@,
            r.body_chars@ == body@,
            r.min_len == self.min_len,
            r.max_len == self.max_len,
            r.name@ == self.name@,
    {
        Word { body_chars: chars_of(body), ..self }
    }

    /// Require at least `n` characters in a match.
    pub fn with_min_len(self, n: usize) -> (r: Word)
        ensures
            r.init_chars@ == self.init_chars@,
            r.body_chars@ == self.body_chars@,
            r.min_len == n,
            r.max_len == self.max_len,
            r.name@ == self.name@,
    {
        Word { min_len: n, ..self }
    }

    /// Allow at most `n` characters in a match; 0 means unlimited.
    pub fn with_max_len(self, n: usize) -> (r: Word)
        ensures
            r.init_chars@ == self.init_chars@,
            r.body_chars@ == self.body_chars@,
            r.min_len == self.min_len,
            r.max_len == n,
            r.name@ == self.name@,
    {
        Word { max_len: n, ..self }
    }
}

/// The characters of `s`, in order.
fn chars_of(s: &str) -> (r: Vec<char>)
    ensures
        r@ == s@,
{
    let l = s.unicode_len();
    let mut r: Vec<char> = Vec::new();
    let mut i: usize = 0;
    while i < l
        invariant
            i <= l,
            l == s@.len(),
            r@ == s@.subrange(0, i as int),
        decreases l - i,
    {
        r.push(s.get_char(i));
        proof {
            assert(r@ =~= s@.subrange(0, i + 1));
        }
        i = i + 1;
    }
    proof {
        assert(s@.subrange(0, s@.len() as int) =~= s@);
    }
    r
}

/// Whether the pattern is accepted by the regular-expression engine.
pub uninterp spec fn regex_pattern_ok(pattern: Seq<char>) -> bool;

/// The text of the leftmost match of the pattern in the haystack, if any.
pub uninterp spec fn regex_first_match(pattern: Seq<char>, hay: Seq<char>) -> Option<Seq<char>>;

/// Relies on `regex::Regex::new`: whether a pattern compiles is a function
/// of the pattern text alone.
#[verifier::external_body]
fn regex_validate(pattern: &str) -> (r: Result<(), regex::Error>)
    ensures
        r is Ok <==> regex_pattern_ok(pattern@),
{
    match regex::Regex::new(pattern) {
        Ok(_) => Ok(()),
        Err(e) => Err(e),
    }
}

/// Relies on `regex::Regex::new` and `regex::Regex::find`: the leftmost
/// match of a pattern in a haystack is a function of the two texts alone,
/// and is a substring of the haystack.  The compiled program is rebuilt from
/// the pattern text on each call so that the result is tied to that text.
#[verifier::external_body]
fn regex_find_first<'h>(pattern: &str, hay: &'h str) -> (r: Option<&'h str>)
    ensures
        regex_pattern_ok(pattern@) ==> match r {
            Some(m) => regex_first_match(pattern@, hay@) == Some(m@) && m@.len() <= hay@.len(),
            None => regex_first_match(pattern@, hay@) is None,
        },
        !regex_pattern_ok(pattern@) ==> r is None,
{
    match regex::Regex::new(pattern) {
        Ok(re) => re.find(hay).map(|m| m.as_str()),
        Err(_) => None,
    }
}

#[verifier::external_type_specification]
#[verifier::external_body]
pub struct ExRegexError(regex::Error);

/// The pattern as handed to the engine: anchored to the current offset by
/// wrapping it in `^(?:...)` unless it already starts with `^`.
pub open spec fn spec_anchored(pattern: Seq<char>) -> Seq<char> {
    if pattern.len() > 0 && pattern[0] == '^' {
        pattern
    } else {
        "^(?:"@ + pattern + ")"@
    }
}

/// Match a regular expression, anchored to the current offset: a pattern not
/// already `^`-anchored is wrapped so it may only match starting exactly
/// there.
#[derive(Debug)]
pub struct RegexMatch {
    pub pattern_str: String,
    pub anchored: String,
}

impl RegexMatch {
    pub fn new(pattern: &str) -> (r: Result<RegexMatch, regex::Error>)
        ensures
            r is Ok <==> regex_pattern_ok(spec_anchored(pattern@)),
            r matches Ok(m) ==> m.pattern_str@ == pattern@ && m.anchored@ == spec_anchored(
                pattern@,
            ),
    {
        let anchored = if pattern.unicode_len() > 0 && pattern.get_char(0) == '^' {
            pattern.to_owned()
        } else {
            let mut a = String::from_str("^(?:");
            a.append(pattern);
            a.append(")");
            a
        };
        match regex_validate(anchored.as_str()) {
            Ok(_) => Ok(RegexMatch { pattern_str: pattern.to_owned(), anchored }),
            Err(e) => Err(e),
        }
    }
}

/// Find the leftmost match of this element's anchored pattern in `hay`.
/// Returns `None` when the pattern does not compile, which `new` rules out
/// for values it built.
pub(crate) fn regex_search<'h>(m: &RegexMatch, hay: &'h str) -> (r: Option<&'h str>)
    ensures
        regex_pattern_ok(m.anchored@) ==> match r {
            Some(t) => regex_first_match(m.anchored@, hay@) == Some(t@) && t@.len() <= hay@.len(),
            None => regex_first_match(m.anchored@, hay@) is None,
        },
        !regex_pattern_ok(m.anchored@) ==> r is None,
{
    regex_find_first(m.anchored.as_str(), hay)
}

impl ParserElement for Word {
    open spec fn as_expr(&self) -> Expr {
        Expr::Word(*self)
    }

    fn parse_impl<'a>(&self, ctx: &mut ParseContext<'a>, loc: usize) -> ParseResult {
        let fuel = fuel_of(ctx.input());
        eval(ctx.rules_ref(), NodeRef::Word(self), ctx.input(), ctx.skip_whitespace, loc, fuel)
    }

    fn try_match_at(&self, input: &str, loc: usize) -> Option<usize> {
        probe(None, NodeRef::Word(self), input, true, loc, fuel_of(input))
    }

    fn parse_string(&self, input: &str) -> Result<ParseResults, ParseException> {
        let start = skip_ws(input, 0);
        match eval(None, NodeRef::Word(self), input, true, start, fuel_of(input)) {
            Ok((_end, res)) => Ok(res),
            Err(e) => Err(e),
        }
    }

    fn parser_kind(&self) -> ParserKind {
        ParserKind::Normal
    }

    fn skip_whitespace_before(&self) -> bool {
        true
    }
}

impl ParserElement for RegexMatch {
    open spec fn as_expr(&self) -> Expr {
        Expr::Regex(*self)
    }

    fn parse_impl<'a>(&self, ctx: &mut ParseContext<'a>, loc: usize) -> ParseResult {
        let fuel = fuel_of(ctx.input());
        eval(ctx.rules_ref(), NodeRef::Regex(self), ctx.input(), ctx.skip_whitespace, loc, fuel)
    }

    fn try_match_at(&self, input: &str, loc: usize) -> Option<usize> {
        probe(None, NodeRef::Regex(self), input, true, loc, fuel_of(input))
    }

    fn parse_string(&self, input: &str) -> Result<ParseResults, ParseException> {
        let start = skip_ws(input, 0);
        match eval(None, NodeRef::Regex(self), input, true, start, fuel_of(input)) {
            Ok((_end, res)) => Ok(res),
            Err(e) => Err(e),
        }
    }

    fn parser_kind(&self) -> ParserKind {
        ParserKind::Normal
    }

    fn skip_whitespace_before(&self) -> bool {
        true
    }
}

} // verus!
