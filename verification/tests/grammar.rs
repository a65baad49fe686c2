use pyparsing_rs::alphas;
use pyparsing_rs::context::ParseContext;
use pyparsing_rs::context::skip_ws;
use pyparsing_rs::elements::Expr;
use pyparsing_rs::elements::chars::RegexMatch;
use pyparsing_rs::elements::chars::Word;
use pyparsing_rs::elements::combinators::And;
use pyparsing_rs::elements::combinators::MatchFirst;
use pyparsing_rs::elements::forward::Forward;
use pyparsing_rs::elements::forward::Rules;
use pyparsing_rs::elements::literals::Keyword;
use pyparsing_rs::elements::literals::Literal;
use pyparsing_rs::elements::repetition::Exactly;
use pyparsing_rs::elements::repetition::OneOrMore;
use pyparsing_rs::elements::repetition::Optional;
use pyparsing_rs::elements::repetition::ZeroOrMore;
use pyparsing_rs::elements::structure::Combine;
use pyparsing_rs::elements::structure::Empty;
use pyparsing_rs::elements::structure::Group;
use pyparsing_rs::elements::structure::NoMatch;
use pyparsing_rs::elements::structure::SkipTo;
use pyparsing_rs::elements::structure::Suppress;
use pyparsing_rs::nums;
use pyparsing_rs::parser::ParserElement;
use pyparsing_rs::parser::ParserKind;
use pyparsing_rs::results::Item;

fn lit(s: &str) -> Expr {
    Expr::Literal(Literal::new(s))
}

fn word(s: &str) -> Expr {
    Expr::Word(Word::new(s))
}

#[test]
fn literal_match() {
    let l = Literal::new("hello");
    let r = l.parse_string("hello world").unwrap();
    assert_eq!(r.as_list(), vec!["hello".to_string()]);
}

#[test]
fn literal_mismatch_message() {
    let l = Literal::new("b");
    let e = l.parse_string("ab").unwrap_err();
    assert_eq!(e.loc, 0);
    assert_eq!(e.msg, "Expected 'b'");
}

#[test]
fn literal_empty_always_matches() {
    let l = Literal::new("");
    let r = l.parse_string("xyz").unwrap();
    assert_eq!(r.as_list(), vec!["".to_string()]);
}

#[test]
fn literal_at_offset() {
    let l = Literal::new("cd");
    let mut ctx = ParseContext::new("abcd");
    let (end, r) = l.parse_impl(&mut ctx, 2).unwrap();
    assert_eq!(end, 4);
    assert_eq!(r.as_list(), vec!["cd".to_string()]);
}

#[test]
fn keyword_boundary() {
    // matching "if" in "ifx" must fail at offset 0, but succeed in "if x"
    let k = Keyword::new("if");
    assert!(k.try_match_at("ifx", 0).is_none());
    assert_eq!(k.try_match_at("if x", 0), Some(2));
    let e = k.parse_string("ifx").unwrap_err();
    assert_eq!(e.loc, 0);
    assert_eq!(e.msg, "Expected keyword 'if'");
    let r = k.parse_string("if x").unwrap();
    assert_eq!(r.as_list(), vec!["if".to_string()]);
}

#[test]
fn keyword_at_end_of_input() {
    let k = Keyword::new("end");
    let r = k.parse_string("end").unwrap();
    assert_eq!(r.as_list(), vec!["end".to_string()]);
}

#[test]
fn word_basic() {
    let w = Word::new(alphas());
    let r = w.parse_string("abc123").unwrap();
    assert_eq!(r.as_list(), vec!["abc".to_string()]);
}

#[test]
fn word_body_chars() {
    let w = Word::new(alphas()).with_body_chars("abcdefghijklmnopqrstuvwxyz0123456789");
    let r = w.parse_string("a1b2!").unwrap();
    assert_eq!(r.as_list(), vec!["a1b2".to_string()]);
}

#[test]
fn word_min_len() {
    let w = Word::new(alphas()).with_min_len(4);
    assert!(w.parse_string("abc!").is_err());
    let r = Word::new(alphas()).with_min_len(3).parse_string("abc!").unwrap();
    assert_eq!(r.as_list(), vec!["abc".to_string()]);
}

#[test]
fn word_max_len() {
    let w = Word::new(alphas()).with_max_len(2);
    let r = w.parse_string("abcd").unwrap();
    assert_eq!(r.as_list(), vec!["ab".to_string()]);
}

#[test]
fn word_message_uses_shortened_name() {
    let w = Word::new("abcdefghij");
    let e = w.parse_string("9").unwrap_err();
    assert_eq!(e.msg, "Expected W:(abcdefgh...)");
    let e2 = Word::new("abc").parse_string("9").unwrap_err();
    assert_eq!(e2.msg, "Expected W:(abc...)");
}

#[test]
fn word_unicode_offsets_count_chars() {
    let w = Word::new("\u{3b1}\u{3b2}\u{3b3}");
    let mut ctx = ParseContext::new("\u{3b1}\u{3b2}\u{3b3}x");
    let (end, r) = w.parse_impl(&mut ctx, 0).unwrap();
    assert_eq!(end, 3);
    assert_eq!(r.as_list(), vec!["\u{3b1}\u{3b2}\u{3b3}".to_string()]);
}

#[test]
fn regex_prefix_match() {
    let re = RegexMatch::new("[0-9]+").unwrap();
    let r = re.parse_string("123abc").unwrap();
    assert_eq!(r.as_list(), vec!["123".to_string()]);
}

#[test]
fn regex_is_anchored() {
    let re = RegexMatch::new("x").unwrap();
    assert!(re.try_match_at("yx", 0).is_none());
    assert_eq!(re.try_match_at("yx", 1), Some(2));
}

#[test]
fn regex_keeps_explicit_anchor() {
    let re = RegexMatch::new("^ab").unwrap();
    let r = re.parse_string("ab").unwrap();
    assert_eq!(r.as_list(), vec!["ab".to_string()]);
}

#[test]
fn regex_invalid_pattern() {
    assert!(RegexMatch::new("[").is_err());
}

#[test]
fn regex_failure_message() {
    let re = RegexMatch::new("[0-9]+").unwrap();
    let e = re.parse_string("abc").unwrap_err();
    assert_eq!(e.msg, "Expected match for /[0-9]+/");
}

#[test]
fn and_sequences_in_order() {
    let g = And::new(vec![lit("ab"), lit("cd")]);
    let r = g.parse_string("abcd").unwrap();
    assert_eq!(r.as_list(), vec!["ab".to_string(), "cd".to_string()]);
}

#[test]
fn and_short_circuit_offset() {
    // And([A, B]) fails at the offset A left off when B fails there
    let g = And::new(vec![lit("ab"), lit("cd")]);
    let mut ctx = ParseContext::new("abxy");
    let e = g.parse_impl(&mut ctx, 0).unwrap_err();
    assert_eq!(e.loc, 2);
    assert_eq!(e.msg, "Expected 'cd'");
}

#[test]
fn and_skips_whitespace_between_elements() {
    let g = And::new(vec![lit("a"), lit("b")]);
    let r = g.parse_string("a \t b").unwrap();
    assert_eq!(r.as_list(), vec!["a".to_string(), "b".to_string()]);
}

#[test]
fn and_empty_matches_nothing() {
    let g = And::new(vec![]);
    let r = g.parse_string("a").unwrap();
    assert!(r.is_empty());
}

#[test]
fn match_first_order_sensitivity() {
    // the first listed alternative wins, even if a later one is longer
    let g = MatchFirst::new(vec![lit("a"), lit("ab")]);
    let r = g.parse_string("ab").unwrap();
    assert_eq!(r.as_list(), vec!["a".to_string()]);
}

#[test]
fn match_first_reports_last_failure() {
    let g = MatchFirst::new(vec![lit("x"), lit("yz")]);
    let e = g.parse_string("ab").unwrap_err();
    assert_eq!(e.msg, "Expected 'yz'");
}

#[test]
fn match_first_empty_fails() {
    let g = MatchFirst::new(vec![]);
    let e = g.parse_string("a").unwrap_err();
    assert_eq!(e.msg, "No match found");
}

#[test]
fn one_or_more_vs_zero_or_more() {
    // OneOrMore fails on empty input; ZeroOrMore succeeds with no tokens
    let one = OneOrMore::new(lit("x"));
    let e = one.parse_string("").unwrap_err();
    assert_eq!(e.msg, "Expected at least one match");
    let zero = ZeroOrMore::new(lit("x"));
    let r = zero.parse_string("").unwrap();
    assert!(r.is_empty());
}

#[test]
fn one_or_more_collects_all() {
    let g = OneOrMore::new(lit("x"));
    let mut ctx = ParseContext::new("xxxy");
    let (end, r) = g.parse_impl(&mut ctx, 0).unwrap();
    assert_eq!(end, 3);
    assert_eq!(r.len(), 3);
}

#[test]
fn zero_or_more_stops_on_zero_width() {
    // a zero-width inner match must end the loop, not hang it
    let g = ZeroOrMore::new(Expr::Optional(Optional::new(lit("x"))));
    let r = g.parse_string("y").unwrap();
    assert!(r.is_empty());
}

#[test]
fn optional_swallows_failure() {
    let g = Optional::new(lit("x"));
    let mut ctx = ParseContext::new("y");
    let (end, r) = g.parse_impl(&mut ctx, 0).unwrap();
    assert_eq!(end, 0);
    assert!(r.is_empty());
}

#[test]
fn exactly_counts() {
    let g = Exactly::new(lit("ab"), 2);
    let r = g.parse_string("abab").unwrap();
    assert_eq!(r.as_list(), vec!["ab".to_string(), "ab".to_string()]);
    assert!(Exactly::new(lit("ab"), 3).parse_string("abab").is_err());
}

#[test]
fn exactly_rejects_zero_width() {
    let g = Exactly::new(Expr::Empty(Empty), 2);
    let e = g.parse_string("zz").unwrap_err();
    assert_eq!(e.msg, "Exactly: zero-width match");
}

#[test]
fn exactly_zero_matches_nothing() {
    let g = Exactly::new(lit("ab"), 0);
    let r = g.parse_string("zz").unwrap();
    assert!(r.is_empty());
}

#[test]
fn combine_fusion() {
    // Word + Literal + Word fused into a single token
    let g = Combine::new(Expr::And(And::new(vec![word(alphas()), lit("-"), word(nums())])));
    let r = g.parse_string("ab-12").unwrap();
    assert_eq!(r.as_list(), vec!["ab-12".to_string()]);
    assert_eq!(r.len(), 1);
}

#[test]
fn combine_disables_whitespace_skipping() {
    let fused = Combine::new(Expr::And(And::new(vec![lit("a"), lit("b")])));
    assert!(fused.parse_string("a b").is_err());
    let plain = And::new(vec![lit("a"), lit("b")]);
    assert!(plain.parse_string("a b").is_ok());
}

#[test]
fn suppress_silence() {
    let g = And::new(vec![
        Expr::Suppress(Suppress::new(lit("("))),
        word(alphas()),
        Expr::Suppress(Suppress::new(lit(")"))),
    ]);
    let r = g.parse_string("(abc)").unwrap();
    assert_eq!(r.as_list(), vec!["abc".to_string()]);
    assert_eq!(r.len(), 1);
}

#[test]
fn suppress_failure_message() {
    let g = Suppress::new(lit("("));
    let e = g.parse_string("x").unwrap_err();
    assert_eq!(e.msg, "Suppress: no match");
}

#[test]
fn skip_to_minimality() {
    // the scan stops at the first position where the target matches
    let g = SkipTo::new(lit(";"));
    let mut ctx = ParseContext::new("foo;");
    let (end, r) = g.parse_impl(&mut ctx, 0).unwrap();
    assert_eq!(end, 3);
    assert_eq!(r.as_list(), vec!["foo".to_string()]);
}

#[test]
fn skip_to_empty_skip() {
    let g = SkipTo::new(lit("a"));
    let mut ctx = ParseContext::new("abc");
    let (end, r) = g.parse_impl(&mut ctx, 0).unwrap();
    assert_eq!(end, 0);
    assert_eq!(r.as_list(), vec!["".to_string()]);
}

#[test]
fn skip_to_not_found() {
    let g = SkipTo::new(lit(";"));
    let e = g.parse_string("foo").unwrap_err();
    assert_eq!(e.loc, 0);
    assert_eq!(e.msg, "SkipTo: target not found");
}

#[test]
fn empty_and_no_match() {
    let r = Empty.parse_string("abc").unwrap();
    assert!(r.is_empty());
    let e = NoMatch.parse_string("abc").unwrap_err();
    assert_eq!(e.msg, "NoMatch will never match");
}

#[test]
fn group_nests_results() {
    let g = Group::new(Expr::And(And::new(vec![lit("a"), lit("b")])));
    let r = g.parse_string("ab").unwrap();
    assert_eq!(r.len(), 1);
    assert!(r.get(0).is_none());
    match &r.as_vec()[0] {
        Item::Group(inner) => assert_eq!(inner.len(), 2),
        Item::Token(_) => panic!("expected a nested group"),
    }
    assert_eq!(r.as_list(), vec!["a".to_string(), "b".to_string()]);
}

#[test]
fn round_trip_tokens_rebuild_input() {
    // a grammar of literals, keywords, words and sequencing only:
    // joining the tokens reproduces the matched substring
    let g = And::new(vec![lit("ab"), word(nums()), lit("cd")]);
    let input = "ab12cd";
    let r = g.parse_string(input).unwrap();
    let joined: String = r.as_list().concat();
    assert_eq!(joined, input);
}

#[test]
fn forward_recursion() {
    // p := "(" p ")" | "x", reached through a bound deferred slot
    let mut rules = Rules::new();
    let f = Forward::new(&mut rules);
    assert_eq!(rules.len(), 1);
    let body = MatchFirst::new(vec![
        Expr::And(And::new(vec![lit("("), Expr::Forward(f), lit(")")])),
        lit("x"),
    ]);
    f.set(&mut rules, Expr::MatchFirst(body));
    let mut ctx = ParseContext::with_rules("((x))", &rules);
    let g = Expr::Forward(f);
    let (end, r) = g.parse_impl(&mut ctx, 0).unwrap();
    assert_eq!(end, 5);
    assert_eq!(
        r.as_list(),
        vec![
            "(".to_string(),
            "(".to_string(),
            "x".to_string(),
            ")".to_string(),
            ")".to_string(),
        ]
    );
}

#[test]
fn forward_unbound_fails() {
    let mut rules = Rules::new();
    let f = Forward::new(&mut rules);
    let e = Expr::Forward(f).parse_string("x").unwrap_err();
    assert_eq!(e.msg, "Forward not initialized");
}

#[test]
fn forward_left_recursion_hits_limit() {
    // a left-recursive rule consumes no input; the expansion budget stops it
    let mut rules = Rules::new();
    let f = Forward::new(&mut rules);
    f.set(&mut rules, Expr::And(And::new(vec![Expr::Forward(f), lit("a")])));
    let mut ctx = ParseContext::with_rules("aa", &rules);
    let e = Expr::Forward(f).parse_impl(&mut ctx, 0).unwrap_err();
    assert_eq!(e.msg, "Forward recursion limit reached");
}

#[test]
fn parser_kind_tags() {
    assert_eq!(Literal::new("a").parser_kind(), ParserKind::Normal);
    assert_eq!(And::new(vec![]).parser_kind(), ParserKind::Complex);
    assert_eq!(Group::new(lit("a")).parser_kind(), ParserKind::Group);
    assert_eq!(Suppress::new(lit("a")).parser_kind(), ParserKind::Suppress);
    assert!(Literal::new("a").skip_whitespace_before());
}

#[test]
fn probe_agrees_with_parse() {
    let g = And::new(vec![lit("a"), lit("b")]);
    assert_eq!(g.try_match_at("a b", 0), Some(3));
    assert!(g.try_match_at("a c", 0).is_none());
}

#[test]
fn search_string_finds_all() {
    let g = And::new(vec![lit("ab")]);
    let found = g.search_string("xxabyyabzz");
    assert_eq!(found.len(), 2);
    assert_eq!(found[0].as_list(), vec!["ab".to_string()]);
    assert_eq!(found[1].as_list(), vec!["ab".to_string()]);
}

#[test]
fn search_string_match_first() {
    let g = MatchFirst::new(vec![lit("a"), lit("b")]);
    let found = g.search_string("xaxb");
    assert_eq!(found.len(), 2);
    assert_eq!(found[0].as_list(), vec!["a".to_string()]);
    assert_eq!(found[1].as_list(), vec!["b".to_string()]);
}

#[test]
fn parse_string_skips_leading_whitespace() {
    let l = Literal::new("a");
    let r = l.parse_string("   a").unwrap();
    assert_eq!(r.as_list(), vec!["a".to_string()]);
}

#[test]
fn skip_ws_positions() {
    assert_eq!(skip_ws(" \t\na", 0), 3);
    assert_eq!(skip_ws("a", 0), 0);
    assert_eq!(skip_ws("  ", 0), 2);
    assert_eq!(skip_ws("ab  c", 2), 4);
}
