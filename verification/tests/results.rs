use pyparsing_rs::alphanums;
use pyparsing_rs::alphas;
use pyparsing_rs::context::ParseContext;
use pyparsing_rs::exceptions::ParseException;
use pyparsing_rs::exceptions::ParseFatalException;
use pyparsing_rs::nums;
use pyparsing_rs::printables;
use pyparsing_rs::results::Item;
use pyparsing_rs::results::ParseResults;

#[test]
fn results_push_and_len() {
    let mut r = ParseResults::new();
    assert!(r.is_empty());
    r.push("a");
    r.push_string("b".to_string());
    assert_eq!(r.len(), 2);
    assert_eq!(r.as_list(), vec!["a".to_string(), "b".to_string()]);
    assert_eq!(r.get(0).unwrap(), "a");
    assert_eq!(r.get(1).unwrap(), "b");
    assert!(r.get(2).is_none());
}

#[test]
fn results_from_single_and_vec() {
    let r = ParseResults::from_single("tok");
    assert_eq!(r.as_list(), vec!["tok".to_string()]);
    let r2 = ParseResults::from_vec(vec!["x".to_string(), "y".to_string()]);
    assert_eq!(r2.as_list(), vec!["x".to_string(), "y".to_string()]);
}

#[test]
fn results_named_lookup() {
    let mut r = ParseResults::new();
    r.push("alpha");
    r.push("beta");
    r.set_name("first", 0);
    r.set_name("second", 1);
    assert_eq!(r.get_named("first").unwrap(), "alpha");
    assert_eq!(r.get_named("second").unwrap(), "beta");
    assert!(r.get_named("third").is_none());
}

#[test]
fn results_named_later_wins() {
    let mut r = ParseResults::new();
    r.push("a");
    r.push("b");
    r.set_name("k", 0);
    r.set_name("k", 1);
    assert_eq!(r.get_named("k").unwrap(), "b");
}

#[test]
fn results_named_out_of_range() {
    let mut r = ParseResults::new();
    r.push("a");
    r.set_name("k", 9);
    assert!(r.get_named("k").is_none());
}

#[test]
fn results_extend_shifts_named() {
    let mut r1 = ParseResults::new();
    r1.push("a");
    let mut r2 = ParseResults::new();
    r2.push("b");
    r2.set_name("x", 0);
    r1.extend(r2);
    assert_eq!(r1.as_list(), vec!["a".to_string(), "b".to_string()]);
    assert_eq!(r1.get_named("x").unwrap(), "b");
}

#[test]
fn results_group_items() {
    let mut inner = ParseResults::new();
    inner.push("i");
    let r = ParseResults::from_group(inner);
    assert_eq!(r.len(), 1);
    assert!(r.get(0).is_none());
    assert_eq!(r.as_list(), vec!["i".to_string()]);
    match &r.as_vec()[0] {
        Item::Group(g) => assert_eq!(g.len(), 1),
        Item::Token(_) => panic!("expected a group item"),
    }
}

#[test]
fn results_push_item() {
    let mut r = ParseResults::new();
    r.push_item(Item::Token("t".to_string()));
    r.push_item(Item::Group(vec![Item::Token("u".to_string())]));
    assert_eq!(r.len(), 2);
    assert_eq!(r.as_list(), vec!["t".to_string(), "u".to_string()]);
}

#[test]
fn exceptions_carry_location_and_message() {
    let e = ParseException::new(5, "what was expected");
    assert_eq!(e.loc, 5);
    assert_eq!(e.msg, "what was expected");
    let f = ParseFatalException::new(7, "structural error");
    assert_eq!(f.loc, 7);
    assert_eq!(f.msg, "structural error");
}

#[test]
fn context_holds_input() {
    let ctx = ParseContext::new("hello");
    assert_eq!(ctx.input(), "hello");
    assert!(ctx.skip_whitespace);
}

#[test]
fn character_sets() {
    assert_eq!(alphas().len(), 52);
    assert_eq!(alphanums().len(), 62);
    assert_eq!(nums(), "0123456789");
    assert!(printables().contains('~'));
    assert!(!printables().contains(' '));
}
