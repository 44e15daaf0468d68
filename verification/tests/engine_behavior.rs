//! Behavior of the primitives, the algebra and the repetition combinators,
//! exercised through the public engine with the real pattern crate linked.

use combinator_engine::builder::{escaped_quoted, whitespace};
use combinator_engine::{Parser, Value};

fn lit(s: &str) -> Parser {
    Parser::literal(s.as_bytes().to_vec())
}

fn text(s: &str) -> Value {
    Value::Text(s.as_bytes().to_vec())
}

#[test]
fn literal_sequence_consumes_all() {
    // literal "ab" then "c" sequenced, run on "abc": succeeds, consumes all 3.
    let p = lit("ab").and(lit("c"));
    let (out, end) = p.run_with_out(b"abc");
    assert_eq!(end, 3);
    assert_eq!(
        out,
        Some(Value::Pair(Box::new(text("ab")), Box::new(text("c"))))
    );
}

#[test]
fn ordered_choice_picks_second_on_first_failure() {
    // choice of "true" and "false" on "false": succeeds, remainder empty.
    let p = lit("true").or(lit("false"));
    let (out, end) = p.run_with_out(b"false");
    assert_eq!(out, Some(text("false")));
    assert_eq!(end, 5);
}

#[test]
fn ordered_choice_first_success_wins() {
    // the left alternative wins even when the right one matches more.
    let p = lit("a").or(lit("ab"));
    let (out, end) = p.run_with_out(b"ab");
    assert_eq!(out, Some(text("a")));
    assert_eq!(end, 1);
}

#[test]
fn failure_leaves_input_untouched() {
    // non-leakage: a failing sequence reverts to the original input even
    // though its left half matched.
    let p = lit("ab").and(lit("c"));
    let (out, end) = p.run_with_out(b"abd");
    assert!(out.is_none());
    assert_eq!(end, 0);
}

#[test]
fn prediction_rejects_only_unmatchable_leads() {
    // quoted string admits only the opening quote; a rejected lead fails.
    let p = escaped_quoted();
    assert!(!p.first_match(b'x'));
    assert!(p.first_match(b'"'));
    let (out, end) = p.run_with_out(b"xyz");
    assert!(out.is_none());
    assert_eq!(end, 0);
    // literal admits exactly its first byte; choice admits the union.
    let p = lit("true").or(lit("false"));
    assert!(p.first_match(b't'));
    assert!(p.first_match(b'f'));
    assert!(!p.first_match(b'x'));
}

#[test]
fn whitespace_always_succeeds() {
    let p = whitespace();
    let (out, end) = p.run_with_out(b" \t\r\nx");
    assert_eq!(out, Some(Value::Unit));
    assert_eq!(end, 4);
    let (out, end) = p.run_with_out(b"x");
    assert_eq!(out, Some(Value::Unit));
    assert_eq!(end, 0);
}

#[test]
fn quoted_string_extraction() {
    let p = escaped_quoted();
    let (out, end) = p.run_with_out(b"\"abc\"def");
    assert_eq!(out, Some(text("abc")));
    assert_eq!(end, 5);
    // an escaped quote does not close the string
    let (out, end) = p.run_with_out(b"\"a\\\"b\"rest");
    assert_eq!(out, Some(text("a\\\"b")));
    assert_eq!(end, 6);
    // no closing quote: failure reverts to the original input
    let (out, end) = p.run_with_out(b"\"abc");
    assert!(out.is_none());
    assert_eq!(end, 0);
    // empty string
    let (out, end) = p.run_with_out(b"\"\"");
    assert_eq!(out, Some(text("")));
    assert_eq!(end, 2);
}

#[test]
fn pattern_matches_only_at_start() {
    let p = Parser::pattern(b"[a-z]+".to_vec());
    let (out, end) = p.run_with_out(b"abc1");
    assert_eq!(out, Some(text("abc")));
    assert_eq!(end, 3);
    // a match further in is not a match at the start
    let (out, end) = p.run_with_out(b"1abc");
    assert!(out.is_none());
    assert_eq!(end, 0);
    // an empty match does not count
    let q = Parser::pattern(b"[a-z]*".to_vec());
    let (out, end) = q.run_with_out(b"123");
    assert!(out.is_none());
    assert_eq!(end, 0);
    // a pattern that does not compile matches nothing
    let bad = Parser::pattern(b"(".to_vec());
    let (out, end) = bad.run_with_out(b"(((");
    assert!(out.is_none());
    assert_eq!(end, 0);
}

#[test]
fn digit_run_accumulates() {
    let p = Parser::digits();
    let (out, end) = p.run_with_out(b"00123x");
    assert_eq!(out, Some(Value::Digits { value: 123, count: 5 }));
    assert_eq!(end, 5);
    let (out, end) = p.run_with_out(b"x1");
    assert!(out.is_none());
    assert_eq!(end, 0);
}

#[test]
fn digit_run_wraps_modulo_two_to_the_64() {
    // 2^64 = 18446744073709551616 wraps to 0
    let p = Parser::digits();
    let (out, end) = p.run_with_out(b"18446744073709551616");
    assert_eq!(out, Some(Value::Digits { value: 0, count: 20 }));
    assert_eq!(end, 20);
}

#[test]
fn try_wraps_failure_without_consuming() {
    let p = lit("x").to_try();
    let (out, end) = p.run_with_out(b"yz");
    assert_eq!(out, Some(Value::Maybe(None)));
    assert_eq!(end, 0);
    let (out, end) = p.run_with_out(b"xz");
    assert_eq!(out, Some(Value::Maybe(Some(Box::new(text("x"))))));
    assert_eq!(end, 1);
}

#[test]
fn discard_left_and_right() {
    let p = lit("[").right(lit("a")).left(lit("]"));
    let (out, end) = p.run_with_out(b"[a]rest");
    assert_eq!(out, Some(text("a")));
    assert_eq!(end, 3);
}

#[test]
fn many_collects_until_failure() {
    let p = lit("ab").many();
    let (out, end) = p.run_with_out(b"ababx");
    assert_eq!(out, Some(Value::List(vec![text("ab"), text("ab")])));
    assert_eq!(end, 4);
    // zero matches still succeed with an empty sequence
    let p = lit("ab").many();
    let (out, end) = p.run_with_out(b"x");
    assert_eq!(out, Some(Value::List(vec![])));
    assert_eq!(end, 0);
}

#[test]
fn many1_fails_on_empty_input() {
    // one-or-more digits on the empty input: fails, remainder unchanged.
    let digit = Parser::pattern(b"[0-9]".to_vec());
    let p = digit.many1();
    let (out, end) = p.run_with_out(b"");
    assert!(out.is_none());
    assert_eq!(end, 0);
    let digit = Parser::pattern(b"[0-9]".to_vec());
    let p = digit.many1();
    let (out, end) = p.run_with_out(b"12x");
    assert_eq!(out, Some(Value::List(vec![text("1"), text("2")])));
    assert_eq!(end, 2);
}

#[test]
fn many_sep_collects_quoted_strings() {
    // manySep(quotedString, literal(",")) on "\"a\",\"b\",\"c\""
    let p = escaped_quoted().many_sep(lit(","));
    let (out, end) = p.run_with_out(b"\"a\",\"b\",\"c\"");
    assert_eq!(
        out,
        Some(Value::List(vec![text("a"), text("b"), text("c")]))
    );
    assert_eq!(end, 11);
}

#[test]
fn many_sep_never_consumes_trailing_separator() {
    let p = lit("a").many_sep(lit(","));
    let (out, end) = p.run_with_out(b"a,a,rest");
    assert_eq!(out, Some(Value::List(vec![text("a"), text("a")])));
    // the remainder sits immediately after the last item, before the
    // trailing comma
    assert_eq!(end, 3);
    // zero items: success with the original input as remainder
    let p = lit("a").many_sep(lit(","));
    let (out, end) = p.run_with_out(b"x");
    assert_eq!(out, Some(Value::List(vec![])));
    assert_eq!(end, 0);
}

#[test]
fn many_sep1_requires_one_item() {
    let p = lit("a").many_sep1(lit(","));
    let (out, end) = p.run_with_out(b"");
    assert!(out.is_none());
    assert_eq!(end, 0);
    let p = lit("a").many_sep1(lit(","));
    let (out, end) = p.run_with_out(b"a");
    assert_eq!(out, Some(Value::List(vec![text("a")])));
    assert_eq!(end, 1);
}

#[test]
fn empty_matches_end_a_repetition() {
    // an empty literal succeeds consuming nothing
    let p = lit("");
    let (out, end) = p.run_with_out(b"ab");
    assert_eq!(out, Some(text("")));
    assert_eq!(end, 0);
    // repetition over a parser that can succeed without consuming stops
    // at the first such match instead of spinning
    let p = lit("").many();
    let (out, end) = p.run_with_out(b"ab");
    assert_eq!(out, Some(Value::List(vec![])));
    assert_eq!(end, 0);
    let p = whitespace().many();
    let (out, end) = p.run_with_out(b"  x");
    assert_eq!(out, Some(Value::List(vec![Value::Unit])));
    assert_eq!(end, 2);
}

#[test]
fn token_skips_trailing_whitespace() {
    let p = Parser::token(b"let".to_vec());
    let (out, end) = p.run_with_out(b"let  x");
    assert_eq!(out, Some(text("let")));
    assert_eq!(end, 5);
}

#[test]
fn parsers_of_different_builds_share_one_collection() {
    // the uniform boxed shape lets heterogeneous parsers live in one
    // collection and be dispatched through one indirect call
    let rules: Vec<Parser> = vec![
        lit("null"),
        escaped_quoted(),
        Parser::digits(),
        lit("true").or(lit("false")),
    ];
    let input: &[u8] = b"false";
    let mut matched = None;
    for rule in &rules {
        // prediction skips clearly-inapplicable rules in constant time
        if !rule.first_match(input[0]) {
            continue;
        }
        let (out, end) = rule.match_fast(input, 0);
        if out.is_some() {
            matched = Some((out.unwrap(), end));
            break;
        }
    }
    assert_eq!(matched, Some((text("false"), 5)));
}

#[test]
fn composed_grammar_for_a_key_value_list() {
    // { "a": 1, "b": 22 } — quoted keys, digit values, separated by commas
    let entry = || {
        escaped_quoted()
            .left(Parser::token(b":".to_vec()))
            .and(Parser::digits().left(whitespace()))
    };
    let p = Parser::token(b"{".to_vec())
        .right(entry().many_sep(Parser::token(b",".to_vec())))
        .left(lit("}"));
    let (out, end) = p.run_with_out(b"{ \"a\": 1, \"b\": 22 }");
    let pair = |k: &str, v: u64, c: u64| {
        Value::Pair(
            Box::new(text(k)),
            Box::new(Value::Digits { value: v, count: c }),
        )
    };
    assert_eq!(out, Some(Value::List(vec![pair("a", 1, 1), pair("b", 22, 2)])));
    assert_eq!(end, 19);
}

#[test]
fn run_loc_agrees_with_run() {
    let p = lit("true").or(lit("false"));
    assert_eq!(p.run(b"false"), p.run_loc(b"false"));
    let p = lit("true").or(lit("false"));
    assert_eq!(p.run(b"nope"), p.run_loc(b"nope"));
}
