//! The position tracker, the tracked evaluation path, and the numeric
//! literal recognizer.

use combinator_engine::number::{parse_finite, parse_number, Number};
use combinator_engine::{Location, Parser, Value};

#[test]
fn test_loc() {
    let s = "abc \n bcd";
    let loc = Location::new();
    let ret = loc.update(s.as_bytes());
    println!("{},{}", ret.1.line, ret.1.col);
}

#[test]
fn update_scans_for_newlines() {
    let loc = Location::new();
    let (absolute, delta) = loc.update(b"abc \n bcd");
    assert_eq!(absolute.line, 2);
    assert_eq!(absolute.col, 5);
    assert_eq!(absolute.offset, 9);
    assert_eq!(delta.line, 1);
    assert_eq!(delta.col, 5);
    assert_eq!(delta.offset, 9);
    // no newline: columns add up
    let (absolute, delta) = Location::new().update(b"abc");
    assert_eq!((absolute.line, absolute.col, absolute.offset), (1, 4, 3));
    assert_eq!((delta.line, delta.col, delta.offset), (0, 3, 3));
    // empty text changes nothing
    let (absolute, _) = absolute.update(b"");
    assert_eq!((absolute.line, absolute.col, absolute.offset), (1, 4, 3));
}

#[test]
fn update_char_single_step() {
    let loc = Location::new();
    let (nl, d) = loc.update_char('\n');
    assert_eq!((nl.line, nl.col, nl.offset), (2, 1, 1));
    assert_eq!((d.line, d.col, d.offset), (1, 1, 1));
    let (nx, d) = nl.update_char('x');
    assert_eq!((nx.line, nx.col, nx.offset), (2, 2, 2));
    assert_eq!((d.line, d.col, d.offset), (0, 1, 1));
}

#[test]
fn tracked_path_reports_position() {
    let p = Parser::literal(b"a\nb".to_vec());
    let (out, reached) = p.run_tracked(b"a\nbc");
    assert_eq!(out, Some(Value::Text(b"a\nb".to_vec())));
    assert_eq!((reached.line, reached.col, reached.offset), (2, 2, 3));
    // on failure the location strictly reverts to the start
    let p = Parser::literal(b"a\nx".to_vec());
    let (out, reached) = p.run_tracked(b"a\nbc");
    assert!(out.is_none());
    assert_eq!((reached.line, reached.col, reached.offset), (1, 1, 0));
}

#[test]
fn tracked_path_from_midway_location() {
    let p = Parser::literal(b"bc".to_vec());
    let loc = Location { line: 3, col: 7, offset: 20 };
    let (out, end, reached) = p.match_tracked(b"abcd", 1, loc);
    assert!(out.is_some());
    assert_eq!(end, 3);
    assert_eq!((reached.line, reached.col, reached.offset), (3, 9, 22));
}

fn to_f64(n: Number) -> f64 {
    match n {
        Number::Finite { negative, integer, fraction, fraction_len, exp_negative, exponent } => {
            let sign = if negative { -1.0 } else { 1.0 };
            let mantissa = integer as f64 + fraction as f64 / 10f64.powi(fraction_len as i32);
            let factor = if exp_negative {
                1.0 / 10f64.powi(exponent as i32)
            } else {
                10f64.powi(exponent as i32)
            };
            sign * mantissa * factor
        },
        Number::NotANumber => f64::NAN,
        Number::Infinite => f64::INFINITY,
    }
}

#[test]
fn number_scenario_full_form() {
    // "-12.5e+2" recognizes as -1250.0 with the remainder empty
    let (out, end) = parse_number(b"-12.5e+2", 0);
    let n = out.unwrap();
    assert_eq!(
        n,
        Number::Finite {
            negative: true,
            integer: 12,
            fraction: 5,
            fraction_len: 1,
            exp_negative: false,
            exponent: 2,
        }
    );
    assert_eq!(end, 8);
    assert_eq!(to_f64(n), -1250.0);
}

#[test]
fn number_component_forms() {
    // bare integer
    let (out, end) = parse_number(b"42", 0);
    assert_eq!(to_f64(out.unwrap()), 42.0);
    assert_eq!(end, 2);
    // leading dot: integer part implicitly 0
    let (out, end) = parse_number(b".5", 0);
    assert_eq!(to_f64(out.unwrap()), 0.5);
    assert_eq!(end, 2);
    // trailing dot is consumed, fraction absent
    let (out, end) = parse_number(b"12.", 0);
    assert_eq!(
        out,
        Some(Number::Finite {
            negative: false,
            integer: 12,
            fraction: 0,
            fraction_len: 0,
            exp_negative: false,
            exponent: 0,
        })
    );
    assert_eq!(end, 3);
    // negative exponent
    let (out, _) = parse_number(b"25e-2", 0);
    assert_eq!(to_f64(out.unwrap()), 0.25);
    // a bare exponent marker is not an exponent: the group is undone
    let (out, end) = parse_number(b"1e", 0);
    assert_eq!(to_f64(out.unwrap()), 1.0);
    assert_eq!(end, 1);
    // a plus sign is accepted and neutral
    let (out, end) = parse_number(b"+3", 0);
    assert_eq!(to_f64(out.unwrap()), 3.0);
    assert_eq!(end, 2);
}

#[test]
fn number_named_constants() {
    let (out, end) = parse_number(b"nan", 0);
    assert_eq!(out, Some(Number::NotANumber));
    assert_eq!(end, 3);
    assert!(to_f64(out.unwrap()).is_nan());
    let (out, end) = parse_number(b"inf", 0);
    assert_eq!(out, Some(Number::Infinite));
    assert_eq!(end, 3);
    // the bare "inf" alternative answers first on a longer spelling
    let (out, end) = parse_number(b"infinity", 0);
    assert_eq!(out, Some(Number::Infinite));
    assert_eq!(end, 3);
}

#[test]
fn number_rejections_consume_nothing() {
    let (out, end) = parse_number(b"", 0);
    assert!(out.is_none());
    assert_eq!(end, 0);
    // a sign without digits is rejected as a whole
    let (out, end) = parse_number(b"-x", 0);
    assert!(out.is_none());
    assert_eq!(end, 0);
    // a bare dot without digits is rejected
    let (out, end) = parse_finite(b".x", 0);
    assert!(out.is_none());
    assert_eq!(end, 0);
    // the general form fails on letters even where a constant would not
    let (out, end) = parse_finite(b"inf", 0);
    assert!(out.is_none());
    assert_eq!(end, 0);
}

#[test]
fn number_starts_anywhere() {
    let (out, end) = parse_number(b"x=3.25;", 2);
    assert_eq!(to_f64(out.unwrap()), 3.25);
    assert_eq!(end, 6);
}
