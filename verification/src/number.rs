//! The numeric-literal recognizer: a worked composition in the engine's
//! intended style, covering the full algebra of the grammar
//! `sign? (digits ('.' digits?)? | '.' digits) ((e|E) sign? digits)?`
//! with the named constants `nan` and `inf` as ordered alternatives.
//!
//! The produced `Number` keeps the recognized components as plain values
//! (digit-run values, counts and signs); turning them into a binary
//! floating-point value is left to the caller. Digit runs accumulate with
//! arithmetic that wraps modulo 2^64, exactly as the engine's digit
//! primitive does.
//!
//! The bare `inf` alternative stands before any longer spelling of
//! infinity in the ordered choice, so recognizing `inf` covers them all:
//! on `infinity` the first three bytes match and the rest remains.

use vstd::prelude::*;
use crate::laws::lemma_digit_run_bounds;
use crate::parser::{digit_run_len, digits_acc, Parser};
use crate::value::Value;

verus! {

/// The plus byte, `b'+'`.
pub const PLUS: u8 = 43;

/// The minus byte, `b'-'`.
pub const MINUS: u8 = 45;

/// The dot byte, `b'.'`.
pub const DOT: u8 = 46;

/// A recognized numeric literal, kept as its decimal components.
///
/// A `Finite` value denotes
/// `(-1)^negative * (integer + fraction / 10^fraction_len) * 10^(±exponent)`.
#[derive(Copy, Clone, Debug, PartialEq, Eq, Structural)]
pub enum Number {
    /// The general decimal form.
    Finite {
        /// Whether a leading minus sign was present.
        negative: bool,
        /// Value of the integer-part digit run (0 for the bare-dot form).
        integer: u64,
        /// Value of the fraction digit run (0 when absent).
        fraction: u64,
        /// Number of fraction digits (0 when absent).
        fraction_len: u64,
        /// Whether the exponent carries a minus sign.
        exp_negative: bool,
        /// Value of the exponent digit run (0 when absent).
        exponent: u64,
    },
    /// The literal `nan`.
    NotANumber,
    /// The literal `inf`.
    Infinite,
}

/// An optional leading sign at `pos`: whether it was a minus, and the
/// position after it (unchanged when no sign is present).
pub open spec fn spec_sign(s: Seq<u8>, pos: int) -> (bool, int) {
    if 0 <= pos < s.len() && s[pos] == PLUS {
        (false, pos + 1)
    } else if 0 <= pos < s.len() && s[pos] == MINUS {
        (true, pos + 1)
    } else {
        (false, pos)
    }
}

/// The mantissa at `pos`: either one-or-more digits optionally followed by
/// a dot and an optional digit run, or a bare dot followed by one-or-more
/// digits. On success: integer part, fraction value, fraction digit count,
/// and the end position.
pub open spec fn spec_mantissa(s: Seq<u8>, pos: int) -> Option<(u64, u64, u64, int)> {
    let n = digit_run_len(s, pos);
    if n > 0 {
        let ip = digits_acc(s, pos, n, 0);
        let p1 = pos + n;
        if p1 < s.len() && s[p1] == DOT {
            let m = digit_run_len(s, p1 + 1);
            if m > 0 {
                Some((ip, digits_acc(s, p1 + 1, m, 0), m as u64, p1 + 1 + m))
            } else {
                Some((ip, 0, 0, p1 + 1))
            }
        } else {
            Some((ip, 0, 0, p1))
        }
    } else if 0 <= pos < s.len() && s[pos] == DOT {
        let m = digit_run_len(s, pos + 1);
        if m > 0 {
            Some((0, digits_acc(s, pos + 1, m, 0), m as u64, pos + 1 + m))
        } else {
            None
        }
    } else {
        None
    }
}

/// The optional exponent group at `pos`: marker `e` or `E`, an optional
/// sign, and one-or-more digits. When any part is missing the whole group
/// is undone: nothing is consumed and the factor is neutral.
pub open spec fn spec_exponent(s: Seq<u8>, pos: int) -> (bool, u64, int) {
    if 0 <= pos < s.len() && (s[pos] == 101 || s[pos] == 69) {
        let sn = spec_sign(s, pos + 1);
        let n = digit_run_len(s, sn.1);
        if n > 0 {
            (sn.0, digits_acc(s, sn.1, n, 0), sn.1 + n)
        } else {
            (false, 0, pos)
        }
    } else {
        (false, 0, pos)
    }
}

/// The general decimal form at `pos`: sign, mantissa, optional exponent.
pub open spec fn spec_finite(s: Seq<u8>, pos: int) -> Option<(Number, int)> {
    let sg = spec_sign(s, pos);
    match spec_mantissa(s, sg.1) {
        None => None,
        Some((ip, fr, fl, p2)) => {
            let ex = spec_exponent(s, p2);
            Some(
                (
                    Number::Finite {
                        negative: sg.0,
                        integer: ip,
                        fraction: fr,
                        fraction_len: fl,
                        exp_negative: ex.0,
                        exponent: ex.1,
                    },
                    ex.2,
                ),
            )
        },
    }
}

/// The numeric literal at `pos`: the general decimal form, or — by
/// ordered choice on the same input — the named constants `nan` and
/// `inf`. `None` when none of the alternatives matches.
pub open spec fn spec_number(s: Seq<u8>, pos: int) -> Option<(Number, int)> {
    match spec_finite(s, pos) {
        Some(r) => Some(r),
        None => {
            if pos + 3 <= s.len() && s[pos] == 110 && s[pos + 1] == 97 && s[pos + 2] == 110 {
                Some((Number::NotANumber, pos + 3))
            } else if pos + 3 <= s.len() && s[pos] == 105 && s[pos + 1] == 110 && s[pos + 2]
                == 102 {
                Some((Number::Infinite, pos + 3))
            } else {
                None
            }
        },
    }
}

/// The engine's digit primitive as a plain pair: the accumulated value of
/// the maximal digit run at `pos` (0 when the run is empty) and the
/// position after the run.
fn digit_run(input: &[u8], pos: usize) -> (r: (u64, usize))
    requires
        pos <= input@.len(),
    ensures
        r.1 == pos + digit_run_len(input@, pos as int),
        pos <= r.1 <= input@.len(),
        r.0 == digits_acc(input@, pos as int, digit_run_len(input@, pos as int), 0),
{
    let d = Parser::digits();
    let m = d.match_fast(input, pos);
    match m.0 {
        Some(v) => match v {
            Value::Digits { value, count } => (value, m.1),
            _ => {
                proof {
                    assert(false);
                }
                (0, pos)
            },
        },
        None => {
            proof {
                lemma_digit_run_bounds(input@, pos as int);
            }
            (0, pos)
        },
    }
}

/// The optional leading sign, executable path of `spec_sign`.
fn parse_sign(input: &[u8], pos: usize) -> (r: (bool, usize))
    requires
        pos <= input@.len(),
    ensures
        (r.0, r.1 as int) == spec_sign(input@, pos as int),
        pos <= r.1 <= input@.len(),
{
    if pos < input.len() && input[pos] == PLUS {
        (false, pos + 1)
    } else if pos < input.len() && input[pos] == MINUS {
        (true, pos + 1)
    } else {
        (false, pos)
    }
}

/// The mantissa, executable path of `spec_mantissa`: integer part,
/// fraction value and fraction digit count, with the end position.
fn parse_mantissa(input: &[u8], pos: usize) -> (r: (Option<(u64, u64, u64)>, usize))
    requires
        pos <= input@.len(),
    ensures
        r.0 is None ==> spec_mantissa(input@, pos as int) is None && r.1 == pos,
        r.0 matches Some(t) ==> spec_mantissa(input@, pos as int) == Some(
            (t.0, t.1, t.2, r.1 as int),
        ),
        pos <= r.1 <= input@.len(),
{
    let first = digit_run(input, pos);
    if first.1 > pos {
        let p1 = first.1;
        if p1 < input.len() && input[p1] == DOT {
            let frac = digit_run(input, p1 + 1);
            if frac.1 > p1 + 1 {
                let count = frac.1 - (p1 + 1);
                (Some((first.0, frac.0, count as u64)), frac.1)
            } else {
                (Some((first.0, 0, 0)), p1 + 1)
            }
        } else {
            (Some((first.0, 0, 0)), p1)
        }
    } else if pos < input.len() && input[pos] == DOT {
        let frac = digit_run(input, pos + 1);
        if frac.1 > pos + 1 {
            let count = frac.1 - (pos + 1);
            (Some((0, frac.0, count as u64)), frac.1)
        } else {
            (None, pos)
        }
    } else {
        (None, pos)
    }
}

/// The optional exponent group, executable path of `spec_exponent`.
fn parse_exponent(input: &[u8], pos: usize) -> (r: (bool, u64, usize))
    requires
        pos <= input@.len(),
    ensures
        (r.0, r.1, r.2 as int) == spec_exponent(input@, pos as int),
        pos <= r.2 <= input@.len(),
{
    if pos < input.len() && (input[pos] == 101 || input[pos] == 69) {
        let sn = parse_sign(input, pos + 1);
        let run = digit_run(input, sn.1);
        if run.1 > sn.1 {
            (sn.0, run.0, run.1)
        } else {
            (false, 0, pos)
        }
    } else {
        (false, 0, pos)
    }
}

/// The general decimal form `sign? mantissa exponent?`.
///
/// On success, the recognized components and the position of the
/// remainder; on failure nothing is consumed. The result is exactly what
/// `spec_finite` states.
pub fn parse_finite(input: &[u8], pos: usize) -> (r: (Option<Number>, usize))
    requires
        pos <= input@.len(),
    ensures
        r.0 is None ==> spec_finite(input@, pos as int) is None && r.1 == pos,
        r.0 matches Some(n) ==> spec_finite(input@, pos as int) == Some((n, r.1 as int)),
        pos <= r.1 <= input@.len(),
{
    let sg = parse_sign(input, pos);
    let mant = parse_mantissa(input, sg.1);
    match mant.0 {
        None => (None, pos),
        Some(t) => {
            let ex = parse_exponent(input, mant.1);
            (
                Some(
                    Number::Finite {
                        negative: sg.0,
                        integer: t.0,
                        fraction: t.1,
                        fraction_len: t.2,
                        exp_negative: ex.0,
                        exponent: ex.1,
                    },
                ),
                ex.2,
            )
        },
    }
}

/// The numeric-literal recognizer: the general decimal form, or the named
/// constants `nan` and `inf`, combined by ordered choice.
///
/// On success, the recognized `Number` and the position of the remainder;
/// on failure nothing is consumed. The result is exactly what
/// `spec_number` states.
pub fn parse_number(input: &[u8], pos: usize) -> (r: (Option<Number>, usize))
    requires
        pos <= input@.len(),
    ensures
        r.0 is None ==> spec_number(input@, pos as int) is None && r.1 == pos,
        r.0 matches Some(n) ==> spec_number(input@, pos as int) == Some((n, r.1 as int)),
        pos <= r.1 <= input@.len(),
{
    let fin = parse_finite(input, pos);
    match fin.0 {
        Some(n) => (Some(n), fin.1),
        None => {
            if input.len() - pos >= 3 && input[pos] == 110 && input[pos + 1] == 97 && input[pos
                + 2] == 110 {
                (Some(Number::NotANumber), pos + 3)
            } else if input.len() - pos >= 3 && input[pos] == 105 && input[pos + 1] == 110
                && input[pos + 2] == 102 {
                (Some(Number::Infinite), pos + 3)
            } else {
                (None, pos)
            }
        },
    }
}

} // verus!
