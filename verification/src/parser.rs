//! The parser abstraction and its algebra.
//!
//! A `Parser` is a plain value describing one recognition rule: a primitive
//! (literal token, whitespace skip, quoted string, opaque pattern, digit
//! run) or a composition by sequencing, ordered choice, optional match or
//! repetition. Boxing the operands gives every composite a uniform shape,
//! which is what lets parsers of different builds live in one collection
//! and lets named entry points refer to each other indirectly.
//!
//! `spec_parse` is the single spec-level semantics of a parser: what it
//! produces and where the remainder starts. `spec_admits` is the spec-level
//! prediction test over the leading input byte. Both evaluation paths of
//! the engine are proved against `spec_parse`.

use vstd::prelude::*;
use crate::pattern::regex_search;
use crate::value::ValueV;

verus! {

/// The double-quote byte, `b'"'`.
pub const QUOTE: u8 = 34;

/// The backslash byte, `b'\\'`.
pub const BACKSLASH: u8 = 92;

/// One recognition rule, built from primitives by the fixed algebra.
#[derive(Debug)]
pub enum Parser {
    /// Succeeds exactly when the input starts with the given token;
    /// consumes the token and produces it as text.
    Literal(Vec<u8>),
    /// Always succeeds, consuming the maximal run of space, tab, newline
    /// and carriage-return bytes; produces no payload.
    Whitespace,
    /// Consumes an opening double quote, the shortest run up to the next
    /// unescaped double quote, and that closing quote; produces the run
    /// between the quotes. Fails when no closing quote exists.
    Quoted,
    /// Delegates to the opaque pattern primitive: succeeds exactly when the
    /// pattern reports a non-empty match at the start of the remaining
    /// input, consuming and producing the matched span.
    Pattern(Vec<u8>),
    /// Consumes a maximal non-empty run of decimal digits, accumulating
    /// their value with unsigned arithmetic that wraps modulo 2^64; fails
    /// on zero digits.
    Digits,
    /// Sequence: both sides in order, producing the pair of both outputs.
    /// Fails as a whole, back at the original input, if either side fails.
    And(Box<Parser>, Box<Parser>),
    /// Sequence keeping only the left output.
    Left(Box<Parser>, Box<Parser>),
    /// Sequence keeping only the right output.
    Right(Box<Parser>, Box<Parser>),
    /// Ordered choice: the left result if the left side succeeds, else the
    /// right side's result on the same original input.
    Or(Box<Parser>, Box<Parser>),
    /// Optional match: always succeeds, wrapping the inner result in
    /// `Maybe`; consumes nothing when the inner parser fails.
    Opt(Box<Parser>),
    /// Zero or more inner matches; always succeeds with the collected
    /// outputs. A success that consumes nothing ends the collection.
    Many(Box<Parser>),
    /// One or more inner matches; fails, back at the original input, when
    /// zero items were collected.
    Many1(Box<Parser>),
    /// Zero or more inner matches joined by a separator; always succeeds,
    /// and a failed trailing `separator item` attempt is fully undone, so
    /// the remainder sits immediately after the last item.
    ManySep(Box<Parser>, Box<Parser>),
    /// Like `ManySep` but fails when zero items were collected.
    ManySep1(Box<Parser>, Box<Parser>),
}

/// Space, tab, newline or carriage return.
pub open spec fn is_ws(b: u8) -> bool {
    b == 32 || b == 9 || b == 10 || b == 13
}

/// A decimal digit byte.
pub open spec fn is_digit(b: u8) -> bool {
    48 <= b <= 57
}

/// Length of the maximal whitespace run of `s` starting at `pos`.
pub open spec fn ws_len(s: Seq<u8>, pos: int) -> int
    decreases s.len() - pos,
{
    if pos < 0 || pos >= s.len() || !is_ws(s[pos]) {
        0
    } else {
        1 + ws_len(s, pos + 1)
    }
}

/// Length of the maximal digit run of `s` starting at `pos`.
pub open spec fn digit_run_len(s: Seq<u8>, pos: int) -> int
    decreases s.len() - pos,
{
    if pos < 0 || pos >= s.len() || !is_digit(s[pos]) {
        0
    } else {
        1 + digit_run_len(s, pos + 1)
    }
}

/// Reduction modulo 2^64, the wrap of the digit accumulator.
pub open spec fn wrap_u64(x: int) -> u64 {
    (x % 0x1_0000_0000_0000_0000) as u64
}

/// Value of the `n` digits of `s` starting at `pos`, accumulated onto
/// `acc` with each multiply and add wrapping modulo 2^64.
pub open spec fn digits_acc(s: Seq<u8>, pos: int, n: int, acc: u64) -> u64
    decreases n,
{
    if n <= 0 {
        acc
    } else {
        digits_acc(s, pos + 1, n - 1, wrap_u64(wrap_u64(acc * 10) + (s[pos] - 48)))
    }
}

/// Index of the next unescaped double quote of `s` at or after `j`:
/// a quote immediately preceded by a backslash counts as escaped.
pub open spec fn find_close(s: Seq<u8>, j: int) -> Option<int>
    decreases s.len() - j,
{
    if j < 0 || j >= s.len() {
        None
    } else if s[j] == QUOTE && (j < 1 || s[j - 1] != BACKSLASH) {
        Some(j)
    } else {
        find_close(s, j + 1)
    }
}

/// The inner (item) parser of a repetition combinator; any other parser
/// is returned unchanged.
pub open spec fn item_parser(p: Parser) -> Parser {
    match p {
        Parser::Many(q) => *q,
        Parser::Many1(q) => *q,
        Parser::ManySep(q, _) => *q,
        Parser::ManySep1(q, _) => *q,
        _ => p,
    }
}

/// The separator of a separator-aware repetition combinator; any other
/// parser is returned unchanged.
pub open spec fn separator(p: Parser) -> Parser {
    match p {
        Parser::ManySep(_, sp) => *sp,
        Parser::ManySep1(_, sp) => *sp,
        _ => p,
    }
}

/// The prediction test: whether a successful match of `p` could begin with
/// the byte `c`. Conservative (true-biased): a parser that can succeed
/// without consuming input admits every byte.
pub open spec fn spec_admits(p: Parser, c: u8) -> bool
    decreases p,
{
    match p {
        Parser::Literal(t) => t@.len() == 0 || t@[0] == c,
        Parser::Whitespace => true,
        Parser::Quoted => c == QUOTE,
        Parser::Pattern(_) => true,
        Parser::Digits => is_digit(c),
        Parser::And(a, _) => spec_admits(*a, c),
        Parser::Left(a, _) => spec_admits(*a, c),
        Parser::Right(a, _) => spec_admits(*a, c),
        Parser::Or(a, b) => spec_admits(*a, c) || spec_admits(*b, c),
        Parser::Opt(_) => true,
        Parser::Many(_) => true,
        Parser::Many1(q) => spec_admits(*q, c),
        Parser::ManySep(_, _) => true,
        Parser::ManySep1(q, _) => spec_admits(*q, c),
    }
}

/// The items a repetition parser `p` (a `Many` or `Many1`) collects from
/// `pos` on, and the position after the last of them: the inner parser is
/// applied repeatedly until it fails, and a success that consumes nothing
/// ends the collection (its value is discarded), which keeps repetition
/// terminating for every inner parser.
pub open spec fn spec_many_items(p: Parser, s: Seq<u8>, pos: int) -> (Seq<ValueV>, int)
    decreases s.len() - pos, p, 1int,
{
    if pos < 0 || pos > s.len() {
        (Seq::empty(), pos)
    } else {
        match p {
            Parser::Many(q) => match spec_parse(*q, s, pos) {
                None => (Seq::empty(), pos),
                Some((v, e)) => {
                    if pos < e <= s.len() {
                        let (rest, end) = spec_many_items(p, s, e);
                        (seq![v] + rest, end)
                    } else {
                        (Seq::empty(), pos)
                    }
                },
            },
            Parser::Many1(q) => match spec_parse(*q, s, pos) {
                None => (Seq::empty(), pos),
                Some((v, e)) => {
                    if pos < e <= s.len() {
                        let (rest, end) = spec_many_items(p, s, e);
                        (seq![v] + rest, end)
                    } else {
                        (Seq::empty(), pos)
                    }
                },
            },
            _ => (Seq::empty(), pos),
        }
    }
}

/// The items a separator-aware repetition parser `p` (a `ManySep` or
/// `ManySep1`) collects from `pos` on, and the position immediately after
/// the last item. After each item the separator is attempted; when it
/// fails, or when it succeeds but no further item follows, the attempt is
/// fully undone: trailing separators are never consumed. As in
/// `spec_many_items`, an item match that consumes nothing ends the
/// collection.
pub open spec fn spec_sep_items(p: Parser, s: Seq<u8>, pos: int) -> (Seq<ValueV>, int)
    decreases s.len() - pos, p, 1int,
{
    if pos < 0 || pos > s.len() {
        (Seq::empty(), pos)
    } else {
        match p {
            Parser::ManySep(q, sep) => match spec_parse(*q, s, pos) {
                None => (Seq::empty(), pos),
                Some((v, e)) => {
                    if pos < e <= s.len() {
                        match spec_parse(*sep, s, e) {
                            None => (seq![v], e),
                            Some((_, se0)) => {
                                let se = if e <= se0 <= s.len() {
                                    se0
                                } else {
                                    e
                                };
                                let (rest, end) = spec_sep_items(p, s, se);
                                if rest.len() == 0 {
                                    (seq![v], e)
                                } else {
                                    (seq![v] + rest, end)
                                }
                            },
                        }
                    } else {
                        (Seq::empty(), pos)
                    }
                },
            },
            Parser::ManySep1(q, sep) => match spec_parse(*q, s, pos) {
                None => (Seq::empty(), pos),
                Some((v, e)) => {
                    if pos < e <= s.len() {
                        match spec_parse(*sep, s, e) {
                            None => (seq![v], e),
                            Some((_, se0)) => {
                                let se = if e <= se0 <= s.len() {
                                    se0
                                } else {
                                    e
                                };
                                let (rest, end) = spec_sep_items(p, s, se);
                                if rest.len() == 0 {
                                    (seq![v], e)
                                } else {
                                    (seq![v] + rest, end)
                                }
                            },
                        }
                    } else {
                        (Seq::empty(), pos)
                    }
                },
            },
            _ => (Seq::empty(), pos),
        }
    }
}

/// The semantics of a parser: on success, the produced value and the
/// position where the remainder starts; on failure, `None`, and the
/// remainder is the whole input from `pos` on.
///
/// The guards that pull an out-of-range intermediate position back to a
/// sound one can never fire (`lemma_parse_in_range` proves every success
/// position in range); they only make the recursion well-founded.
pub open spec fn spec_parse(p: Parser, s: Seq<u8>, pos: int) -> Option<(ValueV, int)>
    decreases s.len() - pos, p, 2int,
{
    if pos < 0 || pos > s.len() {
        None
    } else {
        match p {
            Parser::Literal(t) => {
                if pos + t@.len() <= s.len() && s.subrange(pos, pos + t@.len() as int) == t@ {
                    Some((ValueV::Text(t@), pos + t@.len() as int))
                } else {
                    None
                }
            },
            Parser::Whitespace => Some((ValueV::Unit, pos + ws_len(s, pos))),
            Parser::Quoted => {
                if pos < s.len() && s[pos] == QUOTE {
                    match find_close(s, pos + 1) {
                        Some(j) => Some((ValueV::Text(s.subrange(pos + 1, j)), j + 1)),
                        None => None,
                    }
                } else {
                    None
                }
            },
            Parser::Pattern(pat) => {
                match regex_search(pat@, s.subrange(pos, s.len() as int)) {
                    Some(span) => {
                        if span.0 == 0 && 0 < span.1 && pos + span.1 <= s.len() {
                            Some((ValueV::Text(s.subrange(pos, pos + span.1)), pos + span.1))
                        } else {
                            None
                        }
                    },
                    None => None,
                }
            },
            Parser::Digits => {
                let n = digit_run_len(s, pos);
                if n > 0 {
                    Some((
                        ValueV::Digits { value: digits_acc(s, pos, n, 0), count: n as nat },
                        pos + n,
                    ))
                } else {
                    None
                }
            },
            Parser::And(a, b) => {
                match spec_parse(*a, s, pos) {
                    None => None,
                    Some((va, mid0)) => {
                        let mid = if pos <= mid0 <= s.len() { mid0 } else { pos };
                        match spec_parse(*b, s, mid) {
                            None => None,
                            Some((vb, end)) => Some(
                                (ValueV::Pair(Box::new(va), Box::new(vb)), end),
                            ),
                        }
                    },
                }
            },
            Parser::Left(a, b) => {
                match spec_parse(*a, s, pos) {
                    None => None,
                    Some((va, mid0)) => {
                        let mid = if pos <= mid0 <= s.len() { mid0 } else { pos };
                        match spec_parse(*b, s, mid) {
                            None => None,
                            Some((_, end)) => Some((va, end)),
                        }
                    },
                }
            },
            Parser::Right(a, b) => {
                match spec_parse(*a, s, pos) {
                    None => None,
                    Some((_, mid0)) => {
                        let mid = if pos <= mid0 <= s.len() { mid0 } else { pos };
                        spec_parse(*b, s, mid)
                    },
                }
            },
            Parser::Or(a, b) => {
                match spec_parse(*a, s, pos) {
                    Some(r) => Some(r),
                    None => spec_parse(*b, s, pos),
                }
            },
            Parser::Opt(q) => {
                match spec_parse(*q, s, pos) {
                    Some((v, end)) => Some((ValueV::Maybe(Some(Box::new(v))), end)),
                    None => Some((ValueV::Maybe(None), pos)),
                }
            },
            Parser::Many(_) => {
                let (items, end) = spec_many_items(p, s, pos);
                Some((ValueV::List(items), end))
            },
            Parser::Many1(_) => {
                let (items, end) = spec_many_items(p, s, pos);
                if items.len() == 0 {
                    None
                } else {
                    Some((ValueV::List(items), end))
                }
            },
            Parser::ManySep(_, _) => {
                let (items, end) = spec_sep_items(p, s, pos);
                Some((ValueV::List(items), end))
            },
            Parser::ManySep1(_, _) => {
                let (items, end) = spec_sep_items(p, s, pos);
                if items.len() == 0 {
                    None
                } else {
                    Some((ValueV::List(items), end))
                }
            },
        }
    }
}

} // verus!
