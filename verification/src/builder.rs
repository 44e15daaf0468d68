//! The public construction surface of the engine.
//!
//! Constructors for the primitive recognizers and methods for the algebra
//! operators and the repetition combinators. A grammar front end of its
//! own, or a hand-written call site, builds parsers through these alone;
//! each states exactly which rule it returns, so callers can reason about
//! the built parser's semantics through `spec_parse`.

use vstd::prelude::*;
use crate::parser::Parser;

verus! {

/// The whitespace-skip recognizer: always succeeds, consuming the maximal
/// run of space, tab, newline and carriage-return bytes.
pub fn whitespace() -> (r: Parser)
    ensures
        r == Parser::Whitespace,
{
    Parser::Whitespace
}

/// The quoted-string recognizer: an opening double quote, the shortest run
/// up to the next unescaped double quote, and that closing quote; the
/// produced text is the run between the quotes.
pub fn escaped_quoted() -> (r: Parser)
    ensures
        r == Parser::Quoted,
{
    Parser::Quoted
}

impl Parser {
    /// The literal-token recognizer: succeeds exactly when the input
    /// starts with `token`, consuming exactly its length.
    pub fn literal(token: Vec<u8>) -> (r: Parser)
        ensures
            r matches Parser::Literal(t) && t == token,
    {
        Parser::Literal(token)
    }

    /// A literal token followed by a whitespace skip, keeping the token:
    /// the usual shape of a keyword or punctuation rule in a grammar.
    pub fn token(token: Vec<u8>) -> (r: Parser)
        ensures
            r matches Parser::Left(a, b) && (*a matches Parser::Literal(t) && t == token) && *b
                == Parser::Whitespace,
    {
        Parser::Left(Box::new(Parser::Literal(token)), Box::new(Parser::Whitespace))
    }

    /// The opaque-pattern recognizer: succeeds exactly when the pattern
    /// reports a non-empty match at the start of the remaining input.
    pub fn pattern(pattern: Vec<u8>) -> (r: Parser)
        ensures
            r matches Parser::Pattern(t) && t == pattern,
    {
        Parser::Pattern(pattern)
    }

    /// The digit-run recognizer: a maximal non-empty run of decimal
    /// digits, accumulated with arithmetic that wraps modulo 2^64.
    pub fn digits() -> (r: Parser)
        ensures
            r == Parser::Digits,
    {
        Parser::Digits
    }

    /// Sequence: this parser, then `rhs` on its remainder; the pair of
    /// both outputs. All-or-nothing: if either side fails, the whole
    /// sequence fails back at the original input.
    pub fn and(self, rhs: Parser) -> (r: Parser)
        ensures
            r matches Parser::And(a, b) && *a == self && *b == rhs,
    {
        Parser::And(Box::new(self), Box::new(rhs))
    }

    /// Sequence keeping only the left output (discard-right).
    pub fn left(self, rhs: Parser) -> (r: Parser)
        ensures
            r matches Parser::Left(a, b) && *a == self && *b == rhs,
    {
        Parser::Left(Box::new(self), Box::new(rhs))
    }

    /// Sequence keeping only the right output (discard-left).
    pub fn right(self, rhs: Parser) -> (r: Parser)
        ensures
            r matches Parser::Right(a, b) && *a == self && *b == rhs,
    {
        Parser::Right(Box::new(self), Box::new(rhs))
    }

    /// Ordered choice: this parser's result if it succeeds, else `rhs`
    /// attempted on the same original input.
    pub fn or(self, rhs: Parser) -> (r: Parser)
        ensures
            r matches Parser::Or(a, b) && *a == self && *b == rhs,
    {
        Parser::Or(Box::new(self), Box::new(rhs))
    }

    /// Optional match: always succeeds, wrapping this parser's result in
    /// `Maybe` and consuming nothing when it fails.
    pub fn to_try(self) -> (r: Parser)
        ensures
            r matches Parser::Opt(q) && *q == self,
    {
        Parser::Opt(Box::new(self))
    }

    /// Zero or more matches of this parser; always succeeds.
    pub fn many(self) -> (r: Parser)
        ensures
            r matches Parser::Many(q) && *q == self,
    {
        Parser::Many(Box::new(self))
    }

    /// One or more matches of this parser; fails on zero.
    pub fn many1(self) -> (r: Parser)
        ensures
            r matches Parser::Many1(q) && *q == self,
    {
        Parser::Many1(Box::new(self))
    }

    /// Zero or more matches joined by `sep`; always succeeds, and never
    /// consumes a trailing separator.
    pub fn many_sep(self, sep: Parser) -> (r: Parser)
        ensures
            r matches Parser::ManySep(q, s) && *q == self && *s == sep,
    {
        Parser::ManySep(Box::new(self), Box::new(sep))
    }

    /// One or more matches joined by `sep`; fails on zero items.
    pub fn many_sep1(self, sep: Parser) -> (r: Parser)
        ensures
            r matches Parser::ManySep1(q, s) && *q == self && *s == sep,
    {
        Parser::ManySep1(Box::new(self), Box::new(sep))
    }
}

} // verus!
