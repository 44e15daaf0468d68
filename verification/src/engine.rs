//! The two evaluation paths of the engine.
//!
//! `match_fast` attempts a match and returns the produced value and the
//! position where the remainder starts; on failure the position is exactly
//! the one the parser was invoked at, so no partial consumption ever
//! escapes a failed match. `match_tracked` has the identical contract and
//! additionally advances a `Location` over whatever was actually consumed;
//! it is derived from the fast path by a position-threading wrapper rather
//! than a second hand-written control flow, and on failure the location is
//! strictly reverted.
//!
//! Both paths are proved against `spec_parse`.

use vstd::prelude::*;
use vstd::slice::{slice_subrange, slice_to_vec};
use crate::laws::{lemma_digit_run_bounds, lemma_prediction_sound, lemma_ws_len_bounds};
use crate::location::{col_after, line_after, Location};
use crate::parser::{
    digit_run_len, digits_acc, find_close, spec_admits, spec_many_items, spec_parse,
    spec_sep_items, wrap_u64, ws_len, Parser, BACKSLASH, QUOTE,
};
use crate::pattern::regex_search_at;
use crate::value::{lemma_values_view_index, lemma_values_view_push, value_view, values_view,
    Value, ValueV};

verus! {

/// Whether `input` carries the token `t` at `pos`.
fn literal_matches(t: &Vec<u8>, input: &[u8], pos: usize) -> (r: bool)
    requires
        pos + t@.len() <= input@.len(),
    ensures
        r == (input@.subrange(pos as int, pos + t@.len()) == t@),
{
    let n = t.len();
    let ilen = input.len();
    let mut i: usize = 0;
    while i < n
        invariant
            i <= n,
            n == t@.len(),
            ilen == input@.len(),
            pos + n <= input@.len(),
            forall|k: int| 0 <= k < i ==> input@[pos + k] == t@[k],
        decreases n - i,
    {
        if input[pos + i] != t[i] {
            proof {
                assert(input@.subrange(pos as int, pos + t@.len())[i as int] != t@[i as int]);
            }
            return false;
        }
        i = i + 1;
    }
    proof {
        assert(input@.subrange(pos as int, pos + t@.len()) =~= t@);
    }
    true
}

/// The end of the maximal whitespace run of `input` starting at `pos`.
fn whitespace_end(input: &[u8], pos: usize) -> (r: usize)
    requires
        pos <= input@.len(),
    ensures
        r == pos + ws_len(input@, pos as int),
        pos <= r <= input@.len(),
{
    let mut i: usize = pos;
    while i < input.len() && (input[i] == 32 || input[i] == 9 || input[i] == 10 || input[i] == 13)
        invariant
            pos <= i <= input@.len(),
            ws_len(input@, pos as int) == (i - pos) + ws_len(input@, i as int),
        decreases input@.len() - i,
    {
        i = i + 1;
    }
    i
}

/// The index of the next unescaped closing quote at or after `from`,
/// scanning to the end of the input.
fn closing_quote(input: &[u8], from: usize) -> (r: Option<usize>)
    requires
        1 <= from <= input@.len(),
    ensures
        match r {
            Some(j) => find_close(input@, from as int) == Some(j as int) && from <= j
                < input@.len(),
            None => find_close(input@, from as int) is None,
        },
{
    let mut j: usize = from;
    while j < input.len()
        invariant
            from <= j <= input@.len(),
            1 <= from,
            find_close(input@, from as int) == find_close(input@, j as int),
        decreases input@.len() - j,
    {
        if input[j] == QUOTE && input[j - 1] != BACKSLASH {
            return Some(j);
        }
        j = j + 1;
    }
    None
}

impl Parser {
    /// The prediction test: whether a successful match of this parser
    /// could begin with the byte `c`, in constant time and without
    /// attempting the match. Conservative: it may answer true for inputs
    /// that fail, but never false for one that could match
    /// (`lemma_prediction_sound`).
    pub fn first_match(&self, c: u8) -> (r: bool)
        ensures
            r == spec_admits(*self, c),
        decreases *self,
    {
        match self {
            Parser::Literal(t) => t.len() == 0 || t[0] == c,
            Parser::Whitespace => true,
            Parser::Quoted => c == QUOTE,
            Parser::Pattern(_) => true,
            Parser::Digits => 48 <= c && c <= 57,
            Parser::And(a, _) => a.first_match(c),
            Parser::Left(a, _) => a.first_match(c),
            Parser::Right(a, _) => a.first_match(c),
            Parser::Or(a, b) => a.first_match(c) || b.first_match(c),
            Parser::Opt(_) => true,
            Parser::Many(_) => true,
            Parser::Many1(q) => q.first_match(c),
            Parser::ManySep(_, _) => true,
            Parser::ManySep1(q, _) => q.first_match(c),
        }
    }

    /// The fast evaluation path: attempt the match at `pos`.
    ///
    /// On success the produced value and the position of the remainder; on
    /// failure no value, and the position is exactly `pos` — partial
    /// consumption never escapes a failed match. The result is exactly
    /// what `spec_parse` states.
    pub fn match_fast(&self, input: &[u8], pos: usize) -> (r: (Option<Value>, usize))
        requires
            pos <= input@.len(),
        ensures
            pos <= r.1 <= input@.len(),
            r.0 is None ==> spec_parse(*self, input@, pos as int) is None && r.1 == pos,
            r.0 matches Some(v) ==> (spec_parse(*self, input@, pos as int) matches Some(sr)
                && sr.0 == value_view(v) && sr.1 == r.1),
        decreases *self, 1int,
    {
        match self {
            Parser::Literal(t) => {
                if t.len() <= input.len() - pos && literal_matches(t, input, pos) {
                    let text = slice_to_vec(slice_subrange(input, pos, pos + t.len()));
                    (Some(Value::Text(text)), pos + t.len())
                } else {
                    (None, pos)
                }
            },
            Parser::Whitespace => {
                let end = whitespace_end(input, pos);
                proof {
                    lemma_ws_len_bounds(input@, pos as int);
                }
                (Some(Value::Unit), end)
            },
            Parser::Quoted => {
                if pos < input.len() && input[pos] == QUOTE {
                    match closing_quote(input, pos + 1) {
                        Some(j) => {
                            let text = slice_to_vec(slice_subrange(input, pos + 1, j));
                            (Some(Value::Text(text)), j + 1)
                        },
                        None => (None, pos),
                    }
                } else {
                    (None, pos)
                }
            },
            Parser::Pattern(pat) => {
                let tail = slice_subrange(input, pos, input.len());
                match regex_search_at(pat.as_slice(), tail) {
                    Some((st, en)) => {
                        if st == 0 && en > 0 {
                            let text = slice_to_vec(slice_subrange(input, pos, pos + en));
                            (Some(Value::Text(text)), pos + en)
                        } else {
                            (None, pos)
                        }
                    },
                    None => (None, pos),
                }
            },
            Parser::Digits => {
                let ghost s = input@;
                let mut i: usize = pos;
                let mut value: u64 = 0;
                while i < input.len() && 48 <= input[i] && input[i] <= 57
                    invariant
                        pos <= i <= s.len(),
                        input@ == s,
                        digit_run_len(s, pos as int) == (i - pos) + digit_run_len(s, i as int),
                        digits_acc(s, pos as int, digit_run_len(s, pos as int), 0)
                            == digits_acc(s, i as int, digit_run_len(s, i as int), value),
                    decreases s.len() - i,
                {
                    let d = input[i] - 48;
                    proof {
                        lemma_digit_run_bounds(s, i as int + 1);
                        assert(digit_run_len(s, i as int) == 1 + digit_run_len(s, i as int + 1));
                        assert(vstd::wrapping::u64_specs::wrapping_mul(value, 10) == wrap_u64(
                            value * 10,
                        ));
                        assert(vstd::wrapping::u64_specs::wrapping_add(
                            wrap_u64(value * 10),
                            d as u64,
                        ) == wrap_u64(wrap_u64(value * 10) + (s[i as int] - 48)));
                    }
                    value = value.wrapping_mul(10).wrapping_add(d as u64);
                    i = i + 1;
                }
                if i == pos {
                    (None, pos)
                } else {
                    let count = i - pos;
                    (Some(Value::Digits { value, count: count as u64 }), i)
                }
            },
            Parser::And(a, b) => {
                let left = a.match_fast(input, pos);
                match left.0 {
                    None => (None, pos),
                    Some(va) => {
                        let right = b.match_fast(input, left.1);
                        match right.0 {
                            None => (None, pos),
                            Some(vb) => (
                                Some(Value::Pair(Box::new(va), Box::new(vb))),
                                right.1,
                            ),
                        }
                    },
                }
            },
            Parser::Left(a, b) => {
                let left = a.match_fast(input, pos);
                match left.0 {
                    None => (None, pos),
                    Some(va) => {
                        let right = b.match_fast(input, left.1);
                        match right.0 {
                            None => (None, pos),
                            Some(_) => (Some(va), right.1),
                        }
                    },
                }
            },
            Parser::Right(a, b) => {
                let left = a.match_fast(input, pos);
                match left.0 {
                    None => (None, pos),
                    Some(_) => {
                        let right = b.match_fast(input, left.1);
                        match right.0 {
                            None => (None, pos),
                            Some(vb) => (Some(vb), right.1),
                        }
                    },
                }
            },
            Parser::Or(a, b) => {
                // Prediction: when the lead byte rules the left side out,
                // skip it without attempting the match.
                let skip_left = pos < input.len() && !a.first_match(input[pos]);
                if skip_left {
                    proof {
                        lemma_prediction_sound(**a, input@, pos as int);
                    }
                    b.match_fast(input, pos)
                } else {
                    let left = a.match_fast(input, pos);
                    match left.0 {
                        Some(v) => (Some(v), left.1),
                        None => b.match_fast(input, pos),
                    }
                }
            },
            Parser::Opt(q) => {
                let inner = q.match_fast(input, pos);
                match inner.0 {
                    Some(v) => (Some(Value::Maybe(Some(Box::new(v)))), inner.1),
                    None => (Some(Value::Maybe(None)), pos),
                }
            },
            Parser::Many(q) => {
                let (items, end) = match_many_loop(self, q, input, pos);
                (Some(Value::List(items)), end)
            },
            Parser::Many1(q) => {
                let (items, end) = match_many_loop(self, q, input, pos);
                proof {
                    lemma_values_view_index(items@);
                }
                if items.len() == 0 {
                    (None, pos)
                } else {
                    (Some(Value::List(items)), end)
                }
            },
            Parser::ManySep(q, sep) => {
                let (items, end) = match_sep_loop(self, q, sep, input, pos);
                (Some(Value::List(items)), end)
            },
            Parser::ManySep1(q, sep) => {
                let (items, end) = match_sep_loop(self, q, sep, input, pos);
                proof {
                    lemma_values_view_index(items@);
                }
                if items.len() == 0 {
                    (None, pos)
                } else {
                    (Some(Value::List(items)), end)
                }
            },
        }
    }
}

impl Parser {
    /// The diagnostic evaluation path: the identical match contract as
    /// `match_fast`, plus a `Location` advanced over whatever was actually
    /// consumed. On failure the location is strictly reverted to the one
    /// passed in, so line/column diagnostics never drift past a failed
    /// attempt. Derived from the fast path by advancing the location over
    /// the consumed span, so the two paths cannot diverge.
    pub fn match_tracked(&self, input: &[u8], pos: usize, loc: Location) -> (r: (
        Option<Value>,
        usize,
        Location,
    ))
        requires
            pos <= input@.len(),
            loc.line + input@.len() - pos <= usize::MAX,
            loc.col + input@.len() - pos <= usize::MAX,
            loc.offset + input@.len() - pos <= usize::MAX,
        ensures
            pos <= r.1 <= input@.len(),
            r.0 is None ==> spec_parse(*self, input@, pos as int) is None && r.1 == pos && r.2
                == loc,
            r.0 matches Some(v) ==> (spec_parse(*self, input@, pos as int) matches Some(sr)
                && sr.0 == value_view(v) && sr.1 == r.1),
            r.0 is Some ==> r.2.line == line_after(
                loc.line as int,
                input@.subrange(pos as int, r.1 as int),
            ) && r.2.col == col_after(loc.col as int, input@.subrange(pos as int, r.1 as int))
                && r.2.offset == loc.offset + (r.1 - pos),
    {
        let (out, end) = self.match_fast(input, pos);
        match out {
            Some(v) => {
                let consumed = slice_subrange(input, pos, end);
                let advanced = loc.update(consumed);
                (Some(v), end, advanced.0)
            },
            None => (None, pos, loc),
        }
    }

    /// Run the fast path from the start of `input`, returning the value
    /// and the position of the remainder.
    pub fn run_with_out(&self, input: &[u8]) -> (r: (Option<Value>, usize))
        ensures
            r.1 <= input@.len(),
            r.0 is None ==> spec_parse(*self, input@, 0) is None && r.1 == 0,
            r.0 matches Some(v) ==> (spec_parse(*self, input@, 0) matches Some(sr) && sr.0
                == value_view(v) && sr.1 == r.1),
    {
        self.match_fast(input, 0)
    }

    /// Run the fast path from the start of `input`, returning the value
    /// alone.
    pub fn run(&self, input: &[u8]) -> (r: Option<Value>)
        ensures
            r is None ==> spec_parse(*self, input@, 0) is None,
            r matches Some(v) ==> (spec_parse(*self, input@, 0) matches Some(sr) && sr.0
                == value_view(v)),
    {
        let out = self.run_with_out(input);
        out.0
    }

    /// Run the diagnostic path from the start of `input` at line 1,
    /// column 1: the value, and the position reached on success or the
    /// start position on failure.
    pub fn run_tracked(&self, input: &[u8]) -> (r: (Option<Value>, Location))
        requires
            input@.len() < usize::MAX,
        ensures
            r.0 is None ==> spec_parse(*self, input@, 0) is None && r.1 == (Location {
                line: 1,
                col: 1,
                offset: 0,
            }),
            r.0 matches Some(v) ==> (spec_parse(*self, input@, 0) matches Some(sr) && sr.0
                == value_view(v) && r.1.line == line_after(1, input@.subrange(0, sr.1))
                && r.1.col == col_after(1, input@.subrange(0, sr.1)) && r.1.offset == sr.1),
    {
        let start = Location::new();
        let (out, _, reached) = self.match_tracked(input, 0, start);
        (out, reached)
    }

    /// Run the diagnostic path from the start of `input`, returning the
    /// value alone; it equals what the fast path returns.
    pub fn run_loc(&self, input: &[u8]) -> (r: Option<Value>)
        requires
            input@.len() < usize::MAX,
        ensures
            r is None ==> spec_parse(*self, input@, 0) is None,
            r matches Some(v) ==> (spec_parse(*self, input@, 0) matches Some(sr) && sr.0
                == value_view(v)),
    {
        let out = self.run_tracked(input);
        out.0
    }
}

/// The collection loop shared by `Many` and `Many1`: apply the inner
/// parser `q` repeatedly from `pos`, stopping at its first failure or at a
/// success that consumes nothing.
fn match_many_loop(p: &Parser, q: &Parser, input: &[u8], pos: usize) -> (r: (Vec<Value>, usize))
    requires
        pos <= input@.len(),
        (*p matches Parser::Many(qq) && *qq == *q) || (*p matches Parser::Many1(qq) && *qq == *q),
    ensures
        values_view(r.0@) == spec_many_items(*p, input@, pos as int).0,
        r.1 == spec_many_items(*p, input@, pos as int).1,
        pos <= r.1 <= input@.len(),
        r.0@.len() == 0 ==> r.1 == pos,
    decreases *p, 0int,
{
    let ghost s = input@;
    let ghost pp = *p;
    let mut items: Vec<Value> = Vec::new();
    let mut cur: usize = pos;
    let mut going = true;
    proof {
        assert(values_view(items@) =~= Seq::<ValueV>::empty());
        assert(values_view(items@) + spec_many_items(pp, s, pos as int).0 =~= spec_many_items(
            pp,
            s,
            pos as int,
        ).0);
    }
    while going
        invariant
            input@ == s,
            pp == *p,
            (pp matches Parser::Many(qq) && *qq == *q) || (pp matches Parser::Many1(qq) && *qq
                == *q),
            pos <= cur <= s.len(),
            items@.len() == 0 ==> cur == pos,
            spec_many_items(pp, s, pos as int).0 == values_view(items@) + spec_many_items(
                pp,
                s,
                cur as int,
            ).0,
            spec_many_items(pp, s, pos as int).1 == spec_many_items(pp, s, cur as int).1,
            !going ==> spec_many_items(pp, s, cur as int) == (Seq::<ValueV>::empty(), cur as int),
        decreases s.len() - cur + (if going { 1int } else { 0int }),
    {
        let step = q.match_fast(input, cur);
        match step.0 {
            Some(v) => {
                if step.1 > cur {
                    proof {
                        lemma_values_view_push(items@, v);
                        assert(spec_many_items(pp, s, cur as int).0 =~= seq![value_view(v)]
                            + spec_many_items(pp, s, step.1 as int).0);
                        assert(values_view(items@) + (seq![value_view(v)] + spec_many_items(
                            pp,
                            s,
                            step.1 as int,
                        ).0) =~= values_view(items@.push(v)) + spec_many_items(
                            pp,
                            s,
                            step.1 as int,
                        ).0);
                    }
                    items.push(v);
                    cur = step.1;
                } else {
                    going = false;
                }
            },
            None => {
                going = false;
            },
        }
    }
    proof {
        assert(values_view(items@) + Seq::<ValueV>::empty() =~= values_view(items@));
    }
    (items, cur)
}

/// The collection loop shared by `ManySep` and `ManySep1`: items joined by
/// the separator, a failed trailing `separator item` attempt fully undone.
/// The returned position sits immediately after the last collected item.
fn match_sep_loop(p: &Parser, q: &Parser, sep: &Parser, input: &[u8], pos: usize) -> (r: (
    Vec<Value>,
    usize,
))
    requires
        pos <= input@.len(),
        (*p matches Parser::ManySep(qq, ss) && *qq == *q && *ss == *sep) || (*p
            matches Parser::ManySep1(qq, ss) && *qq == *q && *ss == *sep),
    ensures
        values_view(r.0@) == spec_sep_items(*p, input@, pos as int).0,
        r.1 == spec_sep_items(*p, input@, pos as int).1,
        pos <= r.1 <= input@.len(),
        r.0@.len() == 0 ==> r.1 == pos,
    decreases *p, 0int,
{
    let ghost s = input@;
    let ghost pp = *p;
    let mut items: Vec<Value> = Vec::new();
    let mut cur: usize = pos;
    let mut last: usize = pos;
    let mut going = true;
    proof {
        assert(values_view(items@) =~= Seq::<ValueV>::empty());
        assert(values_view(items@) + spec_sep_items(pp, s, pos as int).0 =~= spec_sep_items(
            pp,
            s,
            pos as int,
        ).0);
    }
    while going
        invariant
            input@ == s,
            pp == *p,
            (pp matches Parser::ManySep(qq, ss) && *qq == *q && *ss == *sep) || (pp
                matches Parser::ManySep1(qq, ss) && *qq == *q && *ss == *sep),
            pos <= cur <= s.len(),
            pos <= last <= s.len(),
            items@.len() == 0 ==> cur == pos && last == pos,
            going ==> spec_sep_items(pp, s, pos as int).0 == values_view(items@)
                + spec_sep_items(pp, s, cur as int).0,
            going ==> spec_sep_items(pp, s, pos as int).1 == (if spec_sep_items(
                pp,
                s,
                cur as int,
            ).0.len() == 0 {
                last as int
            } else {
                spec_sep_items(pp, s, cur as int).1
            }),
            !going ==> spec_sep_items(pp, s, pos as int).0 == values_view(items@)
                && spec_sep_items(pp, s, pos as int).1 == last as int,
        decreases s.len() - cur + (if going { 1int } else { 0int }),
    {
        let step = q.match_fast(input, cur);
        match step.0 {
            Some(v) => {
                if step.1 > cur {
                    let e = step.1;
                    let after_sep = sep.match_fast(input, e);
                    proof {
                        lemma_values_view_push(items@, v);
                    }
                    match after_sep.0 {
                        Some(_) => {
                            proof {
                                assert(spec_sep_items(pp, s, cur as int).0 =~= seq![
                                    value_view(v),
                                ] + (if spec_sep_items(pp, s, after_sep.1 as int).0.len() == 0 {
                                    Seq::<ValueV>::empty()
                                } else {
                                    spec_sep_items(pp, s, after_sep.1 as int).0
                                }));
                                assert(values_view(items@) + (seq![value_view(v)]
                                    + spec_sep_items(pp, s, after_sep.1 as int).0) =~= values_view(
                                    items@.push(v),
                                ) + spec_sep_items(pp, s, after_sep.1 as int).0);
                                assert(values_view(items@) + seq![value_view(v)] =~= values_view(
                                    items@.push(v),
                                ));
                            }
                            items.push(v);
                            last = e;
                            cur = after_sep.1;
                        },
                        None => {
                            proof {
                                assert(spec_sep_items(pp, s, cur as int).0 =~= seq![
                                    value_view(v),
                                ]);
                                assert(values_view(items@) + seq![value_view(v)] =~= values_view(
                                    items@.push(v),
                                ));
                            }
                            items.push(v);
                            last = e;
                            cur = e;
                            going = false;
                        },
                    }
                } else {
                    going = false;
                }
            },
            None => {
                going = false;
            },
        }
    }
    (items, last)
}

} // verus!
