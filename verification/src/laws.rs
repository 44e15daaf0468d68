//! Proved laws of the algebra.
//!
//! These hold of every parser the algebra can build, by induction over the
//! structure of `spec_parse`: every success consumes a prefix (the
//! remainder is a suffix of the input), a rejected prediction implies
//! failure, ordered choice is determined by the left side alone, and
//! separator-aware repetition collects exactly the items an input carries.

use vstd::prelude::*;
use crate::parser::{
    Parser, digit_run_len, find_close, is_digit, is_ws, item_parser, separator, spec_admits,
    spec_many_items, spec_parse, spec_sep_items, ws_len, QUOTE,
};
use crate::value::ValueV;

verus! {

/// The maximal whitespace run starting inside `s` ends inside `s`.
pub proof fn lemma_ws_len_bounds(s: Seq<u8>, pos: int)
    requires
        0 <= pos <= s.len(),
    ensures
        0 <= ws_len(s, pos),
        pos + ws_len(s, pos) <= s.len(),
    decreases s.len() - pos,
{
    if pos < s.len() && is_ws(s[pos]) {
        lemma_ws_len_bounds(s, pos + 1);
    }
}

/// The maximal digit run starting inside `s` ends inside `s`.
pub proof fn lemma_digit_run_bounds(s: Seq<u8>, pos: int)
    requires
        0 <= pos <= s.len(),
    ensures
        0 <= digit_run_len(s, pos),
        pos + digit_run_len(s, pos) <= s.len(),
    decreases s.len() - pos,
{
    if pos < s.len() && is_digit(s[pos]) {
        lemma_digit_run_bounds(s, pos + 1);
    }
}

/// A found closing quote lies inside `s`, at or after the scan start.
pub proof fn lemma_find_close_bounds(s: Seq<u8>, j: int)
    ensures
        find_close(s, j) matches Some(i) ==> j <= i < s.len() && s[i] == QUOTE,
    decreases s.len() - j,
{
    if 0 <= j < s.len() {
        lemma_find_close_bounds(s, j + 1);
    }
}

/// Suffix property: on success the remainder starts at or after the
/// position the parser was invoked at, and inside the input; so the
/// remainder is always a strict-or-equal suffix of the input.
pub proof fn lemma_parse_in_range(p: Parser, s: Seq<u8>, pos: int)
    ensures
        spec_parse(p, s, pos) matches Some(r) ==> 0 <= pos <= r.1 <= s.len(),
    decreases s.len() - pos, p, 2int,
{
    if 0 <= pos <= s.len() {
        match p {
            Parser::Literal(_) => {},
            Parser::Whitespace => {
                lemma_ws_len_bounds(s, pos);
            },
            Parser::Quoted => {
                lemma_find_close_bounds(s, pos + 1);
            },
            Parser::Pattern(_) => {},
            Parser::Digits => {
                lemma_digit_run_bounds(s, pos);
            },
            Parser::And(a, b) => {
                lemma_parse_in_range(*a, s, pos);
                match spec_parse(*a, s, pos) {
                    Some((_, mid)) => lemma_parse_in_range(*b, s, mid),
                    None => {},
                }
            },
            Parser::Left(a, b) => {
                lemma_parse_in_range(*a, s, pos);
                match spec_parse(*a, s, pos) {
                    Some((_, mid)) => lemma_parse_in_range(*b, s, mid),
                    None => {},
                }
            },
            Parser::Right(a, b) => {
                lemma_parse_in_range(*a, s, pos);
                match spec_parse(*a, s, pos) {
                    Some((_, mid)) => lemma_parse_in_range(*b, s, mid),
                    None => {},
                }
            },
            Parser::Or(a, b) => {
                lemma_parse_in_range(*a, s, pos);
                lemma_parse_in_range(*b, s, pos);
            },
            Parser::Opt(q) => {
                lemma_parse_in_range(*q, s, pos);
            },
            Parser::Many(_) => {
                lemma_many_items_range(p, s, pos);
            },
            Parser::Many1(_) => {
                lemma_many_items_range(p, s, pos);
            },
            Parser::ManySep(_, _) => {
                lemma_sep_items_range(p, s, pos);
            },
            Parser::ManySep1(_, _) => {
                lemma_sep_items_range(p, s, pos);
            },
        }
    }
}

/// The position after a repetition's items lies between the start position
/// and the end of the input.
pub proof fn lemma_many_items_range(p: Parser, s: Seq<u8>, pos: int)
    requires
        0 <= pos <= s.len(),
    ensures
        pos <= spec_many_items(p, s, pos).1 <= s.len(),
    decreases s.len() - pos, p, 1int,
{
    match p {
        Parser::Many(q) => {
            lemma_parse_in_range(*q, s, pos);
            match spec_parse(*q, s, pos) {
                Some((_, e)) => {
                    if pos < e <= s.len() {
                        lemma_many_items_range(p, s, e);
                    }
                },
                None => {},
            }
        },
        Parser::Many1(q) => {
            lemma_parse_in_range(*q, s, pos);
            match spec_parse(*q, s, pos) {
                Some((_, e)) => {
                    if pos < e <= s.len() {
                        lemma_many_items_range(p, s, e);
                    }
                },
                None => {},
            }
        },
        _ => {},
    }
}

/// The position after a separated repetition's items lies between the
/// start position and the end of the input.
pub proof fn lemma_sep_items_range(p: Parser, s: Seq<u8>, pos: int)
    requires
        0 <= pos <= s.len(),
    ensures
        pos <= spec_sep_items(p, s, pos).1 <= s.len(),
    decreases s.len() - pos, p, 1int,
{
    match p {
        Parser::ManySep(q, sep) => {
            lemma_parse_in_range(*q, s, pos);
            match spec_parse(*q, s, pos) {
                Some((_, e)) => {
                    if pos < e <= s.len() {
                        lemma_parse_in_range(*sep, s, e);
                        match spec_parse(*sep, s, e) {
                            Some((_, se)) => {
                                if e <= se <= s.len() {
                                    lemma_sep_items_range(p, s, se);
                                }
                            },
                            None => {},
                        }
                    }
                },
                None => {},
            }
        },
        Parser::ManySep1(q, sep) => {
            lemma_parse_in_range(*q, s, pos);
            match spec_parse(*q, s, pos) {
                Some((_, e)) => {
                    if pos < e <= s.len() {
                        lemma_parse_in_range(*sep, s, e);
                        match spec_parse(*sep, s, e) {
                            Some((_, se)) => {
                                if e <= se <= s.len() {
                                    lemma_sep_items_range(p, s, se);
                                }
                            },
                            None => {},
                        }
                    }
                },
                None => {},
            }
        },
        _ => {},
    }
}

/// Prediction soundness: when the prediction test rejects the leading byte
/// of the remaining input, the parser fails on it. Prediction never rules
/// out a matchable input, so an enclosing choice may skip a rejected
/// alternative without running it.
pub proof fn lemma_prediction_sound(p: Parser, s: Seq<u8>, pos: int)
    requires
        0 <= pos < s.len(),
        !spec_admits(p, s[pos]),
    ensures
        spec_parse(p, s, pos) is None,
    decreases p,
{
    match p {
        Parser::Literal(t) => {
            if pos + t@.len() <= s.len() && s.subrange(pos, pos + t@.len() as int) == t@ {
                assert(t@[0] == s.subrange(pos, pos + t@.len() as int)[0]);
            }
        },
        Parser::Digits => {},
        Parser::And(a, _) => {
            lemma_prediction_sound(*a, s, pos);
        },
        Parser::Left(a, _) => {
            lemma_prediction_sound(*a, s, pos);
        },
        Parser::Right(a, _) => {
            lemma_prediction_sound(*a, s, pos);
        },
        Parser::Or(a, b) => {
            lemma_prediction_sound(*a, s, pos);
            lemma_prediction_sound(*b, s, pos);
        },
        Parser::Many1(q) => {
            lemma_prediction_sound(*q, s, pos);
            // with the first item failing, the collection is empty
            assert(spec_many_items(p, s, pos).0.len() == 0);
        },
        Parser::ManySep1(q, _) => {
            lemma_prediction_sound(*q, s, pos);
            // with the first item failing, the collection is empty
            assert(spec_sep_items(p, s, pos).0.len() == 0);
        },
        _ => {},
    }
}

/// Separator idempotence: on an input carrying a chain of items joined by
/// the separator and no trailing separator, the separator-aware
/// repetition collects exactly those items, in order, and leaves the
/// remainder immediately after the last one.
///
/// The chain is given by positions: the inner parser matches item `i`
/// from `starts[i]` to `ends[i]`, consuming at least one byte; the
/// separator carries `ends[i]` to `starts[i + 1]`; and the separator
/// fails after the last item.
pub proof fn lemma_separator_exact(
    p: Parser,
    s: Seq<u8>,
    vals: Seq<ValueV>,
    starts: Seq<int>,
    ends: Seq<int>,
)
    requires
        p is ManySep || p is ManySep1,
        vals.len() >= 1,
        starts.len() == vals.len(),
        ends.len() == vals.len(),
        0 <= starts[0] <= s.len(),
        forall|i: int| 0 <= i < vals.len() ==> #[trigger] spec_parse(item_parser(p), s, starts[i])
            == Some((vals[i], ends[i])),
        forall|i: int| 0 <= i < vals.len() ==> #[trigger] starts[i] < ends[i],
        forall|i: int| 0 <= i < vals.len() - 1 ==> (#[trigger] spec_parse(
            separator(p),
            s,
            ends[i],
        ) matches Some(r) && r.1 == starts[i + 1]),
        spec_parse(separator(p), s, ends[vals.len() - 1]) is None,
    ensures
        spec_sep_items(p, s, starts[0]) == (vals, ends[vals.len() - 1]),
        spec_parse(p, s, starts[0]) == Some((ValueV::List(vals), ends[vals.len() - 1])),
    decreases vals.len(),
{
    let q = item_parser(p);
    let sp = separator(p);
    let pos = starts[0];
    let n = vals.len() as int;
    lemma_parse_in_range(q, s, pos);
    if n == 1 {
        assert(vals =~= seq![vals[0]]);
        assert(spec_sep_items(p, s, pos) == (seq![vals[0]], ends[0]));
    } else {
        lemma_parse_in_range(sp, s, ends[0]);
        let vals2 = vals.drop_first();
        let starts2 = starts.drop_first();
        let ends2 = ends.drop_first();
        assert forall|i: int| 0 <= i < vals2.len() implies #[trigger] spec_parse(
            q,
            s,
            starts2[i],
        ) == Some((vals2[i], ends2[i])) by {
            assert(spec_parse(q, s, starts[i + 1]) == Some((vals[i + 1], ends[i + 1])));
        }
        assert forall|i: int| 0 <= i < vals2.len() implies #[trigger] starts2[i] < ends2[i] by {
            assert(starts[i + 1] < ends[i + 1]);
        }
        assert forall|i: int| 0 <= i < vals2.len() - 1 implies (#[trigger] spec_parse(
            sp,
            s,
            ends2[i],
        ) matches Some(r) && r.1 == starts2[i + 1]) by {
            assert(spec_parse(sp, s, ends[i + 1]) matches Some(r) && r.1 == starts[i + 2]);
        }
        assert(ends2[vals2.len() - 1] == ends[n - 1]);
        assert(spec_parse(sp, s, ends[0]) matches Some(r) && r.1 == starts[1]);
        lemma_separator_exact(p, s, vals2, starts2, ends2);
        assert(vals =~= seq![vals[0]] + vals2);
        assert(spec_sep_items(p, s, pos) == (seq![vals[0]] + vals2, ends[n - 1]));
    }
}

/// Choice determinism: an ordered choice yields the left result whenever
/// the left side succeeds, and otherwise yields exactly the right side's
/// result on the same original input.
pub proof fn lemma_choice_determinism(p: Parser, s: Seq<u8>, pos: int)
    requires
        p is Or,
    ensures
        spec_parse(*p->Or_0, s, pos) is Some ==> spec_parse(p, s, pos) == spec_parse(
            *p->Or_0,
            s,
            pos,
        ),
        spec_parse(*p->Or_0, s, pos) is None ==> spec_parse(p, s, pos) == spec_parse(
            *p->Or_1,
            s,
            pos,
        ),
{
    lemma_parse_in_range(*p->Or_0, s, pos);
}

} // verus!
