//! The uniform output type of the engine.
//!
//! Every combinator produces a `Value`: primitives yield `Unit`, matched
//! text or an accumulated digit run; sequencing yields a `Pair`; the
//! optional combinator yields a `Maybe`; repetition yields a `List`.
//! `ValueV` is the spec-level shape of a `Value`, with mathematical
//! sequences in place of vectors.

use vstd::prelude::*;

verus! {

/// Spec-level shape of a parse result.
pub enum ValueV {
    /// No payload (whitespace skip).
    Unit,
    /// A run of matched bytes.
    Text(Seq<u8>),
    /// An accumulated digit run: the value wraps modulo 2^64, the count is
    /// the number of digits consumed.
    Digits { value: u64, count: nat },
    /// Both outputs of a sequence.
    Pair(Box<ValueV>, Box<ValueV>),
    /// The output of an optional match.
    Maybe(Option<Box<ValueV>>),
    /// The outputs of a repetition, in input order.
    List(Seq<ValueV>),
}

/// A parse result of the engine.
#[derive(Debug, PartialEq, Eq)]
pub enum Value {
    /// No payload (whitespace skip).
    Unit,
    /// A run of matched bytes.
    Text(Vec<u8>),
    /// An accumulated digit run: the value wraps modulo 2^64, the count is
    /// the number of digits consumed.
    Digits { value: u64, count: u64 },
    /// Both outputs of a sequence.
    Pair(Box<Value>, Box<Value>),
    /// The output of an optional match.
    Maybe(Option<Box<Value>>),
    /// The outputs of a repetition, in input order.
    List(Vec<Value>),
}

/// The spec-level shape of a parse result.
pub open spec fn value_view(v: Value) -> ValueV
    decreases v,
{
    match v {
        Value::Unit => ValueV::Unit,
        Value::Text(t) => ValueV::Text(t@),
        Value::Digits { value, count } => ValueV::Digits { value, count: count as nat },
        Value::Pair(a, b) => ValueV::Pair(Box::new(value_view(*a)), Box::new(value_view(*b))),
        Value::Maybe(o) => match o {
            Option::None => ValueV::Maybe(Option::None),
            Option::Some(b) => ValueV::Maybe(Option::Some(Box::new(value_view(*b)))),
        },
        Value::List(items) => ValueV::List(values_view(items@)),
    }
}

/// The spec-level shapes of a sequence of parse results, elementwise.
pub open spec fn values_view(s: Seq<Value>) -> Seq<ValueV>
    decreases s,
{
    if s.len() == 0 {
        Seq::empty()
    } else {
        values_view(s.drop_last()).push(value_view(s.last()))
    }
}

impl View for Value {
    type V = ValueV;

    open spec fn view(&self) -> ValueV {
        value_view(*self)
    }
}

/// `values_view` maps elementwise: it keeps the length and views each element.
pub proof fn lemma_values_view_index(s: Seq<Value>)
    ensures
        values_view(s).len() == s.len(),
        forall|i: int| 0 <= i < s.len() ==> values_view(s)[i] == value_view(s[i]),
    decreases s,
{
    if s.len() > 0 {
        lemma_values_view_index(s.drop_last());
    }
}

/// Appending one element to a vector of results appends its view.
pub proof fn lemma_values_view_push(s: Seq<Value>, v: Value)
    ensures
        values_view(s.push(v)) == values_view(s).push(value_view(v)),
{
    assert(s.push(v).drop_last() =~= s);
    assert(s.push(v).last() == v);
}

} // verus!
