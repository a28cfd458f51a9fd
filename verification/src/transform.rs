//! Pure transformations of values, and chains of them.

use vstd::prelude::*;
use vstd::string::StringExecFns;
use crate::error::Kind;
use crate::value::{Number, NumberView, Value, ValueView};

verus! {

/// A pure transformation of one value. Each declares the kind of value that
/// it takes.
#[derive(Debug, Clone, PartialEq, Eq)]
pub enum Transform {
    /// Negates a boolean.
    Not,
    /// Adds to a number that is a 64-bit signed integer; the sum stops at
    /// the bounds of `i64`. A number that is none is left as it is.
    Add(i64),
    /// Puts a string in upper case.
    Uppercase,
    /// Puts the given text behind a string.
    Append(String),
    /// Puts the given text before a string.
    Prepend(String),
}

/// The mathematical content of a [`Transform`].
pub enum TransformView {
    Not,
    Add(i64),
    Uppercase,
    Append(Seq<char>),
    Prepend(Seq<char>),
}

/// A value of kind `actual` reached a transformation that takes `expected`.
#[derive(Clone, Copy, PartialEq, Eq, Structural, Debug)]
pub struct Mismatch {
    pub expected: Kind,
    pub actual: Kind,
}

/// What `str::to_uppercase` gives for a text.
pub uninterp spec fn uppercase_of(text: Seq<char>) -> Seq<char>;

/// Calls `str::to_uppercase`. Unproved: that the new string is
/// `uppercase_of` the given one, that is, that it depends on the text alone.
#[verifier::external_body]
fn to_uppercase(text: &str) -> (r: String)
    ensures
        r@ == uppercase_of(text@),
{
    text.to_uppercase()
}

/// The sum of two numbers, held within the bounds of `i64`.
pub open spec fn saturating_sum(a: i64, b: i64) -> i64 {
    if a + b > i64::MAX {
        i64::MAX
    } else if a + b < i64::MIN {
        i64::MIN
    } else {
        (a + b) as i64
    }
}

impl TransformView {
    /// The kind of value that the transformation takes.
    pub open spec fn input_kind(self) -> Kind {
        match self {
            TransformView::Not => Kind::Bool,
            TransformView::Add(_) => Kind::Number,
            TransformView::Uppercase => Kind::Str,
            TransformView::Append(_) => Kind::Str,
            TransformView::Prepend(_) => Kind::Str,
        }
    }

    /// The transformation as a function. On a value of another kind than
    /// `input_kind` it is the identity, and so is `Add` on a number that is
    /// no 64-bit signed integer.
    pub open spec fn apply(self, input: ValueView) -> ValueView {
        match (self, input) {
            (TransformView::Not, ValueView::Bool(b)) => ValueView::Bool(!b),
            (TransformView::Add(k), ValueView::Number(NumberView::Integer(n))) => ValueView::Number(
                NumberView::Integer(saturating_sum(n, k)),
            ),
            (TransformView::Uppercase, ValueView::Str(s)) => ValueView::Str(uppercase_of(s)),
            (TransformView::Append(t), ValueView::Str(s)) => ValueView::Str(s + t),
            (TransformView::Prepend(t), ValueView::Str(s)) => ValueView::Str(t + s),
            _ => input,
        }
    }

    /// One link of a chain: the transformed value, or the mismatch of kinds.
    pub open spec fn step(self, input: ValueView) -> Result<ValueView, Mismatch> {
        if self.input_kind() == input.kind() {
            Ok(self.apply(input))
        } else {
            Err(Mismatch { expected: self.input_kind(), actual: input.kind() })
        }
    }
}

impl View for Transform {
    type V = TransformView;

    open spec fn view(&self) -> TransformView {
        match *self {
            Transform::Not => TransformView::Not,
            Transform::Add(k) => TransformView::Add(k),
            Transform::Uppercase => TransformView::Uppercase,
            Transform::Append(t) => TransformView::Append(t@),
            Transform::Prepend(t) => TransformView::Prepend(t@),
        }
    }
}

/// The contents of a chain of transformations, in order.
pub open spec fn chain_view(chain: Seq<Transform>) -> Seq<TransformView> {
    chain.map_values(|t: Transform| t@)
}

/// The chain applied from its first transformation to its last: each
/// output is the next input, and the first mismatch of kinds ends it.
pub open spec fn fold_chain(chain: Seq<TransformView>, input: ValueView) -> Result<
    ValueView,
    Mismatch,
>
    decreases chain.len(),
{
    if chain.len() == 0 {
        Ok(input)
    } else {
        match fold_chain(chain.drop_last(), input) {
            Ok(value) => chain.last().step(value),
            Err(mismatch) => Err(mismatch),
        }
    }
}

/// The content of the outcome of a chain.
pub open spec fn chain_outcome_view(r: Result<Value, Mismatch>) -> Result<ValueView, Mismatch> {
    match r {
        Ok(v) => Ok(v@),
        Err(m) => Err(m),
    }
}

impl Transform {
    /// The kind of value that the transformation takes.
    pub fn input_kind(&self) -> (k: Kind)
        ensures
            k == self@.input_kind(),
    {
        match self {
            Transform::Not => Kind::Bool,
            Transform::Add(_) => Kind::Number,
            Transform::Uppercase => Kind::Str,
            Transform::Append(_) => Kind::Str,
            Transform::Prepend(_) => Kind::Str,
        }
    }

    /// A copy with the same content.
    pub fn duplicate(&self) -> (r: Transform)
        ensures
            r@ == self@,
    {
        match self {
            Transform::Not => Transform::Not,
            Transform::Add(k) => Transform::Add(*k),
            Transform::Uppercase => Transform::Uppercase,
            Transform::Append(t) => Transform::Append(t.clone()),
            Transform::Prepend(t) => Transform::Prepend(t.clone()),
        }
    }

    /// Applies the transformation to a value of the kind that it takes, and
    /// reports the mismatch for a value of another kind.
    pub fn apply(&self, input: Value) -> (r: Result<Value, Mismatch>)
        ensures
            chain_outcome_view(r) == self@.step(input@),
    {
        match (self, input) {
            (Transform::Not, Value::Bool(b)) => Ok(Value::Bool(!b)),
            (Transform::Add(k), Value::Number(Number::Integer(n))) => {
                let sum = match n.checked_add(*k) {
                    Some(s) => s,
                    None => if *k > 0 {
                        i64::MAX
                    } else {
                        i64::MIN
                    },
                };
                Ok(Value::Number(Number::Integer(sum)))
            },
            (Transform::Add(_), Value::Number(Number::Numeral(text))) => Ok(
                Value::Number(Number::Numeral(text)),
            ),
            (Transform::Uppercase, Value::Str(s)) => Ok(Value::Str(to_uppercase(s.as_str()))),
            (Transform::Append(t), Value::Str(s)) => Ok(Value::Str(s.concat(t.as_str()))),
            (Transform::Prepend(t), Value::Str(s)) => Ok(
                Value::Str(t.clone().concat(s.as_str())),
            ),
            (t, v) => Err(Mismatch { expected: t.input_kind(), actual: v.kind() }),
        }
    }
}

/// Applies a chain to a value, from the first transformation to the last.
pub fn run_chain(chain: &Vec<Transform>, input: Value) -> (r: Result<Value, Mismatch>)
    ensures
        chain_outcome_view(r) == fold_chain(chain_view(chain@), input@),
{
    let ghost start = input@;
    let ghost links = chain_view(chain@);
    let mut current = input;
    let mut i: usize = 0;
    while i < chain.len()
        invariant
            i <= chain.len(),
            start == input@,
            links == chain_view(chain@),
            links.len() == chain.len(),
            fold_chain(links.take(i as int), start) == Ok::<ValueView, Mismatch>(current@),
        decreases chain.len() - i,
    {
        proof {
            assert(links.take(i + 1).drop_last() =~= links.take(i as int));
        }
        match chain[i].apply(current) {
            Ok(next) => {
                current = next;
            },
            Err(mismatch) => {
                proof {
                    let done = links.take(i + 1);
                    lemma_mismatch_stays(done, links.skip(i + 1), start);
                    assert(done + links.skip(i + 1) =~= links);
                }
                return Err(mismatch);
            },
        }
        i += 1;
    }
    proof {
        assert(links.take(i as int) =~= links);
    }
    Ok(current)
}

/// A chain behind another takes what the first one gives, and a mismatch in
/// the first one is the outcome of both.
pub proof fn lemma_fold_chain_concat(
    first: Seq<TransformView>,
    second: Seq<TransformView>,
    input: ValueView,
)
    ensures
        fold_chain(first + second, input) == match fold_chain(first, input) {
            Ok(value) => fold_chain(second, value),
            Err(mismatch) => Err(mismatch),
        },
    decreases second.len(),
{
    if second.len() > 0 {
        assert((first + second).drop_last() =~= first + second.drop_last());
        lemma_fold_chain_concat(first, second.drop_last(), input);
    }
}

/// Once a chain has met a mismatch, no transformation behind it changes
/// the outcome.
pub proof fn lemma_mismatch_stays(
    first: Seq<TransformView>,
    second: Seq<TransformView>,
    input: ValueView,
)
    requires
        fold_chain(first, input) is Err,
    ensures
        fold_chain(first + second, input) == fold_chain(first, input),
{
    lemma_fold_chain_concat(first, second, input);
}

/// Transformations apply in the order in which they were attached: a chain
/// of `f1`, `f2`, `f3` whose kinds fit gives `f3(f2(f1(x)))`.
pub proof fn lemma_chain_applies_in_order(
    f1: TransformView,
    f2: TransformView,
    f3: TransformView,
    x: ValueView,
)
    requires
        f1.input_kind() == x.kind(),
        f2.input_kind() == f1.apply(x).kind(),
        f3.input_kind() == f2.apply(f1.apply(x)).kind(),
    ensures
        fold_chain(seq![f1, f2, f3], x) == Ok::<ValueView, Mismatch>(
            f3.apply(f2.apply(f1.apply(x))),
        ),
{
    let c3 = seq![f1, f2, f3];
    let c2 = seq![f1, f2];
    let c1 = seq![f1];
    assert(c3.drop_last() =~= c2);
    assert(c2.drop_last() =~= c1);
    assert(fold_chain(c1.drop_last(), x) == Ok::<ValueView, Mismatch>(x));
    assert(fold_chain(c1, x) == Ok::<ValueView, Mismatch>(f1.apply(x)));
    assert(fold_chain(c2, x) == Ok::<ValueView, Mismatch>(f2.apply(f1.apply(x))));
}

/// Attaching one more transformation applies it to what the chain gave
/// before.
pub proof fn lemma_attach_applies_last(
    chain: Seq<TransformView>,
    f: TransformView,
    input: ValueView,
)
    ensures
        fold_chain(chain.push(f), input) == match fold_chain(chain, input) {
            Ok(value) => f.step(value),
            Err(mismatch) => Err(mismatch),
        },
{
    assert(chain.push(f).drop_last() =~= chain);
}

} // verus!
