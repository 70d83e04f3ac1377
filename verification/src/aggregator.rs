use vstd::prelude::*;

verus! {

/// The capability the wheels are generic over: a monoid of partial
/// aggregates, a mutable accumulator that raw inputs are folded into, and a
/// lowering to the final result.
///
/// The `*_spec` functions are the mathematical meaning of the operations;
/// each executable method is bound to its spec, and the lemmas state
/// the algebra that the wheels rely on.
pub trait Aggregator: Sized {
    /// Raw payload of an event
    type Input;

    /// Accumulator under construction, held by the write-ahead slots
    type MutablePartialAggregate;

    /// Frozen monoid element, held by the wheel slots
    type PartialAggregate: Copy;

    /// Final, lowered result
    type Aggregate;

    spec fn identity_spec() -> Self::PartialAggregate;

    spec fn lift_spec(&self, input: Self::Input) -> Self::MutablePartialAggregate;

    spec fn combine_mutable_spec(
        &self,
        acc: Self::MutablePartialAggregate,
        input: Self::Input,
    ) -> Self::MutablePartialAggregate;

    spec fn freeze_spec(acc: Self::MutablePartialAggregate) -> Self::PartialAggregate;

    spec fn combine_spec(
        a: Self::PartialAggregate,
        b: Self::PartialAggregate,
    ) -> Self::PartialAggregate;

    spec fn lower_spec(partial: Self::PartialAggregate) -> Self::Aggregate;

    /// Whether the monoid is a group, so that `combine_inverse` exists.
    spec fn invertible_spec() -> bool;

    spec fn combine_inverse_spec(
        a: Self::PartialAggregate,
        b: Self::PartialAggregate,
    ) -> Self::PartialAggregate;

    spec fn simd_support_spec() -> bool;

    /// Whether `combine` is commutative, so that partial aggregates may be
    /// combined in any order.
    spec fn commutative_spec() -> bool;

    /// The neutral element of `combine`.
    fn identity() -> (id: Self::PartialAggregate)
        ensures
            id == Self::identity_spec(),
    ;

    /// Starts an accumulator from one input.
    fn lift(&self, input: Self::Input) -> (acc: Self::MutablePartialAggregate)
        ensures
            acc == self.lift_spec(input),
    ;

    /// Folds one more input into an accumulator, in place.
    fn combine_mutable(&self, acc: &mut Self::MutablePartialAggregate, input: Self::Input)
        ensures
            *final(acc) == self.combine_mutable_spec(*old(acc), input),
    ;

    /// Closes an accumulator.
    fn freeze(acc: Self::MutablePartialAggregate) -> (partial: Self::PartialAggregate)
        ensures
            partial == Self::freeze_spec(acc),
    ;

    /// The monoid operation; `a` is the older operand.
    fn combine(a: Self::PartialAggregate, b: Self::PartialAggregate) -> (c:
        Self::PartialAggregate)
        ensures
            c == Self::combine_spec(a, b),
    ;

    /// Lowers a partial aggregate to the final result.
    fn lower(partial: Self::PartialAggregate) -> (aggregate: Self::Aggregate)
        ensures
            aggregate == Self::lower_spec(partial),
    ;

    fn invertible() -> (yes: bool)
        ensures
            yes == Self::invertible_spec(),
    ;

    /// Takes `b` out of `a`; `None` exactly when the monoid is no group.
    fn combine_inverse(a: Self::PartialAggregate, b: Self::PartialAggregate) -> (c: Option<
        Self::PartialAggregate,
    >)
        ensures
            c == if Self::invertible_spec() {
                Some(Self::combine_inverse_spec(a, b))
            } else {
                None
            },
    ;

    fn simd_support() -> (yes: bool)
        ensures
            yes == Self::simd_support_spec(),
    ;

    /// The identity is neutral on both sides.
    proof fn lemma_identity(a: Self::PartialAggregate)
        ensures
            Self::combine_spec(Self::identity_spec(), a) == a,
            Self::combine_spec(a, Self::identity_spec()) == a,
    ;

    /// `combine` is associative.
    proof fn lemma_associative(
        a: Self::PartialAggregate,
        b: Self::PartialAggregate,
        c: Self::PartialAggregate,
    )
        ensures
            Self::combine_spec(Self::combine_spec(a, b), c) == Self::combine_spec(
                a,
                Self::combine_spec(b, c),
            ),
    ;

    /// Where `combine` is commutative, the operands may be swapped.
    proof fn lemma_commutative(a: Self::PartialAggregate, b: Self::PartialAggregate)
        ensures
            Self::commutative_spec() ==> Self::combine_spec(a, b) == Self::combine_spec(b, a),
    ;

    /// In a group, taking either operand out of a combination leaves the other.
    proof fn lemma_inverse(a: Self::PartialAggregate, b: Self::PartialAggregate)
        ensures
            Self::invertible_spec() ==> Self::combine_inverse_spec(Self::combine_spec(a, b), b)
                == a,
            Self::invertible_spec() ==> Self::combine_inverse_spec(Self::combine_spec(a, b), a)
                == b,
    ;
}

/// The combination of a sequence of partial aggregates, oldest first. The
/// empty sequence gives the identity.
pub open spec fn fold<A: Aggregator>(s: Seq<A::PartialAggregate>) -> A::PartialAggregate
    decreases s.len(),
{
    if s.len() == 0 {
        A::identity_spec()
    } else {
        A::combine_spec(fold::<A>(s.drop_last()), s.last())
    }
}

/// `fold` as an optional value: `None` for the empty sequence.
pub open spec fn fold_some<A: Aggregator>(s: Seq<A::PartialAggregate>) -> Option<
    A::PartialAggregate,
> {
    if s.len() == 0 {
        None
    } else {
        Some(fold::<A>(s))
    }
}

/// What `combine_or_insert` leaves in `dest`.
pub open spec fn combine_or_insert_spec<A: Aggregator>(
    dest: Option<A::PartialAggregate>,
    entry: A::PartialAggregate,
) -> Option<A::PartialAggregate> {
    match dest {
        Some(current) => Some(A::combine_spec(current, entry)),
        None => Some(entry),
    }
}

/// Combines `entry` into `dest`, or stores it where `dest` is empty.
pub fn combine_or_insert<A: Aggregator>(
    dest: &mut Option<A::PartialAggregate>,
    entry: A::PartialAggregate,
)
    ensures
        *final(dest) == combine_or_insert_spec::<A>(*old(dest), entry),
{
    let next = match *dest {
        Some(current) => A::combine(current, entry),
        None => entry,
    };
    *dest = Some(next);
}

pub proof fn lemma_fold_single<A: Aggregator>(a: A::PartialAggregate)
    ensures
        fold::<A>(seq![a]) == a,
{
    let s = seq![a];
    assert(s.drop_last() =~= Seq::empty());
    assert(fold::<A>(s.drop_last()) == A::identity_spec());
    assert(s.last() == a);
    A::lemma_identity(a);
}

pub proof fn lemma_fold_push<A: Aggregator>(s: Seq<A::PartialAggregate>, a: A::PartialAggregate)
    ensures
        fold::<A>(s.push(a)) == A::combine_spec(fold::<A>(s), a),
{
    assert(s.push(a).drop_last() =~= s);
    assert(s.push(a).last() == a);
}

/// The fold of a concatenation is the combination of the folds.
pub proof fn lemma_fold_concat<A: Aggregator>(
    s: Seq<A::PartialAggregate>,
    t: Seq<A::PartialAggregate>,
)
    ensures
        fold::<A>(s + t) == A::combine_spec(fold::<A>(s), fold::<A>(t)),
    decreases t.len(),
{
    if t.len() == 0 {
        assert(s + t =~= s);
        A::lemma_identity(fold::<A>(s));
    } else {
        let t0 = t.drop_last();
        assert((s + t).drop_last() =~= s + t0);
        assert((s + t).last() == t.last());
        lemma_fold_concat::<A>(s, t0);
        A::lemma_associative(fold::<A>(s), fold::<A>(t0), t.last());
    }
}

/// Splitting a stretch `[from, to)` of a sequence at `mid` splits its fold.
pub proof fn lemma_fold_split<A: Aggregator>(
    s: Seq<A::PartialAggregate>,
    from: int,
    mid: int,
    to: int,
)
    requires
        0 <= from <= mid <= to <= s.len(),
    ensures
        fold::<A>(s.subrange(from, to)) == A::combine_spec(
            fold::<A>(s.subrange(from, mid)),
            fold::<A>(s.subrange(mid, to)),
        ),
{
    assert(s.subrange(from, to) =~= s.subrange(from, mid) + s.subrange(mid, to));
    lemma_fold_concat::<A>(s.subrange(from, mid), s.subrange(mid, to));
}

/// Folding the items one by one into an optional total gives `fold_some`.
pub proof fn lemma_combine_or_insert_fold<A: Aggregator>(
    s: Seq<A::PartialAggregate>,
    a: A::PartialAggregate,
)
    ensures
        combine_or_insert_spec::<A>(fold_some::<A>(s), a) == fold_some::<A>(s.push(a)),
{
    lemma_fold_push::<A>(s, a);
    if s.len() == 0 {
        A::lemma_identity(a);
    }
}

/// Sum of `u64` values modulo 2^64: a commutative group, so every wheel
/// optimisation applies to it.
#[derive(Debug, Clone, Copy, Default)]
pub struct U64SumAggregator;

impl Aggregator for U64SumAggregator {
    type Input = u64;

    type MutablePartialAggregate = u64;

    type PartialAggregate = u64;

    type Aggregate = u64;

    open spec fn identity_spec() -> u64 {
        0
    }

    open spec fn lift_spec(&self, input: u64) -> u64 {
        input
    }

    open spec fn combine_mutable_spec(&self, acc: u64, input: u64) -> u64 {
        vstd::wrapping::u64_specs::wrapping_add(acc, input)
    }

    open spec fn freeze_spec(acc: u64) -> u64 {
        acc
    }

    open spec fn combine_spec(a: u64, b: u64) -> u64 {
        vstd::wrapping::u64_specs::wrapping_add(a, b)
    }

    open spec fn lower_spec(partial: u64) -> u64 {
        partial
    }

    open spec fn invertible_spec() -> bool {
        true
    }

    open spec fn combine_inverse_spec(a: u64, b: u64) -> u64 {
        vstd::wrapping::u64_specs::wrapping_sub(a, b)
    }

    open spec fn simd_support_spec() -> bool {
        true
    }

    open spec fn commutative_spec() -> bool {
        true
    }

    fn identity() -> (id: u64) {
        0
    }

    fn lift(&self, input: u64) -> (acc: u64) {
        input
    }

    fn combine_mutable(&self, acc: &mut u64, input: u64) {
        *acc = acc.wrapping_add(input);
    }

    fn freeze(acc: u64) -> (partial: u64) {
        acc
    }

    fn combine(a: u64, b: u64) -> (c: u64) {
        a.wrapping_add(b)
    }

    fn lower(partial: u64) -> (aggregate: u64) {
        partial
    }

    fn invertible() -> (yes: bool) {
        true
    }

    fn combine_inverse(a: u64, b: u64) -> (c: Option<u64>) {
        Some(a.wrapping_sub(b))
    }

    fn simd_support() -> (yes: bool) {
        true
    }

    proof fn lemma_identity(a: u64) {
    }

    proof fn lemma_associative(a: u64, b: u64, c: u64) {
    }

    proof fn lemma_commutative(a: u64, b: u64) {
    }

    proof fn lemma_inverse(a: u64, b: u64) {
    }
}

/// Maximum of `u64` values: a commutative monoid with identity zero that
/// is no group, so neither prefix sums nor the inverse landmark apply to it.
#[derive(Debug, Clone, Copy, Default)]
pub struct U64MaxAggregator;

impl Aggregator for U64MaxAggregator {
    type Input = u64;

    type MutablePartialAggregate = u64;

    type PartialAggregate = u64;

    type Aggregate = u64;

    open spec fn identity_spec() -> u64 {
        0
    }

    open spec fn lift_spec(&self, input: u64) -> u64 {
        input
    }

    open spec fn combine_mutable_spec(&self, acc: u64, input: u64) -> u64 {
        if acc >= input {
            acc
        } else {
            input
        }
    }

    open spec fn freeze_spec(acc: u64) -> u64 {
        acc
    }

    open spec fn combine_spec(a: u64, b: u64) -> u64 {
        if a >= b {
            a
        } else {
            b
        }
    }

    open spec fn lower_spec(partial: u64) -> u64 {
        partial
    }

    open spec fn invertible_spec() -> bool {
        false
    }

    open spec fn combine_inverse_spec(a: u64, b: u64) -> u64 {
        a
    }

    open spec fn simd_support_spec() -> bool {
        false
    }

    open spec fn commutative_spec() -> bool {
        true
    }

    fn identity() -> (id: u64) {
        0
    }

    fn lift(&self, input: u64) -> (acc: u64) {
        input
    }

    fn combine_mutable(&self, acc: &mut u64, input: u64) {
        if input > *acc {
            *acc = input;
        }
    }

    fn freeze(acc: u64) -> (partial: u64) {
        acc
    }

    fn combine(a: u64, b: u64) -> (c: u64) {
        if a >= b {
            a
        } else {
            b
        }
    }

    fn lower(partial: u64) -> (aggregate: u64) {
        partial
    }

    fn invertible() -> (yes: bool) {
        false
    }

    fn combine_inverse(a: u64, b: u64) -> (c: Option<u64>) {
        None
    }

    fn simd_support() -> (yes: bool) {
        false
    }

    proof fn lemma_identity(a: u64) {
    }

    proof fn lemma_associative(a: u64, b: u64, c: u64) {
    }

    proof fn lemma_commutative(a: u64, b: u64) {
    }

    proof fn lemma_inverse(a: u64, b: u64) {
    }
}

} // verus!
