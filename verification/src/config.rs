//! What a runtime sets to use the module.

use vstd::prelude::*;

verus! {

/// A fixed value that a type stands for.
pub trait Get<V> {
    /// The value.
    spec fn value() -> V;

    /// Returns the value.
    fn get() -> (r: V)
        ensures
            r == Self::value(),
    ;
}

/// The type that stands for the `u32` `N`.
pub struct ConstU32<const N: u32>;

impl<const N: u32> Get<u32> for ConstU32<N> {
    open spec fn value() -> u32 {
        N
    }

    fn get() -> (r: u32) {
        N
    }
}

/// The type that stands for the `u64` `N`.
pub struct ConstU64<const N: u64>;

impl<const N: u64> Get<u64> for ConstU64<N> {
    open spec fn value() -> u64 {
        N
    }

    fn get() -> (r: u64) {
        N
    }
}

/// The type that stands for the `u128` `N`.
pub struct ConstU128<const N: u128>;

impl<const N: u128> Get<u128> for ConstU128<N> {
    open spec fn value() -> u128 {
        N
    }

    fn get() -> (r: u128) {
        N
    }
}

/// A type that tells moments and lengths of time.
pub trait Moment: Copy {
    /// The greatest number of milliseconds that can be told.
    spec fn limit() -> nat;

    /// How many milliseconds this is.
    spec fn millis(self) -> nat;

    /// No more can be told than the limit.
    proof fn lemma_in_range(self)
        ensures
            self.millis() <= Self::limit(),
    ;

    /// Twice as long, or the longest that can be told where that is shorter.
    fn saturating_double(self) -> (r: Self)
        ensures
            r.millis() == capped(2 * self.millis(), Self::limit()),
    ;

    /// How many times `other` fits.
    fn divided_by(self, other: Self) -> (r: Self)
        requires
            other.millis() > 0,
        ensures
            r.millis() == self.millis() / other.millis(),
    ;

    /// The number as a `u64`, or the greatest `u64` where that is less.
    fn saturated_into_u64(self) -> (r: u64)
        ensures
            r == capped(self.millis(), u64::MAX as nat),
    ;
}

/// The lesser of `value` and `limit`.
pub open spec fn capped(value: nat, limit: nat) -> nat {
    if value > limit {
        limit
    } else {
        value
    }
}

impl Moment for u32 {
    open spec fn limit() -> nat {
        u32::MAX as nat
    }

    open spec fn millis(self) -> nat {
        self as nat
    }

    proof fn lemma_in_range(self) {
    }

    fn saturating_double(self) -> (r: Self) {
        self.saturating_add(self)
    }

    fn divided_by(self, other: Self) -> (r: Self) {
        self / other
    }

    fn saturated_into_u64(self) -> (r: u64) {
        self as u64
    }
}

impl Moment for u64 {
    open spec fn limit() -> nat {
        u64::MAX as nat
    }

    open spec fn millis(self) -> nat {
        self as nat
    }

    proof fn lemma_in_range(self) {
    }

    fn saturating_double(self) -> (r: Self) {
        self.saturating_add(self)
    }

    fn divided_by(self, other: Self) -> (r: Self) {
        self / other
    }

    fn saturated_into_u64(self) -> (r: u64) {
        self
    }
}

impl Moment for u128 {
    open spec fn limit() -> nat {
        u128::MAX as nat
    }

    open spec fn millis(self) -> nat {
        self as nat
    }

    proof fn lemma_in_range(self) {
    }

    fn saturating_double(self) -> (r: Self) {
        self.saturating_add(self)
    }

    fn divided_by(self, other: Self) -> (r: Self) {
        self / other
    }

    fn saturated_into_u64(self) -> (r: u64) {
        if self > u64::MAX as u128 {
            u64::MAX
        } else {
            self as u64
        }
    }
}

/// The configuration of the module.
pub trait Trait {
    /// The number of slots that an epoch takes.
    type EpochDuration: Get<u64>;

    /// What the timestamp module tells moments in.
    type Moment: Moment;

    /// The expected average time between two blocks.
    type ExpectedBlockTime: Get<Self::Moment>;

    /// The least time between two blocks, as the timestamp module has it.
    type MinimumPeriod: Get<Self::Moment>;

    /// The accounts that sign transactions.
    type AccountId;

    /// What tells who an offender is.
    type IdentificationTuple;
}

} // verus!
