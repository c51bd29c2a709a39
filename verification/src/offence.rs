//! Equivocation as an offence, and how much of the stake it costs.

use vstd::prelude::*;
use sp_arithmetic::PerThing;

verus! {

/// Numbers a session.
pub type SessionIndex = u32;

/// Tells one kind of offence from another.
pub type Kind = [u8; 16];

/// The kind of a BABE equivocation, the letters `babe:equivocatio`.
pub const OFFENCE_ID: Kind = [
    0x62,
    0x61,
    0x62,
    0x65,
    0x3a,
    0x65,
    0x71,
    0x75,
    0x69,
    0x76,
    0x6f,
    0x63,
    0x61,
    0x74,
    0x69,
    0x6f,
];

/// One, in parts per billion.
pub const BILLION: u32 = 1_000_000_000;

/// A fraction between zero and one, in parts per billion.
#[derive(Clone, Copy, Debug, PartialEq, Eq)]
pub struct Perbill {
    pub parts: u32,
}

/// The fraction `p / q` in parts per billion, rounded down and at most one, where a
/// denominator of zero counts as one. A denominator over a billion is first brought below it:
/// both numbers are divided by the least number that does so.
pub open spec fn rational_parts(p: nat, q: nat) -> nat {
    let q = if q == 0 {
        1
    } else {
        q
    };
    let p = if p > q {
        q
    } else {
        p
    };
    let factor = (q + BILLION - 1) as nat / BILLION as nat;
    (p / factor) * BILLION as nat / (q / factor)
}

/// The square of a fraction in parts per billion, rounded down.
pub open spec fn square_parts(parts: nat) -> nat {
    parts * parts / BILLION as nat
}

/// Approximates the fraction `p / q`.
///
/// Calls `Perbill::from_rational_approximation` of `sp-arithmetic` and takes the parts of
/// what it returns. For a `u32` it computes `rational_parts`.
#[verifier::external_body]
fn from_rational_approximation(p: u32, q: u32) -> (r: u32)
    ensures
        r == rational_parts(p as nat, q as nat),
{
    sp_arithmetic::Perbill::from_rational_approximation(p, q).deconstruct()
}

/// Squares the fraction of `parts` per billion.
///
/// Calls `Perbill::square` of `sp-arithmetic` on the fraction of these parts. It approximates
/// `parts * parts` over the square of a billion, which comes to `square_parts`.
#[verifier::external_body]
fn square(parts: u32) -> (r: u32)
    requires
        parts <= BILLION,
    ensures
        r == square_parts(parts as nat),
{
    sp_arithmetic::Perbill::from_parts(parts).square().deconstruct()
}

/// A BABE equivocation offence report.
///
/// When a validator released two or more blocks at the same slot.
#[derive(Debug, PartialEq, Eq)]
pub struct BabeEquivocationOffence<FullIdentification> {
    /// A babe slot number in which this incident happened.
    pub slot: u64,
    /// The session index in which the incident happened.
    pub session_index: SessionIndex,
    /// The size of the validator set at the time of the offence.
    pub validator_set_count: u32,
    /// The authority that produced the equivocation.
    pub offender: FullIdentification,
}

/// The slash for `offenders_count` equivocators among `validator_set_count` validators, in
/// parts per billion.
pub open spec fn slash_parts(offenders_count: nat, validator_set_count: nat) -> nat {
    square_parts(rational_parts(3 * offenders_count, validator_set_count))
}

pub proof fn lemma_rational_parts_at_most_one(p: nat, q: nat)
    ensures
        rational_parts(p, q) <= BILLION,
{
    let q1 = if q == 0 {
        1
    } else {
        q
    };
    let p1 = if p > q1 {
        q1
    } else {
        p
    };
    let factor = (q1 + BILLION - 1) as nat / BILLION as nat;
    assert(1 <= factor <= q1);
    vstd::arithmetic::div_mod::lemma_div_is_ordered(p1 as int, q1 as int, factor as int);
    let a = p1 / factor;
    let b = q1 / factor;
    assert(b >= 1) by {
        vstd::arithmetic::div_mod::lemma_div_is_ordered(factor as int, q1 as int, factor as int);
        vstd::arithmetic::div_mod::lemma_div_by_self(factor as int);
    }
    assert(a * BILLION as nat <= b * BILLION as nat) by (nonlinear_arith)
        requires
            a <= b,
    ;
    vstd::arithmetic::div_mod::lemma_div_is_ordered(
        (a * BILLION as nat) as int,
        (b * BILLION as nat) as int,
        b as int,
    );
    vstd::arithmetic::div_mod::lemma_div_multiples_vanish(BILLION as int, b as int);
    assert(b * BILLION == b * (BILLION as int));
}

impl<FullIdentification> BabeEquivocationOffence<FullIdentification> {
    /// The authorities that took part.
    pub fn offenders(&self) -> (r: Vec<FullIdentification>) where FullIdentification: Clone
        ensures
            r@.len() == 1,
            cloned(self.offender, r@[0]),
    {
        let mut r: Vec<FullIdentification> = Vec::new();
        r.push(self.offender.clone());
        r
    }

    /// The session index in which the incident happened.
    pub fn session_index(&self) -> (r: SessionIndex)
        ensures
            r == self.session_index,
    {
        self.session_index
    }

    /// The size of the validator set at the time of the offence.
    pub fn validator_set_count(&self) -> (r: u32)
        ensures
            r == self.validator_set_count,
    {
        self.validator_set_count
    }

    /// The slot in which the incident happened.
    pub fn time_slot(&self) -> (r: u64)
        ensures
            r == self.slot,
    {
        self.slot
    }

    /// How much of the stake of each of `offenders_count` equivocators is slashed, where there
    /// are `validator_set_count` validators: with `k` and `n` for these, the formula is
    /// `min((3k / n)^2, 1)`.
    pub fn slash_fraction(offenders_count: u32, validator_set_count: u32) -> (r: Perbill)
        ensures
            r.parts == slash_parts(offenders_count as nat, validator_set_count as nat),
            r.parts <= BILLION,
    {
        // three times the offenders, as far as a `u32` goes: beyond, all is slashed either way.
        let tripled = if offenders_count > u32::MAX / 3 {
            u32::MAX
        } else {
            3 * offenders_count
        };
        let x = from_rational_approximation(tripled, validator_set_count);
        proof {
            lemma_rational_parts_at_most_one(3 * offenders_count as nat, validator_set_count as nat);
            let parts = x as nat;
            assert(parts * parts <= BILLION as nat * BILLION as nat) by (nonlinear_arith)
                requires
                    parts <= BILLION,
            ;
        }
        // _ ^ 2
        Perbill { parts: square(x) }
    }
}

} // verus!
