use babe::BabeEquivocationOffence;
use babe::offence::OFFENCE_ID;
use sp_arithmetic::{PerThing, Perbill};

type Offence = BabeEquivocationOffence<String>;

#[test]
fn offence_tells_what_it_holds() {
    let offence = Offence {
        slot: 5,
        session_index: 6,
        validator_set_count: 7,
        offender: String::from("someone"),
    };
    assert_eq!(&OFFENCE_ID, b"babe:equivocatio");
    assert_eq!(offence.time_slot(), 5);
    assert_eq!(offence.session_index(), 6);
    assert_eq!(offence.validator_set_count(), 7);
    assert_eq!(offence.offenders(), vec![String::from("someone")]);
}

#[test]
fn slash_fractions() {
    for (k, n, parts) in [
        (0, 100, 0),
        (1, 100, 900_000),
        (10, 100, 90_000_000),
        (33, 100, 980_100_000),
        (34, 100, 1_000_000_000),
        (100, 100, 1_000_000_000),
        (1, 7, 183_673_468),
        (0, 0, 0),
        (1, 0, 1_000_000_000),
        (1, 4_000_000_000, 0),
        (1_000_000_000, 4_000_000_000, 562_500_000),
        (1_431_655_765, 1, 1_000_000_000),
    ] {
        assert_eq!(Offence::slash_fraction(k, n).parts, parts, "{} of {}", k, n);
        let expected = Perbill::from_rational_approximation(3 * k, n).square();
        assert_eq!(parts, expected.deconstruct());
    }
}

#[test]
fn offenders_too_many_to_triple_lose_everything() {
    for (k, n) in [
        (1_431_655_766, u32::MAX),
        (u32::MAX, u32::MAX),
        (u32::MAX, 1),
        (u32::MAX, 0),
    ] {
        assert_eq!(Offence::slash_fraction(k, n).parts, 1_000_000_000, "{} of {}", k, n);
    }
}

#[test]
fn slash_grows_with_the_offenders() {
    let mut last = 0;
    for k in 0..120 {
        let parts = Offence::slash_fraction(k, 321).parts;
        assert!(last <= parts && parts <= 1_000_000_000);
        if k >= 107 {
            assert_eq!(parts, 1_000_000_000);
        } else {
            let (k, n, parts) = (k as u128, 321u128, parts as u128);
            assert!(parts * n * n <= 9 * k * k * 1_000_000_000);
            assert!(9 * k * k * 1_000_000_000 < (parts + 3) * n * n);
        }
        last = parts;
    }
}

#[test]
fn slash_follows_the_formula_among_any_number_of_validators() {
    for n in [1u32, 7, 999_999_999, 1_000_000_000, 1_000_000_001, 2_999_999_999, u32::MAX] {
        for k in [0, 1, n / 9, n / 7, n / 4, n / 3 - u32::from(n > 5), n / 3, n] {
            let slash = i128::from(Offence::slash_fraction(k, n).parts);
            let (n, p) = (i128::from(n), (3 * i128::from(k)).min(i128::from(n)));
            assert!((slash - 2) * n * n < p * p * 1_000_000_000, "{} of {}", k, n);
            assert!(p * p * 1_000_000_000 < (slash + 6) * n * n, "{} of {}", k, n);
        }
    }
    // above the formula, which gives 999_999_990
    assert_eq!(Offence::slash_fraction(333_333_332, 1_000_000_001).parts, 999_999_992);
}
