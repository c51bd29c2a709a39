use babe::equivocation::{
    equivocation_is_valid, headers_are_consistent, message_to_sign, BABE_KEY_TYPE,
};
use babe::{
    BabeEquivocationOffence, ConstU64, DigestItem, DispatchError, EquivocationProof, EquivocationReport, Header,
    Module, RawOrigin, Trait,
};
use pallet_indices::address::Address;
use parity_scale_codec::{Compact, Encode, Output};
use sp_core::{sr25519, Pair};
use sp_runtime::generic::{Era, UncheckedExtrinsic};

struct Runtime;

impl Trait for Runtime {
    type EpochDuration = ConstU64<3>;
    type Moment = u64;
    type ExpectedBlockTime = ConstU64<6000>;
    type MinimumPeriod = ConstU64<5>;
    type AccountId = u64;
    type IdentificationTuple = u64;
}

fn header(content: u8, slot: Option<u64>) -> Header {
    Header {
        encoded: vec![content; 40],
        hash: sp_core::blake2_256(&[content; 40]).to_vec(),
        slot,
    }
}

fn equivocation(first: Header, second: Header) -> EquivocationProof {
    let pair = sr25519::Pair::from_seed(&[1; 32]);
    let first_signature = pair.sign(&first.hash).0;
    let second_signature = pair.sign(&second.hash).0;
    EquivocationProof {
        identity: pair.public().0,
        slot: 9,
        first_header: first,
        second_header: second,
        first_signature,
        second_signature,
    }
}

fn good() -> EquivocationProof {
    equivocation(header(1, Some(9)), header(2, Some(9)))
}

#[test]
fn two_signed_headers_in_one_slot_are_an_equivocation() {
    assert!(equivocation_is_valid(&good()));
    let swapped = equivocation(header(2, Some(9)), header(1, Some(9)));
    assert!(equivocation_is_valid(&swapped));
}

#[test]
fn same_header_twice_is_no_equivocation() {
    let e = equivocation(header(1, Some(9)), header(1, Some(9)));
    assert!(!headers_are_consistent(&e));
    assert!(!equivocation_is_valid(&e));
}

#[test]
fn headers_must_name_the_slot() {
    for (first, second) in [
        (None, Some(9)),
        (Some(9), None),
        (None, None),
        (Some(8), Some(9)),
        (Some(9), Some(8)),
        (Some(8), Some(8)),
    ] {
        let e = equivocation(header(1, first), header(2, second));
        assert!(!headers_are_consistent(&e));
        assert!(!equivocation_is_valid(&e));
    }
    assert!(headers_are_consistent(&good()));
}

#[test]
fn slot_of_a_header_is_that_of_its_pre_digest() {
    let mut data = vec![2u8];
    data.extend_from_slice(&5u32.to_le_bytes());
    data.extend_from_slice(&9u64.to_le_bytes());
    let logs = [
        DigestItem::PreRuntime(*b"AURA", data.clone()),
        DigestItem::PreRuntime(*b"BABE", vec![]),
        DigestItem::PreRuntime(*b"BABE", data),
    ];
    let header = Header::new(vec![1], vec![2], &logs);
    assert_eq!(header, Header { encoded: vec![1], hash: vec![2], slot: Some(9) });
    assert_eq!(Header::new(vec![1], vec![2], &logs[..2]).slot, None);
}

#[test]
fn both_signatures_must_be_good() {
    let mut e = good();
    e.first_signature[0] ^= 1;
    assert!(headers_are_consistent(&e));
    assert!(!equivocation_is_valid(&e));
    let mut e = good();
    e.second_signature = e.first_signature;
    assert!(!equivocation_is_valid(&e));
    let mut e = good();
    e.identity = sr25519::Pair::from_seed(&[2; 32]).public().0;
    assert!(!equivocation_is_valid(&e));
}

#[test]
fn report_must_be_signed() {
    for origin in [RawOrigin::Root, RawOrigin::Unsigned] {
        assert_eq!(
            Module::report_equivocation::<Runtime>(origin, &good()),
            Err(DispatchError::ExpectedSigned)
        );
    }
    assert_eq!(
        DispatchError::ExpectedSigned.message(),
        "bad origin: expected to be a signed origin"
    );
}

#[test]
fn report_must_be_of_an_equivocation() {
    let e = equivocation(header(1, Some(9)), header(2, None));
    let r = Module::report_equivocation::<Runtime>(RawOrigin::Signed(4), &e);
    assert_eq!(r, Err(DispatchError::InvalidEquivocation));
    assert_eq!(DispatchError::InvalidEquivocation.message(), "invalid equivocation");
    assert_eq!(
        EquivocationReport::new(4u64, &good(), false),
        Err(DispatchError::InvalidEquivocation)
    );
}

#[test]
fn good_report_leads_to_an_offence() {
    let e = good();
    let report = Module::report_equivocation::<Runtime>(RawOrigin::Signed(4), &e).unwrap();
    assert_eq!(report.reporter, 4);
    assert_eq!(report.slot, 9);
    assert_eq!(report.key_type, BABE_KEY_TYPE);
    assert_eq!(&report.key_type, b"babe");
    assert_eq!(report.key, e.identity.to_vec());

    let offence = report.offence(Some(77u64), 12, 100).unwrap();
    assert_eq!(offence.reporters, vec![4]);
    assert_eq!(
        offence.offence,
        BabeEquivocationOffence {
            slot: 9,
            session_index: 12,
            validator_set_count: 100,
            offender: 77,
        }
    );
    let count = offence.offence.validator_set_count();
    assert_eq!(BabeEquivocationOffence::<u64>::slash_fraction(1, count).parts, 900_000);
}

#[test]
fn without_an_owner_there_is_no_offence() {
    let report = EquivocationReport::new(4u64, &good(), true).unwrap();
    assert_eq!(report.offence::<u64>(None, 12, 100), None);
}

#[test]
fn long_payload_is_hashed() {
    let long = vec![7u8; 257];
    let short = vec![7u8; 256];
    assert_eq!(message_to_sign(&long), sp_core::blake2_256(&long).to_vec());
    assert_eq!(message_to_sign(&short), short);
}

struct Raw(Vec<u8>);

impl Encode for Raw {
    fn encode_to<O: Output>(&self, dest: &mut O) {
        dest.write(&self.0);
    }
}

#[test]
fn transaction_is_framed_as_a_signed_extrinsic() {
    let e = good();
    let keys = [[11u8; 32], [12u8; 32]];
    let genesis = [13u8; 32];
    let owner_proof = vec![14u8, 15];
    let transaction =
        Module::construct_equivocation_transaction(&e, Some(&owner_proof), &keys, &genesis).unwrap();

    let call = (
        0u8,
        e.identity,
        e.slot,
        Raw(e.first_header.encoded.clone()),
        Raw(e.second_header.encoded.clone()),
        Raw(e.first_signature.to_vec()),
        Raw(e.second_signature.to_vec()),
        Raw(owner_proof.clone()),
    )
        .encode();
    assert_eq!(transaction.reporter, keys[0]);
    assert_eq!(transaction.call, call);
    let extra = (Era::Immortal, Compact(0u32), Compact(0u128)).encode();
    let payload = (Raw(call.clone()), Raw(extra.clone()), genesis, genesis).encode();
    assert!(payload.len() > 256);
    assert_eq!(transaction.message, sp_core::blake2_256(&payload).to_vec());

    let signature = [16u8; 64];
    let sender = Address::<[u8; 32], u32>::Id(keys[0]);
    let extrinsic: UncheckedExtrinsic<_, _, _, ()> = UncheckedExtrinsic::new_signed(
        Raw(call),
        sender,
        Raw([signature.to_vec(), extra].concat()),
        (),
    );
    assert_eq!(transaction.sign(Some(signature)), Some(extrinsic.encode().encode()));
}

#[test]
fn transaction_needs_an_owner_proof_a_key_and_a_signature() {
    let e = good();
    let keys = [[11u8; 32]];
    let owner_proof = vec![14u8];
    assert_eq!(Module::construct_equivocation_transaction(&e, None, &keys, &[0; 32]), None);
    assert_eq!(
        Module::construct_equivocation_transaction(&e, Some(&owner_proof), &[], &[0; 32]),
        None
    );
    let transaction =
        Module::construct_equivocation_transaction(&e, Some(&owner_proof), &keys, &[0; 32]).unwrap();
    assert_eq!(transaction.sign(None), None);
}

#[test]
fn owner_is_asked_for_by_key() {
    let e = good();
    assert_eq!(e.key_owner(), (*b"babe", e.identity.to_vec()));
}
