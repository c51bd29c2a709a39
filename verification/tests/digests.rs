use babe::{BABE_ENGINE_ID, ConsensusLog, DigestItem, Epoch, Module, RawBabePreDigest};
use babe::digests::find_pre_digest;
use babe::epoch::encode_authorities;
use parity_scale_codec::Encode;

#[test]
fn primary_pre_digest_is_read() {
    let bytes = (1u8, 7u32, 300u64, [4u8; 32], ([5u8; 32], [6u8; 32])).encode();
    assert_eq!(bytes.len(), 109);
    let mut proof = [5u8; 64];
    proof[32..].copy_from_slice(&[6; 32]);
    let expected = RawBabePreDigest::Primary {
        authority_index: 7,
        slot_number: 300,
        vrf_output: [4; 32],
        vrf_proof: proof,
    };
    assert_eq!(RawBabePreDigest::decode(&bytes), Some(expected));
    assert_eq!(expected.authority_index(), 7);
    assert_eq!(expected.slot_number(), 300);

    let mut longer = bytes.clone();
    longer.push(1);
    assert_eq!(RawBabePreDigest::decode(&longer), Some(expected));
    assert_eq!(RawBabePreDigest::decode(&bytes[..108]), None);
}

#[test]
fn secondary_pre_digest_is_read() {
    let bytes = (2u8, 0x01020304u32, u64::MAX).encode();
    let expected = RawBabePreDigest::Secondary {
        authority_index: 0x01020304,
        slot_number: u64::MAX,
    };
    assert_eq!(RawBabePreDigest::decode(&bytes), Some(expected));
    assert_eq!(RawBabePreDigest::decode(&bytes[..12]), None);
    assert_eq!(RawBabePreDigest::decode(&[]), None);
}

#[test]
fn other_kinds_of_pre_digest_are_not_read() {
    for kind in [0u8, 3, 255] {
        let bytes = (kind, 1u32, 1u64, [0u8; 32], ([0u8; 32], [0u8; 32])).encode();
        assert_eq!(RawBabePreDigest::decode(&bytes), None);
    }
}

#[test]
fn first_readable_pre_digest_is_found() {
    let logs = vec![
        DigestItem::Consensus(BABE_ENGINE_ID, (2u8, 1u32, 1u64).encode()),
        DigestItem::PreRuntime(BABE_ENGINE_ID, vec![9]),
        DigestItem::PreRuntime(BABE_ENGINE_ID, (2u8, 1u32, 2u64).encode()),
        DigestItem::PreRuntime(BABE_ENGINE_ID, (2u8, 1u32, 3u64).encode()),
    ];
    assert_eq!(find_pre_digest(&logs).map(|d| d.slot_number()), Some(2));
    assert_eq!(find_pre_digest(&logs[..2]), None);
}

#[test]
fn author_is_the_one_of_the_pre_digest_taken_in() {
    let data = (2u8, 6u32, 2u64).encode();
    let logs = vec![DigestItem::PreRuntime(BABE_ENGINE_ID, data.clone())];
    assert_eq!(
        find_pre_digest(&logs).map(|d| d.authority_index()),
        Module::find_author(&[(BABE_ENGINE_ID, data)])
    );
}

#[test]
fn consensus_log_is_encoded_field_by_field() {
    let epoch = Epoch {
        epoch_index: 1,
        start_slot: 2,
        duration: 3,
        authorities: vec![([4; 32], 5), ([6; 32], 7)],
        randomness: [8; 32],
        secondary_slots: true,
    };
    let expected = (
        1u8,
        1u64,
        2u64,
        3u64,
        vec![([4u8; 32], 5u64), ([6u8; 32], 7u64)],
        [8u8; 32],
        true,
    )
        .encode();
    assert_eq!(ConsensusLog::NextEpochData(epoch).encode(), expected);
    assert_eq!(ConsensusLog::OnDisabled(9).encode(), (2u8, 9u32).encode());
}

#[test]
fn authorities_are_encoded_with_their_number() {
    for n in [0usize, 1, 63, 64, 65, 16383, 16384] {
        let authorities: Vec<([u8; 32], u64)> = (0..n).map(|i| ([i as u8; 32], i as u64)).collect();
        assert_eq!(encode_authorities(&authorities), authorities.encode());
    }
}

#[test]
fn byte_strings_are_encoded_with_their_length() {
    for n in [0usize, 1, 63, 64, 16383, 16384, 70000] {
        let bytes = vec![3u8; n];
        assert_eq!(babe::codec::encode_prefixed(&bytes), bytes.encode());
    }
}
