//! Where things stand in the byte strings that the module reads, hashes, signs and writes.

use vstd::prelude::*;
use vstd::arithmetic::div_mod::lemma_div_denominator;
use vstd::arithmetic::power::{lemma_pow_positive, pow};
use vstd::utf8::{decode_utf8_encode_utf8, encode_utf8};

use crate::bytes::{concat, le_bytes, le_value, lemma_le_bytes_len};
use crate::codec::{compact_bytes, compact_value, compact_width, decoded_string, prefixed_bytes};
use crate::crypto::{blake2_256_hash, AuthorityId};
use crate::digests::{decoded_pre_digest, DigestItem, PreDigest};
use crate::epoch::{
    authority_bytes, next_epoch_bytes, on_disabled_bytes, BabeAuthorityWeight, ConsensusLog,
    EpochData,
};
use crate::equivocation::{
    report_call, signed_message, transaction_body, transaction_payload, EquivocationProof,
};
use crate::inherents::{stored_number, Stored};
use crate::module::is_consensus_item;
use crate::randomness::epoch_randomness;

verus! {

/// The byte of `value` that counts multiples of 256 to the power of `i`.
pub open spec fn digit(value: nat, i: nat) -> int {
    (value as int / pow(256, i)) % 256
}

/// Whether the `width` bytes of `bytes` from `at` on spell `value`, the least significant one
/// first.
pub open spec fn spells(bytes: Seq<u8>, at: int, width: nat, value: nat) -> bool {
    &&& 0 <= at
    &&& at + width <= bytes.len()
    &&& forall|i: nat| #![trigger digit(value, i)] i < width ==> bytes[at + i] == digit(value, i)
}

/// Whether `part` stands in `bytes` from `at` on.
pub open spec fn stands(bytes: Seq<u8>, at: int, part: Seq<u8>) -> bool {
    &&& 0 <= at
    &&& at + part.len() <= bytes.len()
    &&& forall|i: int| 0 <= i < part.len() ==> bytes[at + i] == #[trigger] part[i]
}

proof fn lemma_digit(value: nat, width: nat, i: nat)
    requires
        i < width,
    ensures
        le_bytes(value, width).len() == width,
        le_bytes(value, width)[i as int] == digit(value, i),
    decreases width,
{
    reveal(pow);
    lemma_le_bytes_len(value, width);
    let rest = le_bytes(value / 256, (width - 1) as nat);
    lemma_le_bytes_len(value / 256, (width - 1) as nat);
    if i == 0 {
        assert(pow(256, 0) == 1);
        assert(value as int / 1 == value);
    } else {
        let below = (i - 1) as nat;
        lemma_digit(value / 256, (width - 1) as nat, below);
        assert(le_bytes(value, width)[i as int] == rest[i - 1]);
        lemma_pow_positive(256, below);
        lemma_div_denominator(value as int, 256, pow(256, below));
        assert(pow(256, i) == 256 * pow(256, below));
    }
}

/// A number is written with its least significant byte first, every byte of it in its place.
pub proof fn law_numbers_are_little_endian(value: nat, width: nat)
    ensures
        le_bytes(value, width).len() == width,
        spells(le_bytes(value, width), 0, width, value),
{
    lemma_le_bytes_len(value, width);
    assert forall|i: nat| #![trigger digit(value, i)] i < width implies le_bytes(value, width)[0int + i]
        == digit(value, i) by {
        lemma_digit(value, width, i);
    }
}

/// A number in a longer byte string, which stands there as its little-endian bytes.
proof fn lemma_spells(bytes: Seq<u8>, at: int, width: nat, value: nat)
    requires
        stands(bytes, at, le_bytes(value, width)),
    ensures
        spells(bytes, at, width, value),
{
    law_numbers_are_little_endian(value, width);
    let part = le_bytes(value, width);
    assert forall|i: nat| #![trigger digit(value, i)] i < width implies bytes[at + i] == digit(
        value,
        i,
    ) by {
        assert(part[i as int] == digit(value, i)) by {
            lemma_digit(value, width, i);
        }
        assert(bytes[at + i as int] == part[i as int]);
    }
}

/// A number is read with its least significant byte first: the bytes that are read are the ones
/// that spell it.
pub proof fn law_numbers_are_read_little_endian(bytes: Seq<u8>)
    ensures
        le_bytes(le_value(bytes), bytes.len()) == bytes,
        spells(bytes, 0, bytes.len(), le_value(bytes)),
    decreases bytes.len(),
{
    if bytes.len() > 0 {
        let rest = bytes.skip(1);
        law_numbers_are_read_little_endian(rest);
        let value = le_value(bytes);
        assert(value == bytes[0] + 256 * le_value(rest));
        assert(value % 256 == bytes[0]);
        assert(value / 256 == le_value(rest));
        assert(le_bytes(value, bytes.len()) =~= seq![bytes[0]] + rest);
        assert(seq![bytes[0]] + rest =~= bytes);
    } else {
        assert(le_bytes(le_value(bytes), 0) =~= bytes);
    }
    law_numbers_are_little_endian(le_value(bytes), bytes.len());
}

proof fn lemma_le_value_bound(bytes: Seq<u8>)
    ensures
        bytes.len() == 4 ==> le_value(bytes) <= u32::MAX,
        bytes.len() == 8 ==> le_value(bytes) <= u64::MAX,
{
    reveal_with_fuel(le_value, 9);
}

spec fn all_of_width(parts: Seq<Seq<u8>>, width: nat) -> bool {
    forall|j: int| 0 <= j < parts.len() ==> (#[trigger] parts[j]).len() == width
}

proof fn lemma_concat_len(parts: Seq<Seq<u8>>, width: nat)
    requires
        all_of_width(parts, width),
    ensures
        concat(parts).len() == width * parts.len(),
    decreases parts.len(),
{
    let n = parts.len();
    if n == 0 {
        assert(width * 0 == 0) by (nonlinear_arith);
    } else {
        let front = parts.drop_last();
        assert(all_of_width(front, width)) by {
            assert forall|j: int| 0 <= j < front.len() implies (#[trigger] front[j]).len() == width by {
                assert(front[j] == parts[j]);
            }
        }
        lemma_concat_len(front, width);
        assert(width * n == width * (n - 1) + width) by (nonlinear_arith);
        assert(parts.last() == parts[n - 1]);
    }
}

proof fn lemma_concat_part(parts: Seq<Seq<u8>>, width: nat, j: int)
    requires
        all_of_width(parts, width),
        0 <= j < parts.len(),
    ensures
        stands(concat(parts), width * j, parts[j]),
    decreases parts.len(),
{
    let n = parts.len();
    let front = parts.drop_last();
    assert(all_of_width(front, width)) by {
        assert forall|k: int| 0 <= k < front.len() implies (#[trigger] front[k]).len() == width by {
            assert(front[k] == parts[k]);
        }
    }
    lemma_concat_len(front, width);
    lemma_concat_len(parts, width);
    let at = width * j;
    assert(0 <= at) by (nonlinear_arith)
        requires
            0 <= j,
            at == width * j,
    ;
    if j < n - 1 {
        lemma_concat_part(front, width, j);
        assert(front[j] == parts[j]);
        assert forall|i: int| 0 <= i < parts[j].len() implies concat(parts)[at + i]
            == #[trigger] parts[j][i] by {
            assert(concat(front)[at + i] == front[j][i]);
        }
    } else {
        assert(at == concat(front).len());
        assert(concat(parts) == concat(front) + parts[j]);
    }
}

proof fn lemma_concat_parts(parts: Seq<Seq<u8>>, width: nat)
    requires
        forall|j: int| 0 <= j < parts.len() ==> (#[trigger] parts[j]).len() == width,
    ensures
        concat(parts).len() == width * parts.len(),
        forall|j: int|
            0 <= j < parts.len() ==> stands(concat(parts), width * j, #[trigger] parts[j]),
{
    lemma_concat_len(parts, width);
    assert forall|j: int| 0 <= j < parts.len() implies stands(
        concat(parts),
        width * j,
        #[trigger] parts[j],
    ) by {
        lemma_concat_part(parts, width, j);
    }
}

/// All of an epoch goes into the randomness: what is hashed is the last randomness, the index of
/// the epoch and every VRF output, each in its place, and nothing else.
pub proof fn law_randomness_hashes_everything(
    last_epoch_randomness: Seq<u8>,
    epoch_index: u64,
    rho: Seq<Seq<u8>>,
)
    requires
        last_epoch_randomness.len() == 32,
        forall|j: int| 0 <= j < rho.len() ==> (#[trigger] rho[j]).len() == 32,
    ensures
        exists|s: Seq<u8>|
            {
                &&& s.len() == 40 + 32 * rho.len()
                &&& stands(s, 0, last_epoch_randomness)
                &&& spells(s, 32, 8, epoch_index as nat)
                &&& forall|j: int| 0 <= j < rho.len() ==> stands(s, 40 + 32 * j, #[trigger] rho[j])
                &&& epoch_randomness(last_epoch_randomness, epoch_index, rho)
                    == #[trigger] blake2_256_hash(s)
            },
{
    let index = le_bytes(epoch_index as nat, 8);
    let s = last_epoch_randomness + index + concat(rho);
    lemma_le_bytes_len(epoch_index as nat, 8);
    lemma_concat_parts(rho, 32);
    assert(stands(s, 32, index));
    lemma_spells(s, 32, 8, epoch_index as nat);
    assert forall|j: int| 0 <= j < rho.len() implies stands(s, 40 + 32 * j, #[trigger] rho[j]) by {
        assert(stands(concat(rho), 32 * j, rho[j]));
        assert forall|i: int| 0 <= i < rho[j].len() implies s[40 + 32 * j + i] == #[trigger] rho[j][i] by {
            assert(concat(rho)[32 * j + i] == rho[j][i]);
        }
    }
    assert(epoch_randomness(last_epoch_randomness, epoch_index, rho) == blake2_256_hash(s));
}

/// What is read as a pre-digest is at the front of the bytes, each field in its place, and it is
/// read wherever the first byte says which of the two it is and enough bytes follow.
pub proof fn law_pre_digest_layout(bytes: Seq<u8>)
    ensures
        decoded_pre_digest(bytes) is Some <==> bytes.len() > 0 && (bytes[0] == 1 && bytes.len()
            >= 109 || bytes[0] == 2 && bytes.len() >= 13),
        decoded_pre_digest(bytes) matches Some(
            PreDigest::Primary { authority_index, slot_number, vrf_output, vrf_proof },
        ) ==> {
            &&& bytes[0] == 1
            &&& spells(bytes, 1, 4, authority_index as nat)
            &&& spells(bytes, 5, 8, slot_number as nat)
            &&& vrf_output.len() == 32
            &&& stands(bytes, 13, vrf_output)
            &&& vrf_proof.len() == 64
            &&& stands(bytes, 45, vrf_proof)
        },
        decoded_pre_digest(bytes) matches Some(
            PreDigest::Secondary { authority_index, slot_number },
        ) ==> {
            &&& bytes[0] == 2
            &&& spells(bytes, 1, 4, authority_index as nat)
            &&& spells(bytes, 5, 8, slot_number as nat)
        },
{
    if bytes.len() >= 13 {
        let index = bytes.subrange(1, 5);
        let slot = bytes.subrange(5, 13);
        law_numbers_are_read_little_endian(index);
        law_numbers_are_read_little_endian(slot);
        lemma_le_value_bound(index);
        lemma_le_value_bound(slot);
        assert(stands(bytes, 1, index));
        assert(stands(bytes, 5, slot));
        lemma_spells(bytes, 1, 4, le_value(index));
        lemma_spells(bytes, 5, 8, le_value(slot));
    }
}

/// The bytes of a pre-digest hold its fields, each in its place, and nothing else.
pub proof fn law_encoded_pre_digest_layout(digest: PreDigest)
    requires
        digest matches PreDigest::Primary { vrf_output, vrf_proof, .. } ==> vrf_output.len() == 32
            && vrf_proof.len() == 64,
    ensures
        match digest {
            PreDigest::Primary { authority_index, slot_number, vrf_output, vrf_proof } => {
                let bytes = digest.encoded();
                &&& bytes.len() == 109
                &&& bytes[0] == 1
                &&& spells(bytes, 1, 4, authority_index as nat)
                &&& spells(bytes, 5, 8, slot_number as nat)
                &&& stands(bytes, 13, vrf_output)
                &&& stands(bytes, 45, vrf_proof)
            },
            PreDigest::Secondary { authority_index, slot_number } => {
                let bytes = digest.encoded();
                &&& bytes.len() == 13
                &&& bytes[0] == 2
                &&& spells(bytes, 1, 4, authority_index as nat)
                &&& spells(bytes, 5, 8, slot_number as nat)
            },
        },
{
    let bytes = digest.encoded();
    let (index, slot): (u32, u64) = match digest {
        PreDigest::Primary { authority_index, slot_number, .. } => (authority_index, slot_number),
        PreDigest::Secondary { authority_index, slot_number } => (authority_index, slot_number),
    };
    lemma_le_bytes_len(index as nat, 4);
    lemma_le_bytes_len(slot as nat, 8);
    assert(stands(bytes, 1, le_bytes(index as nat, 4)));
    assert(stands(bytes, 5, le_bytes(slot as nat, 8)));
    lemma_spells(bytes, 1, 4, index as nat);
    lemma_spells(bytes, 5, 8, slot as nat);
}

/// How many bytes the length of a list of `n` items takes.
pub open spec fn length_width(n: nat) -> nat {
    if n < 64 {
        1
    } else if n < 16_384 {
        2
    } else if n < 1_073_741_824 {
        4
    } else {
        5
    }
}

/// A length takes one, two, four or five bytes. The two lowest bits of the first tell which, and
/// the number stands in the bits above them, or in the four bytes after it.
pub proof fn law_length_layout(n: nat)
    ensures
        compact_bytes(n).len() == length_width(n),
        n < 64 ==> spells(compact_bytes(n), 0, 1, 4 * n),
        64 <= n < 16_384 ==> spells(compact_bytes(n), 0, 2, 4 * n + 1),
        16_384 <= n < 1_073_741_824 ==> spells(compact_bytes(n), 0, 4, 4 * n + 2),
        n >= 1_073_741_824 ==> compact_bytes(n)[0] == 3 && spells(compact_bytes(n), 1, 4, n),
{
    law_numbers_are_little_endian(4 * n, 1);
    law_numbers_are_little_endian(4 * n + 1, 2);
    law_numbers_are_little_endian(4 * n + 2, 4);
    law_numbers_are_little_endian(n, 4);
    if n >= 1_073_741_824 {
        assert(stands(compact_bytes(n), 1, le_bytes(n, 4)));
        lemma_spells(compact_bytes(n), 1, 4, n);
    }
}

/// A byte string is written with its length in front, whole and with nothing after it.
pub proof fn law_prefixed_layout(bytes: Seq<u8>)
    ensures
        prefixed_bytes(bytes).len() == length_width(bytes.len()) + bytes.len(),
        stands(prefixed_bytes(bytes), 0, compact_bytes(bytes.len())),
        stands(prefixed_bytes(bytes), length_width(bytes.len()) as int, bytes),
{
    law_length_layout(bytes.len());
}

/// What is read as a text is an encoded text: its length in the shortest form, then all of it.
pub proof fn law_only_encoded_texts_are_read(input: Seq<u8>, text: Seq<char>)
    requires
        decoded_string(input) == Some(text),
    ensures
        stands(input, 0, prefixed_bytes(encode_utf8(text))),
{
    let len = compact_value(input)->0;
    let start = compact_width(input[0]);
    let bytes = input.subrange(start as int, (start + len) as int);
    decode_utf8_encode_utf8(bytes);
    assert(encode_utf8(text) == bytes);
    let front = input.subrange(0, start as int);
    assert(compact_bytes(len) == front);
    assert(prefixed_bytes(bytes) =~= input.subrange(0, (start + len) as int));
}

/// The number that is read from inherent data is the one that its first eight bytes spell, and
/// it is read wherever there are that many.
pub proof fn law_inherent_layout(entries: Map<Seq<u8>, Seq<u8>>, identifier: Seq<u8>)
    ensures
        stored_number(entries, identifier) is Missing <==> !entries.contains_key(identifier),
        stored_number(entries, identifier) is Unreadable <==> entries.contains_key(identifier)
            && entries[identifier].len() < 8,
        stored_number(entries, identifier) matches Stored::Value(value) ==> spells(
            entries[identifier],
            0,
            8,
            value as nat,
        ),
{
    if entries.contains_key(identifier) && entries[identifier].len() >= 8 {
        let front = entries[identifier].subrange(0, 8);
        law_numbers_are_read_little_endian(front);
        lemma_le_value_bound(front);
        assert(stands(entries[identifier], 0, front));
        lemma_spells(entries[identifier], 0, 8, le_value(front));
    }
}

/// The announcement of an epoch holds all that there is to know about it, each thing in its
/// place, and nothing else: the kind of message, the index, the start slot, the duration, every
/// authority with its weight, the randomness, and whether there are secondary slots.
pub proof fn law_announcement_layout(epoch: EpochData)
    requires
        epoch.randomness.len() == 32,
    ensures
        ({
            let bytes = next_epoch_bytes(epoch);
            let n = epoch.authorities.len();
            let list = 25 + length_width(n) as int;
            &&& bytes.len() == list + 40 * n + 33
            &&& bytes[0] == 1
            &&& spells(bytes, 1, 8, epoch.epoch_index as nat)
            &&& spells(bytes, 9, 8, epoch.start_slot as nat)
            &&& spells(bytes, 17, 8, epoch.duration as nat)
            &&& stands(bytes, 25, compact_bytes(n))
            &&& forall|i: int|
                #![trigger epoch.authorities[i]]
                0 <= i < n ==> stands(bytes, list + 40 * i, epoch.authorities[i].0@) && spells(
                    bytes,
                    list + 40 * i + 32,
                    8,
                    epoch.authorities[i].1 as nat,
                )
            &&& stands(bytes, list + 40 * n, epoch.randomness)
            &&& bytes.last() == (if epoch.secondary_slots {
                1u8
            } else {
                0u8
            })
        }),
{
    let bytes = next_epoch_bytes(epoch);
    let n = epoch.authorities.len();
    let list = 25 + length_width(n) as int;
    let parts = epoch.authorities.map_values(
        |a: (AuthorityId, BabeAuthorityWeight)| authority_bytes(a),
    );
    lemma_le_bytes_len(epoch.epoch_index as nat, 8);
    lemma_le_bytes_len(epoch.start_slot as nat, 8);
    lemma_le_bytes_len(epoch.duration as nat, 8);
    law_length_layout(n);
    assert forall|j: int| 0 <= j < parts.len() implies (#[trigger] parts[j]).len() == 40 by {
        lemma_le_bytes_len(epoch.authorities[j].1 as nat, 8);
    }
    lemma_concat_parts(parts, 40);
    assert(stands(bytes, 1, le_bytes(epoch.epoch_index as nat, 8)));
    assert(stands(bytes, 9, le_bytes(epoch.start_slot as nat, 8)));
    assert(stands(bytes, 17, le_bytes(epoch.duration as nat, 8)));
    lemma_spells(bytes, 1, 8, epoch.epoch_index as nat);
    lemma_spells(bytes, 9, 8, epoch.start_slot as nat);
    lemma_spells(bytes, 17, 8, epoch.duration as nat);
    assert(stands(bytes, list, concat(parts)));
    assert forall|i: int| #![trigger epoch.authorities[i]] 0 <= i < n implies stands(
        bytes,
        list + 40 * i,
        epoch.authorities[i].0@,
    ) && spells(bytes, list + 40 * i + 32, 8, epoch.authorities[i].1 as nat) by {
        let (key, weight) = epoch.authorities[i];
        lemma_le_bytes_len(weight as nat, 8);
        assert(parts[i] == key@ + le_bytes(weight as nat, 8));
        assert(stands(concat(parts), 40 * i, parts[i]));
        assert forall|k: int| 0 <= k < 40 implies bytes[list + 40 * i + k] == #[trigger] parts[i][k] by {
            assert(bytes[list + (40 * i + k)] == concat(parts)[40 * i + k]);
        }
        assert forall|k: int| 0 <= k < 32 implies bytes[list + 40 * i + k] == #[trigger] key@[k] by {
            assert(parts[i][k] == key@[k]);
        }
        let written = le_bytes(weight as nat, 8);
        assert forall|k: int| 0 <= k < 8 implies bytes[list + 40 * i + 32 + k]
            == #[trigger] written[k] by {
            assert(parts[i][32 + k] == written[k]);
            assert(bytes[list + 40 * i + (32 + k)] == parts[i][32 + k]);
        }
        lemma_spells(bytes, list + 40 * i + 32, 8, weight as nat);
    }
    assert(stands(bytes, list + 40 * n, epoch.randomness));
}

/// The message that an authority is disabled holds its kind and the index, and nothing else.
pub proof fn law_disabled_layout(index: nat)
    ensures
        on_disabled_bytes(index).len() == 5,
        on_disabled_bytes(index)[0] == 2,
        spells(on_disabled_bytes(index), 1, 4, index),
{
    lemma_le_bytes_len(index, 4);
    assert(stands(on_disabled_bytes(index), 1, le_bytes(index, 4)));
    lemma_spells(on_disabled_bytes(index), 1, 4, index);
}

/// A message is written as what it is, and any list that can be counted in four bytes can be
/// written.
pub proof fn law_messages_are_told_apart(log: ConsensusLog)
    ensures
        log matches ConsensusLog::NextEpochData(epoch) ==> {
            &&& log.encoded() == next_epoch_bytes(
                EpochData {
                    epoch_index: epoch.epoch_index,
                    start_slot: epoch.start_slot,
                    duration: epoch.duration,
                    authorities: epoch.authorities@,
                    randomness: epoch.randomness@,
                    secondary_slots: epoch.secondary_slots,
                },
            )
            &&& log.encodable() <==> epoch.authorities@.len() <= 4_294_967_295
        },
        log matches ConsensusLog::OnDisabled(index) ==> {
            &&& log.encoded() == on_disabled_bytes(index as nat)
            &&& log.encodable()
        },
{
}

/// A message to the consensus engine goes out under the engine's name, as it is.
pub proof fn law_consensus_item(item: DigestItem, data: Seq<u8>)
    ensures
        is_consensus_item(item, data) <==> (item matches DigestItem::Consensus(id, message)
            && message@ == data && id@.len() == 4 && id@[0] == 'B' as u8 && id@[1] == 'A' as u8
            && id@[2] == 'B' as u8 && id@[3] == 'E' as u8),
{
    if let DigestItem::Consensus(id, message) = item {
        if id@[0] == 'B' as u8 && id@[1] == 'A' as u8 && id@[2] == 'B' as u8 && id@[3]
            == 'E' as u8 {
            assert(id@ =~= crate::digests::BABE_ENGINE_ID@);
        }
    }
}

/// The evidence is written whole: who, in which slot, both headers and both signatures, each in
/// its place, and nothing else.
pub proof fn law_evidence_layout(equivocation: EquivocationProof)
    ensures
        ({
            let bytes = equivocation.encoded();
            let first = equivocation.first_header.encoded@;
            let second = equivocation.second_header.encoded@;
            let signatures = 40 + first.len() as int + second.len();
            &&& bytes.len() == signatures + 128
            &&& stands(bytes, 0, equivocation.identity@)
            &&& spells(bytes, 32, 8, equivocation.slot as nat)
            &&& stands(bytes, 40, first)
            &&& stands(bytes, 40 + first.len() as int, second)
            &&& stands(bytes, signatures, equivocation.first_signature@)
            &&& stands(bytes, signatures + 64, equivocation.second_signature@)
        }),
{
    let bytes = equivocation.encoded();
    lemma_le_bytes_len(equivocation.slot as nat, 8);
    assert(stands(bytes, 32, le_bytes(equivocation.slot as nat, 8)));
    lemma_spells(bytes, 32, 8, equivocation.slot as nat);
}

/// The call that reports an equivocation carries all of the evidence and all of the owner's
/// proof, however long they are.
pub proof fn law_report_layout(equivocation: EquivocationProof, owner_proof: Seq<u8>)
    ensures
        ({
            let call = report_call(equivocation, owner_proof);
            let evidence = equivocation.encoded();
            &&& call.len() == 1 + evidence.len() + owner_proof.len()
            &&& call[0] == 0
            &&& stands(call, 1, evidence)
            &&& stands(call, 1 + evidence.len() as int, owner_proof)
        }),
{
}

/// The signature on a transaction covers the call whole, that it lives forever, is the first of
/// its sender and pays no tip, and the chain, named twice; however long the call is.
pub proof fn law_payload_layout(call: Seq<u8>, genesis_hash: Seq<u8>)
    ensures
        ({
            let payload = transaction_payload(call, genesis_hash);
            let n = call.len() as int;
            &&& payload.len() == n + 3 + 2 * genesis_hash.len()
            &&& stands(payload, 0, call)
            &&& payload[n] == 0 && payload[n + 1] == 0 && payload[n + 2] == 0
            &&& stands(payload, n + 3, genesis_hash)
            &&& stands(payload, n + 3 + genesis_hash.len(), genesis_hash)
        }),
{
}

/// A payload of up to 256 bytes is signed as it is, a longer one by its hash.
pub proof fn law_message_is_payload_or_hash(payload: Seq<u8>)
    ensures
        payload.len() <= 256 ==> signed_message(payload) == payload,
        payload.len() >= 257 ==> signed_message(payload) == blake2_256_hash(payload),
{
}

/// The call can be read back from the transaction: whatever its length, it stands there whole,
/// behind the version, the sender, the signature and the three bytes that are signed along.
pub proof fn law_transaction_carries_the_call(
    reporter: Seq<u8>,
    signature: Seq<u8>,
    call: Seq<u8>,
)
    requires
        reporter.len() == 32,
        signature.len() == 64,
    ensures
        ({
            let body = transaction_body(reporter, signature, call);
            &&& body.len() == 101 + call.len()
            &&& body[0] == 132
            &&& body[1] == 255
            &&& stands(body, 2, reporter)
            &&& stands(body, 34, signature)
            &&& body[98] == 0 && body[99] == 0 && body[100] == 0
            &&& stands(body, 101, call)
            &&& body.subrange(101, body.len() as int) == call
        }),
{
    let body = transaction_body(reporter, signature, call);
    assert(body.subrange(101, body.len() as int) =~= call);
}

/// What goes out is the transaction with its length in front, and that as a byte string with its
/// length in front: the call is at the end of it, whole.
pub proof fn law_sent_transaction_ends_with_the_call(
    reporter: Seq<u8>,
    signature: Seq<u8>,
    call: Seq<u8>,
)
    requires
        reporter.len() == 32,
        signature.len() == 64,
    ensures
        ({
            let n = 101 + call.len();
            let inner = length_width(n) + n;
            let start = (length_width(inner) + length_width(n)) as int;
            let sent = prefixed_bytes(prefixed_bytes(transaction_body(reporter, signature, call)));
            &&& sent.len() == length_width(inner) + inner
            &&& stands(sent, 0, compact_bytes(inner))
            &&& stands(sent, length_width(inner) as int, compact_bytes(n))
            &&& sent[start] == 132 && sent[start + 1] == 255
            &&& stands(sent, start + 2, reporter)
            &&& stands(sent, start + 34, signature)
            &&& sent[start + 98] == 0 && sent[start + 99] == 0 && sent[start + 100] == 0
            &&& stands(sent, start + 101, call)
        }),
{
    let body = transaction_body(reporter, signature, call);
    law_transaction_carries_the_call(reporter, signature, call);
    law_prefixed_layout(body);
    law_prefixed_layout(prefixed_bytes(body));
    let inner = prefixed_bytes(body);
    let sent = prefixed_bytes(inner);
    let a = length_width(inner.len()) as int;
    let b = length_width(body.len()) as int;
    assert(sent.subrange(a, sent.len() as int) =~= inner);
    assert(inner.subrange(b, inner.len() as int) =~= body);
    assert forall|i: int| 0 <= i < body.len() implies sent[a + b + i] == #[trigger] body[i] by {
        assert(sent[a + (b + i)] == inner[b + i]);
    }
    assert(stands(inner, 0, compact_bytes(body.len())));
    assert(stands(sent, a, compact_bytes(body.len())));
    assert(sent[a + b + 0] == body[0]);
    assert(sent[a + b + 1] == body[1]);
    assert(sent[a + b + 98] == body[98]);
    assert(sent[a + b + 99] == body[99]);
    assert(sent[a + b + 100] == body[100]);
    assert forall|i: int| 0 <= i < reporter.len() implies sent[a + b + 2 + i]
        == #[trigger] reporter[i] by {
        assert(sent[a + b + (2 + i)] == body[2 + i]);
    }
    assert forall|i: int| 0 <= i < signature.len() implies sent[a + b + 34 + i]
        == #[trigger] signature[i] by {
        assert(sent[a + b + (34 + i)] == body[34 + i]);
    }
    assert forall|i: int| 0 <= i < call.len() implies sent[a + b + 101 + i]
        == #[trigger] call[i] by {
        assert(sent[a + b + (101 + i)] == body[101 + i]);
    }
}

} // verus!
