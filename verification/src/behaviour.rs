//! What each step of the module does, told of its inputs and results.

use vstd::prelude::*;

use crate::config::{ConstU128, ConstU32, ConstU64, Get, Moment};
use crate::crypto::{blake2_256_hash, sr25519_good, AuthorityId, PUBLIC_KEY_LENGTH};
use crate::digests::{
    decoded_pre_digest, first_pre_digest, ConsensusEngineId, DigestItem, PreDigest,
    RawBabePreDigest, BABE_ENGINE_ID, VRF_OUTPUT_LENGTH, VRF_PROOF_LENGTH,
};
use crate::epoch::Epoch;
use crate::equivocation::{EquivocationProof, BABE_KEY_TYPE};
use crate::inherents::{INHERENT_IDENTIFIER, TIMESTAMP_IDENTIFIER};
use crate::laws::{
    law_deposit_appends, law_pre_digest_round_trip, law_room, lemma_outputs_in_len,
};
use crate::layout::{law_randomness_hashes_everything, spells, stands};
use crate::module::{author_index, session_keys, slot_at, slot_length, Module};
use crate::offence::{rational_parts, slash_parts, square_parts, BILLION, OFFENCE_ID};
use crate::randomness::{outputs_view, RANDOMNESS_LENGTH};
use crate::state::{
    outputs_in, segment_in, with_weights, zero_randomness, State, UNDER_CONSTRUCTION_SEGMENT_LENGTH,
};

verus! {

/// Whether `id` is the four letters `BABE`.
pub open spec fn is_babe(id: Seq<u8>) -> bool {
    id.len() == 4 && id[0] == 66 && id[1] == 65 && id[2] == 66 && id[3] == 69
}

/// Whether `item` is a pre-runtime item of BABE that can be read.
pub open spec fn holds_pre_digest(item: DigestItem) -> bool {
    item matches DigestItem::PreRuntime(id, data) && is_babe(id@) && decoded_pre_digest(data@) is Some
}

/// The index of the author that a pre-digest names.
pub open spec fn named_author(digest: PreDigest) -> u32 {
    match digest {
        PreDigest::Primary { authority_index, slot_number, vrf_output, vrf_proof } =>
            authority_index,
        PreDigest::Secondary { authority_index, slot_number } => authority_index,
    }
}

/// The slot that a pre-digest names.
pub open spec fn named_slot(digest: PreDigest) -> u64 {
    match digest {
        PreDigest::Primary { authority_index, slot_number, vrf_output, vrf_proof } => slot_number,
        PreDigest::Secondary { authority_index, slot_number } => slot_number,
    }
}

proof fn lemma_babe_id(id: ConsensusEngineId)
    ensures
        id@ == BABE_ENGINE_ID@ <==> is_babe(id@),
{
    if is_babe(id@) {
        assert(id@ =~= BABE_ENGINE_ID@);
    }
}

/// The names and lengths that the module goes by.
pub proof fn law_constants(engine: ConsensusEngineId)
    ensures
        engine@ == BABE_ENGINE_ID@ <==> is_babe(engine@),
        BABE_KEY_TYPE@ == seq![98u8, 97, 98, 101],
        INHERENT_IDENTIFIER@ == seq![98u8, 97, 98, 101, 115, 108, 111, 116],
        TIMESTAMP_IDENTIFIER@ == seq![116u8, 105, 109, 115, 116, 97, 112, 48],
        OFFENCE_ID@ == seq![
            98u8, 97, 98, 101, 58, 101, 113, 117, 105, 118, 111, 99, 97, 116, 105, 111,
        ],
        RANDOMNESS_LENGTH == 32,
        VRF_OUTPUT_LENGTH == 32,
        VRF_PROOF_LENGTH == 64,
        PUBLIC_KEY_LENGTH == 32,
        UNDER_CONSTRUCTION_SEGMENT_LENGTH == 256,
        BILLION == 1_000_000_000,
{
    lemma_babe_id(engine);
    assert(BABE_KEY_TYPE@ =~= seq![98u8, 97, 98, 101]);
    assert(INHERENT_IDENTIFIER@ =~= seq![98u8, 97, 98, 101, 115, 108, 111, 116]);
    assert(TIMESTAMP_IDENTIFIER@ =~= seq![116u8, 105, 109, 115, 116, 97, 112, 48]);
    assert(OFFENCE_ID@ =~= seq![
        98u8, 97, 98, 101, 58, 101, 113, 117, 105, 118, 111, 99, 97, 116, 105, 111,
    ]);
}

/// A constant stands for its number.
pub proof fn law_constants_stand_for_themselves<const A: u32, const B: u64, const C: u128>()
    ensures
        <ConstU32<A> as Get<u32>>::value() == A,
        <ConstU64<B> as Get<u64>>::value() == B,
        <ConstU128<C> as Get<u128>>::value() == C,
{
}

/// A moment is as many milliseconds as its number says, up to the greatest number of its type.
pub proof fn law_moments_are_milliseconds(a: u32, b: u64, c: u128)
    ensures
        a.millis() == a,
        <u32 as Moment>::limit() == 0xffff_ffff,
        b.millis() == b,
        <u64 as Moment>::limit() == 0xffff_ffff_ffff_ffff,
        c.millis() == c,
        <u128 as Moment>::limit() == 0xffff_ffff_ffff_ffff_ffff_ffff_ffff_ffff,
{
}

/// VRF outputs are looked at byte by byte, all of them in order.
pub proof fn law_outputs_are_seen_whole(outputs: Seq<[u8; 32]>)
    ensures
        outputs_view(outputs).len() == outputs.len(),
        forall|j: int| 0 <= j < outputs.len() ==> #[trigger] outputs_view(outputs)[j] == outputs[j]@,
{
}

/// What is stated of a module is stated of its fields, every one of them.
pub proof fn law_module_is_seen_whole(module: Module)
    ensures
        module@.epoch_index == module.epoch_index,
        module@.authorities == module.authorities@,
        module@.epoch_start_slot == module.epoch_start_slot,
        module@.current_slot == module.current_slot,
        module@.secondary_slots == module.secondary_slots,
        module@.pending_secondary_slots_change == module.pending_secondary_slots_change,
        module@.randomness == module.randomness@,
        module@.next_randomness == module.next_randomness@,
        module@.segment_index == module.segment_index,
        module@.initialized == module.initialized,
        forall|k: u32| #[trigger]
            module@.under_construction.contains_key(k) <==> module.under_construction@.contains_key(
                k,
            ),
        forall|k: u32, j: int|
            #![trigger module@.under_construction[k][j]]
            module.under_construction@.contains_key(k) && 0 <= j
                < module.under_construction@[k]@.len() ==> module@.under_construction[k][j]
                == module.under_construction@[k]@[j]@,
        forall|k: u32| #[trigger]
            module@.under_construction.contains_key(k) ==> module@.under_construction[k].len()
                == module.under_construction@[k]@.len(),
{
}

/// What is stated of a pre-digest is stated of its fields, every one of them.
pub proof fn law_pre_digest_is_seen_whole(digest: RawBabePreDigest)
    ensures
        digest matches RawBabePreDigest::Primary {
            authority_index,
            slot_number,
            vrf_output,
            vrf_proof,
        } ==> digest@ == (PreDigest::Primary {
            authority_index,
            slot_number,
            vrf_output: vrf_output@,
            vrf_proof: vrf_proof@,
        }),
        digest matches RawBabePreDigest::Secondary { authority_index, slot_number } ==> digest@ == (
        PreDigest::Secondary { authority_index, slot_number }),
        digest@.authority_index() == named_author(digest@),
        digest@.slot_number() == named_slot(digest@),
{
}

/// What is stated of an epoch is stated of its fields, every one of them.
pub proof fn law_epoch_is_seen_whole(epoch: Epoch)
    ensures
        epoch@.epoch_index == epoch.epoch_index,
        epoch@.start_slot == epoch.start_slot,
        epoch@.duration == epoch.duration,
        epoch@.authorities == epoch.authorities@,
        epoch@.randomness == epoch.randomness@,
        epoch@.secondary_slots == epoch.secondary_slots,
{
}

/// A pre-digest tells the author and the slot that it names, primary or secondary.
pub proof fn law_pre_digest_tells_author_and_slot(digest: PreDigest)
    ensures
        digest.authority_index() == named_author(digest),
        digest.slot_number() == named_slot(digest),
{
}

/// The pre-digest of a block is that of the first item that holds one which can be read.
pub proof fn law_first_readable_pre_digest(logs: Seq<DigestItem>, i: int)
    requires
        0 <= i < logs.len(),
        holds_pre_digest(logs[i]),
        forall|j: int| 0 <= j < i ==> !holds_pre_digest(#[trigger] logs[j]),
    ensures
        logs[i] matches DigestItem::PreRuntime(id, data) && first_pre_digest(logs)
            == decoded_pre_digest(data@),
    decreases logs.len(),
{
    if let DigestItem::PreRuntime(id, data) = logs[0] {
        lemma_babe_id(id);
    }
    if i > 0 {
        assert(!holds_pre_digest(logs[0]));
        let rest = logs.skip(1);
        assert forall|j: int| 0 <= j < i - 1 implies !holds_pre_digest(#[trigger] rest[j]) by {
            assert(rest[j] == logs[j + 1]);
        }
        assert(rest[i - 1] == logs[i]);
        law_first_readable_pre_digest(rest, i - 1);
    }
}

/// A block none of whose items holds a pre-digest that can be read has none.
pub proof fn law_no_readable_pre_digest(logs: Seq<DigestItem>)
    requires
        forall|j: int| 0 <= j < logs.len() ==> !holds_pre_digest(#[trigger] logs[j]),
    ensures
        first_pre_digest(logs) is None,
    decreases logs.len(),
{
    if logs.len() > 0 {
        assert(!holds_pre_digest(logs[0]));
        if let DigestItem::PreRuntime(id, data) = logs[0] {
            lemma_babe_id(id);
        }
        let rest = logs.skip(1);
        assert forall|j: int| 0 <= j < rest.len() implies !holds_pre_digest(#[trigger] rest[j]) by {
            assert(rest[j] == logs[j + 1]);
        }
        law_no_readable_pre_digest(rest);
    }
}

/// The author of a block is told by the first item of BABE: it is found wherever that item can
/// be read, in a primary slot and in a secondary one, and it is the author named there.
pub proof fn law_author_is_found(digests: Seq<(ConsensusEngineId, Vec<u8>)>, i: int)
    requires
        0 <= i < digests.len(),
        is_babe(digests[i].0@),
        forall|j: int| 0 <= j < i ==> !is_babe((#[trigger] digests[j]).0@),
    ensures
        match decoded_pre_digest(digests[i].1@) {
            Some(digest) => author_index(digests) == Some(named_author(digest)),
            None => author_index(digests) is None,
        },
    decreases digests.len(),
{
    lemma_babe_id(digests[0].0);
    if i > 0 {
        assert(!is_babe(digests[0].0@));
        let rest = digests.skip(1);
        assert forall|j: int| 0 <= j < i - 1 implies !is_babe((#[trigger] rest[j]).0@) by {
            assert(rest[j] == digests[j + 1]);
        }
        assert(rest[i - 1] == digests[i]);
        law_author_is_found(rest, i - 1);
    }
}

/// A block without an item of BABE has no author that can be told.
pub proof fn law_no_author_without_babe(digests: Seq<(ConsensusEngineId, Vec<u8>)>)
    requires
        forall|j: int| 0 <= j < digests.len() ==> !is_babe((#[trigger] digests[j]).0@),
    ensures
        author_index(digests) is None,
    decreases digests.len(),
{
    if digests.len() > 0 {
        lemma_babe_id(digests[0].0);
        assert(!is_babe(digests[0].0@));
        let rest = digests.skip(1);
        assert forall|j: int| 0 <= j < rest.len() implies !is_babe((#[trigger] rest[j]).0@) by {
            assert(rest[j] == digests[j + 1]);
        }
        law_no_author_without_babe(rest);
    }
}

/// Whoever authors a block and says so in its pre-digest is found, in a primary slot and in a
/// secondary one, whatever follows.
pub proof fn law_author_says_so(
    digest: PreDigest,
    item: (ConsensusEngineId, Vec<u8>),
    rest: Seq<(ConsensusEngineId, Vec<u8>)>,
)
    requires
        digest matches PreDigest::Primary { vrf_output, vrf_proof, .. } ==> vrf_output.len() == 32
            && vrf_proof.len() == 64,
        is_babe(item.0@),
        item.1@ == digest.encoded(),
    ensures
        author_index(seq![item] + rest) == Some(named_author(digest)),
{
    law_pre_digest_round_trip(digest);
    law_author_is_found(seq![item] + rest, 0);
}

/// Whether two byte strings differ: in length, or in some byte.
pub open spec fn differ(a: Seq<u8>, b: Seq<u8>) -> bool {
    a.len() != b.len() || exists|i: int| 0 <= i < a.len() && #[trigger] a[i] != b[i]
}

/// Evidence of an equivocation is accepted: two headers that differ anywhere, that both name the
/// claimed slot, and that the accused authority signed both.
pub proof fn law_equivocation_is_accepted(equivocation: EquivocationProof)
    requires
        differ(equivocation.first_header.encoded@, equivocation.second_header.encoded@),
        equivocation.first_header.slot == Some(equivocation.slot),
        equivocation.second_header.slot == Some(equivocation.slot),
        sr25519_good(
            equivocation.first_signature@,
            equivocation.first_header.hash@,
            equivocation.identity@,
        ),
        sr25519_good(
            equivocation.second_signature@,
            equivocation.second_header.hash@,
            equivocation.identity@,
        ),
    ensures
        equivocation.consistent(),
        equivocation.valid(),
{
}

/// Nothing less is accepted as evidence of an equivocation.
pub proof fn law_equivocation_is_proved(equivocation: EquivocationProof)
    ensures
        equivocation.consistent() ==> {
            &&& differ(equivocation.first_header.encoded@, equivocation.second_header.encoded@)
            &&& equivocation.first_header.slot == Some(equivocation.slot)
            &&& equivocation.second_header.slot == Some(equivocation.slot)
        },
        equivocation.valid() ==> {
            &&& equivocation.consistent()
            &&& sr25519_good(
                equivocation.first_signature@,
                equivocation.first_header.hash@,
                equivocation.identity@,
            )
            &&& sr25519_good(
                equivocation.second_signature@,
                equivocation.second_header.hash@,
                equivocation.identity@,
            )
        },
{
    let a = equivocation.first_header.encoded@;
    let b = equivocation.second_header.encoded@;
    if !differ(a, b) {
        assert forall|i: int| 0 <= i < a.len() implies a[i] == b[i] by {}
        assert(a =~= b);
    }
}

/// The state before the first block: nothing has happened, all is zero, and secondary slots are
/// enabled.
pub proof fn law_genesis_values()
    ensures
        ({
            let state = State::genesis();
            &&& state.epoch_index == 0
            &&& state.authorities.len() == 0
            &&& state.epoch_start_slot == 0
            &&& state.current_slot == 0
            &&& state.secondary_slots == (true, true)
            &&& state.pending_secondary_slots_change is None
            &&& state.randomness == zero_randomness()
            &&& state.next_randomness == zero_randomness()
            &&& state.segment_index == 0
            &&& forall|k: u32| !#[trigger] state.under_construction.contains_key(k)
            &&& state.initialized is None
        }),
        zero_randomness().len() == 32,
        forall|i: int| 0 <= i < 32 ==> #[trigger] zero_randomness()[i] == 0,
{
}

/// The first time in a block, per-block initialization moves to the slot that the pre-digest
/// names, which is the start of the first epoch if none has started, and takes in the VRF output
/// of a primary slot. Nothing else changes.
pub proof fn law_block_is_taken_in(state: State, logs: Seq<DigestItem>, digest: PreDigest)
    requires
        state.initialized != Some(true),
        first_pre_digest(logs) == Some(digest),
    ensures
        ({
            let after = state.initialize(logs);
            &&& after.initialized == Some(true)
            &&& after.current_slot == named_slot(digest)
            &&& after.epoch_start_slot == (if state.epoch_start_slot == 0 {
                named_slot(digest)
            } else {
                state.epoch_start_slot
            })
            &&& after.epoch_index == state.epoch_index
            &&& after.authorities == state.authorities
            &&& after.secondary_slots == state.secondary_slots
            &&& after.pending_secondary_slots_change == state.pending_secondary_slots_change
            &&& after.randomness == state.randomness
            &&& after.next_randomness == state.next_randomness
            &&& digest is Secondary ==> after.segment_index == state.segment_index
                && after.under_construction == state.under_construction
            &&& digest matches PreDigest::Primary { vrf_output, .. } ==> {
                &&& after.segment_index == state.with_vrf_output(vrf_output).segment_index
                &&& after.under_construction == state.with_vrf_output(vrf_output).under_construction
                &&& state.has_room() ==> after.vrf_outputs() == state.vrf_outputs().push(vrf_output)
            }
        }),
{
    if let PreDigest::Primary { vrf_output, .. } = digest {
        if state.has_room() {
            law_deposit_appends(state, vrf_output);
        }
    }
}

/// A block without a pre-digest is only marked, and a block that has been taken in changes
/// nothing more.
pub proof fn law_block_is_left_alone(state: State, logs: Seq<DigestItem>)
    ensures
        state.initialized == Some(true) ==> state.initialize(logs) == state,
        state.initialized != Some(true) && first_pre_digest(logs) is None ==> state.initialize(logs)
            == (State { initialized: Some(true), ..state }),
        state.is_initialized() <==> state.initialized == Some(true),
{
}

/// Finalizing a block takes the mark off that it has been taken in, and changes nothing else.
pub proof fn law_finalize_takes_the_mark_off(state: State)
    ensures
        state.finalize() == (State { initialized: None, ..state }),
{
}

/// A VRF output goes to the end of the segment that is being filled while that holds fewer than
/// 256, and starts the next one after. No other segment and nothing else changes.
pub proof fn law_deposit_fills_segments(state: State, output: Seq<u8>)
    ensures
        ({
            let after = state.with_vrf_output(output);
            let at = state.segment_index;
            let held = if state.under_construction.contains_key(at) {
                state.under_construction[at]
            } else {
                Seq::empty()
            };
            let to = if held.len() < 256 {
                at as int
            } else {
                at + 1
            };
            &&& held.len() < 256 || at < u32::MAX ==> {
                &&& after.segment_index == to
                &&& after.under_construction.contains_key(to as u32)
                &&& after.under_construction[to as u32] == (if held.len() < 256 {
                    held.push(output)
                } else {
                    seq![output]
                })
                &&& forall|k: u32|
                    #![trigger after.under_construction.contains_key(k)]
                    k != to ==> (after.under_construction.contains_key(k)
                        <==> state.under_construction.contains_key(k)) && (
                    state.under_construction.contains_key(k) ==> after.under_construction[k]
                        == state.under_construction[k])
                &&& after == (State {
                    segment_index: after.segment_index,
                    under_construction: after.under_construction,
                    ..state
                })
            }
        }),
{
}

/// There is room for a VRF output unless the last segment that can be numbered is full, and
/// every block finds room unless it brings one then.
pub proof fn law_room_is_left(state: State, logs: Seq<DigestItem>)
    ensures
        state.segment_index < 0xffff_ffff ==> state.has_room() && state.has_room_for(logs),
        !state.under_construction.contains_key(state.segment_index) ==> state.has_room()
            && state.has_room_for(logs),
        state.under_construction[state.segment_index].len() < 256 ==> state.has_room()
            && state.has_room_for(logs),
        !(first_pre_digest(logs) matches Some(PreDigest::Primary { .. })) ==> state.has_room_for(
            logs,
        ),
        state.initialized == Some(true) ==> state.has_room_for(logs),
{
}

/// What it is for the randomness under construction to be as the module keeps it: segments of
/// 256 up to the one that is being filled, which holds no more, and none after.
pub proof fn law_well_formed_means(state: State)
    ensures
        state.well_formed() <==> {
            &&& forall|k: u32|
                k < state.segment_index ==> (#[trigger] state.under_construction.contains_key(k)
                    && state.under_construction[k].len() == 256)
            &&& state.under_construction.contains_key(state.segment_index)
                ==> state.under_construction[state.segment_index].len() <= 256
            &&& forall|k: u32| #[trigger]
                state.under_construction.contains_key(k) ==> k <= state.segment_index
        },
{
    let full = forall|k: u32|
        k < state.segment_index ==> (#[trigger] state.under_construction.contains_key(k)
            && state.under_construction[k].len() == 256);
    if state.well_formed() {
        assert forall|k: u32| k < state.segment_index implies (
        #[trigger] state.under_construction.contains_key(k) && state.under_construction[k].len()
            == 256) by {
            assert(state.segment(k).len() == 256);
        }
    }
    if full {
        assert forall|k: u32| k < state.segment_index implies #[trigger] state.segment(k).len()
            == UNDER_CONSTRUCTION_SEGMENT_LENGTH by {
            assert(state.under_construction.contains_key(k));
        }
    }
}

/// The VRF outputs collected are those of all segments, in order: all before the one that is
/// being filled hold 256, and that one is counted too.
pub proof fn law_outputs_of_all_segments(state: State, i: u32, j: int)
    requires
        state.well_formed(),
        state.under_construction.contains_key(i),
        0 <= j < state.under_construction[i].len(),
    ensures
        0 <= 256 * i + j < state.vrf_outputs().len(),
        state.vrf_outputs()[256 * i + j] == state.under_construction[i][j],
        state.vrf_outputs().len() == 256 * state.segment_index + (
        if state.under_construction.contains_key(state.segment_index) {
            state.under_construction[state.segment_index].len()
        } else {
            0
        }),
{
    law_room(state);
    assert(i <= state.segment_index);
    assert(state.segment(i) == state.under_construction[i]);
    lemma_output_of_segment(state, (state.segment_index + 1) as nat, i, j);
}

proof fn lemma_output_of_segment(state: State, count: nat, i: u32, j: int)
    requires
        state.well_formed(),
        i < count <= state.segment_index + 1,
        0 <= j < state.segment(i).len(),
    ensures
        256 * i + j < outputs_in(state.under_construction, count).len(),
        outputs_in(state.under_construction, count)[256 * i + j] == state.segment(i)[j],
    decreases count,
{
    let map = state.under_construction;
    let below = (count - 1) as nat;
    assert(outputs_in(map, count) == outputs_in(map, below) + segment_in(map, below as u32));
    assert forall|k: u32| k < below implies #[trigger] segment_in(map, k).len()
        == UNDER_CONSTRUCTION_SEGMENT_LENGTH by {
        assert(state.segment(k).len() == UNDER_CONSTRUCTION_SEGMENT_LENGTH);
    }
    lemma_outputs_in_len(map, below);
    if i < below {
        lemma_output_of_segment(state, below, i, j);
    } else {
        assert(i == below as u32);
    }
}

/// The next randomness is the hash of the one before it, the index of the epoch that it is for,
/// and every VRF output collected, each in its place. The outputs are used up; nothing else
/// changes.
pub proof fn law_randomness_of_all_outputs(state: State, next_epoch_index: u64)
    requires
        state.next_randomness.len() == 32,
        forall|j: int|
            0 <= j < state.vrf_outputs().len() ==> (#[trigger] state.vrf_outputs()[j]).len() == 32,
    ensures
        ({
            let after = state.change_randomness(next_epoch_index);
            let rho = state.vrf_outputs();
            &&& exists|s: Seq<u8>|
                {
                    &&& s.len() == 40 + 32 * rho.len()
                    &&& stands(s, 0, state.next_randomness)
                    &&& spells(s, 32, 8, next_epoch_index as nat)
                    &&& forall|j: int|
                        0 <= j < rho.len() ==> stands(s, 40 + 32 * j, #[trigger] rho[j])
                    &&& after.next_randomness == #[trigger] blake2_256_hash(s)
                }
            &&& after.segment_index == 0
            &&& forall|k: u32|
                k <= state.segment_index ==> !#[trigger] after.under_construction.contains_key(k)
            &&& forall|k: u32|
                k > state.segment_index ==> (#[trigger] after.under_construction.contains_key(k)
                    <==> state.under_construction.contains_key(k)) && (
                state.under_construction.contains_key(k) ==> after.under_construction[k]
                    == state.under_construction[k])
            &&& after == (State {
                next_randomness: after.next_randomness,
                segment_index: after.segment_index,
                under_construction: after.under_construction,
                ..state
            })
        }),
{
    law_randomness_hashes_everything(
        state.next_randomness,
        next_epoch_index,
        state.vrf_outputs(),
    );
}

/// A new session moves to the next epoch: its index is one more, its authorities are the
/// validators with weight one, its randomness is the one that was computed for it, and that of
/// the epoch after it is computed from all VRF outputs. What was scheduled for its secondary
/// slots holds now, and a pending change is scheduled. The slot and the mark on the block stay.
pub proof fn law_session_moves_on(state: State, duration: u64, keys: Seq<AuthorityId>)
    requires
        state.epoch_index + 2 <= u64::MAX,
    ensures
        ({
            let after = state.new_session(duration, keys);
            let computed = state.change_randomness((state.epoch_index + 2) as u64);
            &&& after.epoch_index == state.epoch_index + 1
            &&& after.authorities.len() == keys.len()
            &&& forall|i: int|
                0 <= i < keys.len() ==> #[trigger] after.authorities[i] == (keys[i], 1u64)
            &&& after.randomness == state.next_randomness
            &&& after.next_randomness == computed.next_randomness
            &&& after.segment_index == computed.segment_index
            &&& after.under_construction == computed.under_construction
            &&& after.secondary_slots.0 == state.secondary_slots.1
            &&& after.secondary_slots.1 == (match state.pending_secondary_slots_change {
                Some(change) => change,
                None => state.secondary_slots.1,
            })
            &&& after.pending_secondary_slots_change is None
            &&& after.current_slot == state.current_slot
            &&& after.initialized == state.initialized
        }),
{
}

/// The keys of the validators are those that they come with, all of them in order.
pub proof fn law_session_keys<A>(validators: Seq<(A, AuthorityId)>)
    ensures
        session_keys(validators).len() == validators.len(),
        forall|i: int|
            0 <= i < validators.len() ==> #[trigger] session_keys(validators)[i]
                == validators[i].1,
        with_weights(session_keys(validators)).len() == validators.len(),
        forall|i: int|
            0 <= i < validators.len() ==> #[trigger] with_weights(session_keys(validators))[i] == (
                validators[i].1,
                1u64,
            ),
{
}

/// A key is an authority's if it is that of one in the list, whatever its weight.
pub proof fn law_members_are_listed(state: State, key: AuthorityId, i: int)
    ensures
        0 <= i < state.authorities.len() && state.authorities[i].0@ == key@
            ==> state.has_authority(key),
        (forall|j: int|
            0 <= j < state.authorities.len() ==> (#[trigger] state.authorities[j]).0@ != key@)
            ==> !state.has_authority(key),
{
}

/// An epoch is over as soon as the current slot is `duration` slots past its start.
pub proof fn law_epoch_is_over_in_time(state: State, duration: u64)
    ensures
        state.current_slot >= state.epoch_start_slot + duration ==> state.epoch_is_over(duration),
        duration > 0 && state.current_slot < state.epoch_start_slot + duration
            ==> !state.epoch_is_over(duration),
        duration == 0 ==> state.epoch_is_over(duration),
{
}

/// What is announced of the next epoch: its index is one more, it starts where the current one
/// ends, as far as slots can be told, it lasts as long as the runtime's epochs, its authorities
/// are those queued with weight one, and its randomness and secondary slots are as scheduled.
pub proof fn law_announced_epoch(state: State, duration: u64, keys: Seq<AuthorityId>)
    requires
        state.epoch_index + 1 <= u64::MAX,
    ensures
        ({
            let announced = state.next_epoch(duration, keys);
            &&& announced.epoch_index == state.epoch_index + 1
            &&& announced.start_slot == (if state.epoch_start_slot + duration <= u64::MAX {
                state.epoch_start_slot + duration
            } else {
                u64::MAX as int
            })
            &&& announced.duration == duration
            &&& announced.authorities.len() == keys.len()
            &&& forall|i: int|
                0 <= i < keys.len() ==> #[trigger] announced.authorities[i] == (keys[i], 1u64)
            &&& announced.randomness == state.next_randomness
            &&& announced.secondary_slots == state.secondary_slots.1
        }),
{
}

/// The announced epoch ends when it says: in the epoch that starts at the announced slot, the
/// first slot at which it is over is the announced one plus the announced duration.
pub proof fn law_announced_epoch_lasts(
    state: State,
    duration: u64,
    keys: Seq<AuthorityId>,
    later: State,
)
    requires
        duration > 0,
        later.epoch_start_slot == state.next_epoch(duration, keys).start_slot,
    ensures
        ({
            let announced = state.next_epoch(duration, keys);
            later.epoch_is_over(duration) <==> later.current_slot >= announced.start_slot
                + announced.duration
        }),
{
}

/// A slot takes twice the minimum period, or the longest time that can be told.
pub proof fn law_slot_takes_twice_the_period(period: nat, limit: nat)
    ensures
        2 * period <= limit ==> slot_length(period, limit) == 2 * period,
        2 * period > limit ==> slot_length(period, limit) == limit,
{
}

/// The slot of a timestamp is the one that it lies in: it starts no later and ends after.
/// Timestamps past all slots that can be numbered lie in the last.
pub proof fn law_timestamp_lies_in_its_slot(timestamp: nat, length: nat)
    requires
        length > 0,
    ensures
        timestamp < 0x1_0000_0000_0000_0000 * length ==> slot_at(timestamp, length) * length
            <= timestamp < (slot_at(timestamp, length) + 1) * length,
        timestamp >= 0x1_0000_0000_0000_0000 * length ==> slot_at(timestamp, length)
            == 0xffff_ffff_ffff_ffff,
{
    let q = timestamp / length;
    assert(q * length <= timestamp < (q + 1) * length) by (nonlinear_arith)
        requires
            q == timestamp / length,
            length > 0,
    ;
    let m: nat = 0x1_0000_0000_0000_0000;
    if timestamp < m * length {
        assert(q < m) by (nonlinear_arith)
            requires
                q * length <= timestamp,
                timestamp < m * length,
                length > 0,
        ;
    } else {
        assert(q >= m) by (nonlinear_arith)
            requires
                timestamp < (q + 1) * length,
                timestamp >= m * length,
                length > 0,
        ;
    }
}

/// The slash to the part: three times the offenders over the validators, at most one, in parts
/// per billion and rounded down, then squared and rounded down. Numbers over a billion are first
/// divided by the least number that brings the validators down to a billion.
pub proof fn law_slash_to_the_part(k: nat, n: nat)
    ensures
        ({
            let q: int = if n == 0 {
                1
            } else {
                n as int
            };
            let p: int = if 3 * k > q {
                q
            } else {
                3 * k as int
            };
            let f = (q + 999_999_999) / 1_000_000_000;
            let x = (p / f) * 1_000_000_000 / (q / f);
            &&& slash_parts(k, n) == x * x / 1_000_000_000
            &&& q <= 1_000_000_000 ==> f == 1 && slash_parts(k, n) == (p * 1_000_000_000 / q) * (p
                * 1_000_000_000 / q) / 1_000_000_000
        }),
{
    let q: int = if n == 0 {
        1
    } else {
        n as int
    };
    let p: int = if 3 * k > q {
        q
    } else {
        3 * k as int
    };
    let f = (q + 999_999_999) / 1_000_000_000;
    let x = (p / f) * 1_000_000_000 / (q / f);
    assert(f >= 1);
    assert(rational_parts(3 * k, n) == x);
    assert(square_parts(rational_parts(3 * k, n)) == x * x / 1_000_000_000);
    if q <= 1_000_000_000 {
        assert(f == 1);
        assert(p / 1 == p && q / 1 == q);
    }
}

/// Where nobody offends, nothing is slashed.
pub proof fn law_nobody_is_slashed(n: nat)
    ensures
        slash_parts(0, n) == 0,
{
    let q: int = if n == 0 {
        1
    } else {
        n as int
    };
    let f = (q + 999_999_999) / 1_000_000_000;
    assert(1 <= f <= q);
    assert(0int / f == 0) by (nonlinear_arith)
        requires
            f >= 1,
    ;
    let b = q / f;
    assert(b >= 1) by (nonlinear_arith)
        requires
            1 <= f <= q,
            b == q / f,
    ;
    assert(0int / b == 0) by (nonlinear_arith)
        requires
            b >= 1,
    ;
    law_slash_to_the_part(0, n);
    let x = (0int / f) * 1_000_000_000 / (q / f);
    assert(x == 0);
    assert(slash_parts(0, n) == x * x / 1_000_000_000);
    assert(x * x == 0) by (nonlinear_arith)
        requires
            x == 0,
    ;
}

} // verus!
