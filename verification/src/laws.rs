//! What holds of the module as a whole.

use vstd::prelude::*;
use vstd::utf8::{encode_utf8, encode_utf8_decode_utf8, encode_utf8_valid_utf8};

use crate::bytes::{le_bytes, le_limit, lemma_le_limits, lemma_le_round_trip};
use crate::codec::{compact_bytes, compact_value, compact_width, decoded_string, prefixed_bytes};
use crate::config::capped;
use crate::crypto::AuthorityId;
use crate::digests::{
    decoded_pre_digest, first_pre_digest, item_pre_digest, ConsensusEngineId, DigestItem, PreDigest,
    BABE_ENGINE_ID,
};
use crate::epoch::BabeAuthorityWeight;
use crate::equivocation::EquivocationProof;
use crate::inherents::{stored_number, Stored, INHERENT_IDENTIFIER, TIMESTAMP_IDENTIFIER};
use crate::module::{author_index, slot_at, slot_length};
use crate::offence::{rational_parts, slash_parts, square_parts, BILLION};
use crate::randomness::epoch_randomness;
use crate::state::{
    outputs_in, segment_in, zero_randomness, State, UNDER_CONSTRUCTION_SEGMENT_LENGTH,
};

verus! {

/// How many VRF outputs can be collected in one epoch at most.
pub open spec fn output_limit() -> nat {
    0x1_0000_0000 * UNDER_CONSTRUCTION_SEGMENT_LENGTH as nat
}

/// The state after a block with the given digest has been initialized and finalized.
pub open spec fn after_block(state: State, logs: Seq<DigestItem>) -> State {
    state.initialize(logs).finalize()
}

/// The state after a run of blocks.
pub open spec fn after_blocks(state: State, blocks: Seq<Seq<DigestItem>>) -> State
    decreases blocks.len(),
{
    if blocks.len() == 0 {
        state
    } else {
        after_block(after_blocks(state, blocks.drop_last()), blocks.last())
    }
}

/// The VRF output that a block brings: one if it was authored in a primary slot, else none.
pub open spec fn block_outputs(logs: Seq<DigestItem>) -> Seq<Seq<u8>> {
    match first_pre_digest(logs) {
        Some(PreDigest::Primary { vrf_output, .. }) => seq![vrf_output],
        _ => Seq::empty(),
    }
}

/// The VRF outputs that a run of blocks brings, in order.
pub open spec fn blocks_outputs(blocks: Seq<Seq<DigestItem>>) -> Seq<Seq<u8>>
    decreases blocks.len(),
{
    if blocks.len() == 0 {
        Seq::empty()
    } else {
        blocks_outputs(blocks.drop_last()) + block_outputs(blocks.last())
    }
}

proof fn lemma_outputs_in_congruent(
    a: Map<u32, Seq<Seq<u8>>>,
    b: Map<u32, Seq<Seq<u8>>>,
    count: nat,
)
    requires
        count <= 0x1_0000_0000,
        forall|i: u32| i < count ==> segment_in(a, i) == #[trigger] segment_in(b, i),
    ensures
        outputs_in(a, count) == outputs_in(b, count),
    decreases count,
{
    if count > 0 {
        lemma_outputs_in_congruent(a, b, (count - 1) as nat);
        assert(segment_in(a, (count - 1) as u32) == segment_in(b, (count - 1) as u32));
    }
}

pub(crate) proof fn lemma_outputs_in_len(segments: Map<u32, Seq<Seq<u8>>>, count: nat)
    requires
        count <= 0x1_0000_0000,
        forall|i: u32|
            i < count ==> #[trigger] segment_in(segments, i).len()
                == UNDER_CONSTRUCTION_SEGMENT_LENGTH,
    ensures
        outputs_in(segments, count).len() == count * UNDER_CONSTRUCTION_SEGMENT_LENGTH,
    decreases count,
{
    if count > 0 {
        lemma_outputs_in_len(segments, (count - 1) as nat);
        assert(segment_in(segments, (count - 1) as u32).len() == UNDER_CONSTRUCTION_SEGMENT_LENGTH);
    }
}

/// In a well-formed state the segments hold as many VRF outputs as their number says, so there
/// is room for one more exactly while fewer than `output_limit` have been collected.
pub proof fn law_room(state: State)
    requires
        state.well_formed(),
    ensures
        state.vrf_outputs().len() == state.segment_index * UNDER_CONSTRUCTION_SEGMENT_LENGTH
            + state.segment(state.segment_index).len(),
        state.has_room() <==> state.vrf_outputs().len() < output_limit(),
{
    let idx = state.segment_index;
    assert forall|i: u32| i < idx implies #[trigger] segment_in(state.under_construction, i).len()
        == UNDER_CONSTRUCTION_SEGMENT_LENGTH by {
        assert(state.segment(i).len() == UNDER_CONSTRUCTION_SEGMENT_LENGTH);
    }
    lemma_outputs_in_len(state.under_construction, idx as nat);
    assert(outputs_in(state.under_construction, (idx + 1) as nat) == outputs_in(
        state.under_construction,
        idx as nat,
    ) + state.segment(idx));
}

/// A VRF output that is deposited comes last of those collected, and all others keep their
/// place.
pub proof fn law_deposit_appends(state: State, output: Seq<u8>)
    requires
        state.has_room(),
    ensures
        state.with_vrf_output(output).vrf_outputs() == state.vrf_outputs().push(output),
{
    let idx = state.segment_index;
    let after = state.with_vrf_output(output);
    let old_map = state.under_construction;
    let new_map = after.under_construction;
    assert(outputs_in(old_map, (idx + 1) as nat) == outputs_in(old_map, idx as nat) + segment_in(
        old_map,
        idx,
    ));
    if state.segment(idx).len() < UNDER_CONSTRUCTION_SEGMENT_LENGTH {
        lemma_outputs_in_congruent(old_map, new_map, idx as nat);
        assert(outputs_in(new_map, (idx + 1) as nat) == outputs_in(new_map, idx as nat)
            + segment_in(new_map, idx));
        assert(after.vrf_outputs() =~= state.vrf_outputs().push(output));
    } else {
        lemma_outputs_in_congruent(old_map, new_map, (idx + 1) as nat);
        let next = (idx + 1) as u32;
        assert(outputs_in(new_map, (next + 1) as nat) == outputs_in(new_map, next as nat)
            + segment_in(new_map, next));
        assert(after.vrf_outputs() =~= state.vrf_outputs().push(output));
    }
}

/// The state before the first block is well formed and has collected nothing.
pub proof fn law_genesis_well_formed()
    ensures
        State::genesis().well_formed(),
        State::genesis().vrf_outputs() == Seq::<Seq<u8>>::empty(),
{
    reveal_with_fuel(outputs_in, 2);
    assert(State::genesis().vrf_outputs() =~= Seq::<Seq<u8>>::empty());
}

/// Depositing a VRF output keeps the state well formed.
pub proof fn law_deposit_well_formed(state: State, output: Seq<u8>)
    requires
        state.well_formed(),
        state.has_room(),
    ensures
        state.with_vrf_output(output).well_formed(),
{
    let after = state.with_vrf_output(output);
    assert forall|i: u32| i < after.segment_index implies #[trigger] after.segment(i).len()
        == UNDER_CONSTRUCTION_SEGMENT_LENGTH by {
        if i < state.segment_index {
            assert(state.segment(i).len() == UNDER_CONSTRUCTION_SEGMENT_LENGTH);
        } else {
            assert(i == state.segment_index);
            assert(state.segment(i).len() == UNDER_CONSTRUCTION_SEGMENT_LENGTH);
        }
        assert(after.segment(i) == state.segment(i));
    }
    assert forall|i: u32| #[trigger] after.under_construction.contains_key(i) implies i
        <= after.segment_index by {
        if i != after.segment_index {
            assert(state.under_construction.contains_key(i));
        }
    }
}

/// Initializing a block and finalizing it keep the state well formed.
pub proof fn law_block_well_formed(state: State, logs: Seq<DigestItem>)
    requires
        state.well_formed(),
        state.has_room_for(logs),
    ensures
        state.initialize(logs).well_formed(),
        state.initialize(logs).finalize().well_formed(),
{
    let after = state.initialize(logs);
    if !state.is_initialized() {
        match first_pre_digest(logs) {
            Some(digest) => {
                let marked = State { initialized: Some(true), ..state };
                let moved = marked.at_slot(digest.slot_number());
                law_same_segments(state, moved);
                match digest {
                    PreDigest::Primary { vrf_output, .. } => {
                        law_deposit_well_formed(moved, vrf_output);
                    },
                    _ => {},
                }
            },
            None => {
                law_same_segments(state, after);
            },
        }
    }
    law_same_segments(after, after.finalize());
}

/// What leaves the segments alone keeps the state well formed and what was collected, whatever
/// else it changes.
pub proof fn law_same_segments(a: State, b: State)
    requires
        a.well_formed(),
        a.segment_index == b.segment_index,
        a.under_construction == b.under_construction,
    ensures
        b.well_formed(),
        b.vrf_outputs() == a.vrf_outputs(),
{
    assert forall|i: u32| i < b.segment_index implies #[trigger] b.segment(i).len()
        == UNDER_CONSTRUCTION_SEGMENT_LENGTH by {
        assert(a.segment(i) == b.segment(i));
        assert(a.segment(i).len() == UNDER_CONSTRUCTION_SEGMENT_LENGTH);
    }
    assert(a.segment(a.segment_index) == b.segment(b.segment_index));
}

/// A change of randomness resets all segments: nothing of what was collected is left, and the
/// state is well formed.
pub proof fn law_randomness_resets(state: State, next_epoch_index: u64)
    requires
        state.well_formed(),
    ensures
        state.change_randomness(next_epoch_index).segment_index == 0,
        state.change_randomness(next_epoch_index).under_construction == Map::<
            u32,
            Seq<Seq<u8>>,
        >::empty(),
        state.change_randomness(next_epoch_index).vrf_outputs() == Seq::<Seq<u8>>::empty(),
        state.change_randomness(next_epoch_index).well_formed(),
{
    let after = state.change_randomness(next_epoch_index);
    assert forall|i: u32| !after.under_construction.contains_key(i) by {
        if state.under_construction.contains_key(i) {
            assert(i <= state.segment_index);
        }
    }
    assert(after.under_construction =~= Map::empty());
    reveal_with_fuel(outputs_in, 2);
    assert(after.vrf_outputs() =~= Seq::<Seq<u8>>::empty());
}

/// A new session resets all segments: nothing of what was collected is left, and the state is
/// well formed.
pub proof fn law_session_resets(state: State, duration: u64, keys: Seq<AuthorityId>)
    requires
        state.well_formed(),
    ensures
        state.new_session(duration, keys).segment_index == 0,
        state.new_session(duration, keys).under_construction == Map::<u32, Seq<Seq<u8>>>::empty(),
        state.new_session(duration, keys).vrf_outputs() == Seq::<Seq<u8>>::empty(),
        state.new_session(duration, keys).well_formed(),
{
    let next_epoch_index = (state.epoch_index + 2) as u64;
    law_randomness_resets(state, next_epoch_index);
    law_same_segments(
        state.change_randomness(next_epoch_index),
        state.new_session(duration, keys),
    );
}

/// Per-block initialization may be called twice: the second call in a block changes nothing,
/// whatever digest it is given.
pub proof fn law_initialize_once(state: State, logs: Seq<DigestItem>, again: Seq<DigestItem>)
    ensures
        state.initialize(logs).initialize(again) == state.initialize(logs),
{
}

/// After a block has been finalized, the next one is taken in.
pub proof fn law_next_block_taken_in(state: State, logs: Seq<DigestItem>, digest: PreDigest)
    requires
        first_pre_digest(logs) == Some(digest),
    ensures
        state.finalize().initialize(logs).current_slot == digest.slot_number(),
        state.finalize().initialize(logs).is_initialized(),
{
}

/// What a block changes: the slots, the VRF outputs and the mark that it has been taken in.
/// Everything else is as before, and so is the start of the epoch once it is known.
pub proof fn law_block_frame(state: State, logs: Seq<DigestItem>)
    ensures
        ({
            let after = state.initialize(logs);
            &&& after.epoch_index == state.epoch_index
            &&& after.authorities == state.authorities
            &&& after.secondary_slots == state.secondary_slots
            &&& after.pending_secondary_slots_change == state.pending_secondary_slots_change
            &&& after.randomness == state.randomness
            &&& after.next_randomness == state.next_randomness
            &&& state.epoch_start_slot != 0 ==> after.epoch_start_slot == state.epoch_start_slot
        }),
{
}

/// What a run of blocks leaves as it was.
pub proof fn law_blocks_frame(state: State, blocks: Seq<Seq<DigestItem>>)
    ensures
        ({
            let after = after_blocks(state, blocks);
            &&& after.epoch_index == state.epoch_index
            &&& after.authorities == state.authorities
            &&& after.secondary_slots == state.secondary_slots
            &&& after.pending_secondary_slots_change == state.pending_secondary_slots_change
            &&& after.randomness == state.randomness
            &&& after.next_randomness == state.next_randomness
            &&& state.epoch_start_slot != 0 ==> after.epoch_start_slot == state.epoch_start_slot
        }),
    decreases blocks.len(),
{
    if blocks.len() > 0 {
        law_blocks_frame(state, blocks.drop_last());
        law_block_frame(after_blocks(state, blocks.drop_last()), blocks.last());
    }
}

/// A block adds the VRF output that it brings to those collected, if the block has not been
/// taken in yet.
pub proof fn law_block_collects(state: State, logs: Seq<DigestItem>)
    requires
        !state.is_initialized(),
        state.has_room_for(logs),
    ensures
        state.initialize(logs).vrf_outputs() == state.vrf_outputs() + block_outputs(logs),
{
    match first_pre_digest(logs) {
        Some(digest) => {
            let marked = State { initialized: Some(true), ..state };
            let moved = marked.at_slot(digest.slot_number());
            match digest {
                PreDigest::Primary { vrf_output, .. } => {
                    law_deposit_appends(moved, vrf_output);
                    assert(state.vrf_outputs().push(vrf_output) =~= state.vrf_outputs()
                        + block_outputs(logs));
                },
                _ => {
                    assert(state.vrf_outputs() =~= state.vrf_outputs() + block_outputs(logs));
                },
            }
        },
        None => {
            assert(state.vrf_outputs() =~= state.vrf_outputs() + block_outputs(logs));
        },
    }
}

/// A run of blocks adds the VRF outputs that they bring to those collected, in the order of the
/// blocks.
pub proof fn law_blocks_collect(state: State, blocks: Seq<Seq<DigestItem>>)
    requires
        state.well_formed(),
        !state.is_initialized(),
        state.vrf_outputs().len() + blocks.len() <= output_limit(),
    ensures
        after_blocks(state, blocks).vrf_outputs() == state.vrf_outputs() + blocks_outputs(blocks),
        after_blocks(state, blocks).well_formed(),
        !after_blocks(state, blocks).is_initialized(),
        blocks_outputs(blocks).len() <= blocks.len(),
    decreases blocks.len(),
{
    if blocks.len() == 0 {
        assert(state.vrf_outputs() + blocks_outputs(blocks) =~= state.vrf_outputs());
    } else {
        let before = after_blocks(state, blocks.drop_last());
        law_blocks_collect(state, blocks.drop_last());
        law_room(before);
        law_block_collects(before, blocks.last());
        law_block_well_formed(before, blocks.last());
        let after = before.initialize(blocks.last());
        assert(after.finalize().vrf_outputs() == after.vrf_outputs());
        assert(after.vrf_outputs() =~= state.vrf_outputs() + blocks_outputs(blocks));
    }
}

/// The randomness under construction does its work: where a session begins in some block, a
/// run of blocks follows, and the next session begins in block `last`, it computes its next
/// randomness from the randomness before it and the concatenation of all VRF outputs that
/// these blocks and `last` brought.
pub proof fn law_epoch_randomness(
    state: State,
    duration: u64,
    keys: Seq<AuthorityId>,
    blocks: Seq<Seq<DigestItem>>,
    last: Seq<DigestItem>,
    next_keys: Seq<AuthorityId>,
)
    requires
        state.well_formed(),
        blocks.len() < output_limit(),
    ensures
        ({
            let begun = state.new_session(duration, keys).finalize();
            let ended = after_blocks(begun, blocks).initialize(last).new_session(
                duration,
                next_keys,
            );
            &&& ended.randomness == begun.next_randomness
            &&& ended.next_randomness == epoch_randomness(
                begun.next_randomness,
                (begun.epoch_index + 2) as u64,
                blocks_outputs(blocks.push(last)),
            )
        }),
{
    let session = state.new_session(duration, keys);
    let begun = session.finalize();
    let reached = after_blocks(begun, blocks);
    law_session_resets(state, duration, keys);
    law_same_segments(session, begun);
    law_blocks_collect(begun, blocks);
    law_room(reached);
    law_block_collects(reached, last);
    law_blocks_frame(begun, blocks);
    law_block_frame(reached, last);
    assert(blocks.push(last).drop_last() =~= blocks);
    assert(reached.initialize(last).vrf_outputs() =~= blocks_outputs(blocks.push(last)));
}

/// The same for the first epoch: where a run of blocks follows genesis, and the first session
/// after that of genesis begins in block `last`, it computes its next randomness from zeros and
/// the concatenation of all VRF outputs that these blocks and `last` brought.
pub proof fn law_first_epoch_randomness(
    authorities: Seq<(AuthorityId, BabeAuthorityWeight)>,
    duration: u64,
    blocks: Seq<Seq<DigestItem>>,
    last: Seq<DigestItem>,
    next_keys: Seq<AuthorityId>,
)
    requires
        blocks.len() < output_limit(),
    ensures
        ({
            let begun = State { authorities, ..State::genesis() };
            let ended = after_blocks(begun, blocks).initialize(last).new_session(
                duration,
                next_keys,
            );
            &&& ended.randomness == zero_randomness()
            &&& ended.next_randomness == epoch_randomness(
                zero_randomness(),
                2,
                blocks_outputs(blocks.push(last)),
            )
        }),
{
    let begun = State { authorities, ..State::genesis() };
    let reached = after_blocks(begun, blocks);
    law_genesis_well_formed();
    law_same_segments(State::genesis(), begun);
    law_blocks_collect(begun, blocks);
    law_room(reached);
    law_block_collects(reached, last);
    law_blocks_frame(begun, blocks);
    law_block_frame(reached, last);
    assert(blocks.push(last).drop_last() =~= blocks);
    assert(reached.initialize(last).vrf_outputs() =~= blocks_outputs(blocks.push(last)));
}

/// What a new session announces of the next epoch is what the next session brings, whatever
/// blocks come in between and whatever change of secondary slots is set meanwhile, where that
/// session begins in block `last`: its index, its randomness, whether it has secondary slots,
/// how long it lasts, and, if the queued validators are those that come, its authorities. So is
/// its start slot, if block `last` lies in the announced epoch and the start of the epoch before
/// it is known.
pub proof fn law_announced_epoch_comes(
    state: State,
    duration: u64,
    keys: Seq<AuthorityId>,
    queued: Seq<AuthorityId>,
    blocks: Seq<Seq<DigestItem>>,
    pending: Option<bool>,
    last: Seq<DigestItem>,
)
    requires
        state.epoch_index + 3 <= u64::MAX,
    ensures
        ({
            let begun = state.new_session(duration, keys).finalize();
            let announced = begun.next_epoch(duration, queued);
            let reached = State {
                pending_secondary_slots_change: pending,
                ..after_blocks(begun, blocks)
            }.initialize(last);
            let next = reached.new_session(duration, queued);
            let start = begun.epoch_start_slot + duration;
            &&& next.epoch_index == announced.epoch_index
            &&& next.authorities == announced.authorities
            &&& next.randomness == announced.randomness
            &&& next.secondary_slots.0 == announced.secondary_slots
            &&& announced.duration == duration
            &&& begun.epoch_start_slot != 0 && start <= reached.current_slot < start + duration
                ==> next.epoch_start_slot == announced.start_slot
        }),
{
    let begun = state.new_session(duration, keys).finalize();
    let before = State { pending_secondary_slots_change: pending, ..after_blocks(begun, blocks) };
    let reached = before.initialize(last);
    law_blocks_frame(begun, blocks);
    law_block_frame(before, last);
    let start = begun.epoch_start_slot + duration;
    if begun.epoch_start_slot != 0 && start <= reached.current_slot < start + duration {
        let gap = reached.current_slot - begun.epoch_start_slot;
        assert(gap / duration as int == 1) by (nonlinear_arith)
            requires
                duration <= gap < 2 * duration,
        ;
    }
}

/// A new session moves the start of the epoch by whole epochs, so that the current slot, if it
/// is not before the old start, lies in the new epoch. Nothing is moved while the old epoch
/// lasts.
pub proof fn law_epoch_start(state: State, duration: u64, keys: Seq<AuthorityId>)
    requires
        duration > 0,
    ensures
        ({
            let after = state.new_session(duration, keys);
            &&& !after.epoch_is_over(duration)
            &&& (after.epoch_start_slot - state.epoch_start_slot) % duration as int == 0
            &&& after.epoch_start_slot >= state.epoch_start_slot
            &&& after.epoch_start_slot > state.epoch_start_slot <==> state.epoch_is_over(duration)
            &&& state.epoch_start_slot <= state.current_slot ==> after.epoch_start_slot
                <= state.current_slot < after.epoch_start_slot + duration
        }),
{
    if state.current_slot >= state.epoch_start_slot {
        let gap = state.current_slot - state.epoch_start_slot;
        let d = duration as int;
        vstd::arithmetic::div_mod::lemma_fundamental_div_mod(gap, d);
        vstd::arithmetic::mul::lemma_mul_is_commutative(d, gap / d);
        vstd::arithmetic::div_mod::lemma_mod_multiples_basic(gap / d, d);
        vstd::arithmetic::div_mod::lemma_mod_bound(gap, d);
        if gap < d {
            vstd::arithmetic::div_mod::lemma_basic_div(gap, d);
            assert(0 * d == 0) by (nonlinear_arith);
        } else {
            assert(gap / d >= 1) by (nonlinear_arith)
                requires
                    gap >= d,
                    d > 0,
            ;
            assert(gap / d * d >= d) by (nonlinear_arith)
                requires
                    gap / d >= 1,
                    d > 0,
            ;
        }
    } else {
        vstd::arithmetic::div_mod::lemma_small_mod(0, duration as nat);
    }
}

/// A pending change of secondary slots is enacted two epochs after the one that it was set in:
/// the next session, which begins in block `last`, still has what was scheduled before, and the
/// one after that, which begins in block `next_last`, has the change, whatever blocks come and
/// whatever further change is set meanwhile.
pub proof fn law_pending_change_enacted(
    state: State,
    change: bool,
    duration: u64,
    keys: Seq<AuthorityId>,
    next_keys: Seq<AuthorityId>,
    blocks: Seq<Seq<DigestItem>>,
    last: Seq<DigestItem>,
    next_blocks: Seq<Seq<DigestItem>>,
    next_last: Seq<DigestItem>,
    further: Option<bool>,
)
    ensures
        ({
            let set = State { pending_secondary_slots_change: Some(change), ..state };
            let first = after_blocks(set, blocks).initialize(last).new_session(duration, keys);
            let meanwhile = State {
                pending_secondary_slots_change: further,
                ..after_blocks(first.finalize(), next_blocks)
            };
            let second = meanwhile.initialize(next_last).new_session(duration, next_keys);
            &&& first.secondary_slots == (state.secondary_slots.1, change)
            &&& first.pending_secondary_slots_change is None
            &&& second.secondary_slots.0 == change
        }),
{
    let set = State { pending_secondary_slots_change: Some(change), ..state };
    law_blocks_frame(set, blocks);
    law_block_frame(after_blocks(set, blocks), last);
    let first = after_blocks(set, blocks).initialize(last).new_session(duration, keys);
    law_blocks_frame(first.finalize(), next_blocks);
    let meanwhile = State {
        pending_secondary_slots_change: further,
        ..after_blocks(first.finalize(), next_blocks)
    };
    law_block_frame(meanwhile, next_last);
}

/// With no change pending, the epoch after the next has what the next has.
pub proof fn law_no_pending_change(state: State, duration: u64, keys: Seq<AuthorityId>)
    requires
        state.pending_secondary_slots_change is None,
    ensures
        state.new_session(duration, keys).secondary_slots == (
            state.secondary_slots.1,
            state.secondary_slots.1,
        ),
{
}

/// After a new session, the authorities are the validators of the session, each with weight
/// one.
pub proof fn law_session_authorities(state: State, duration: u64, keys: Seq<AuthorityId>)
    ensures
        ({
            let after = state.new_session(duration, keys);
            &&& after.authorities.len() == keys.len()
            &&& forall|i: int|
                0 <= i < keys.len() ==> #[trigger] after.authorities[i] == (keys[i], 1u64)
            &&& forall|key: AuthorityId| #[trigger]
                after.has_authority(key) <==> exists|i: int|
                    0 <= i < keys.len() && (#[trigger] keys[i])@ == key@
        }),
{
    let after = state.new_session(duration, keys);
    assert forall|key: AuthorityId| #[trigger] after.has_authority(key) <==> exists|i: int|
        0 <= i < keys.len() && (#[trigger] keys[i])@ == key@ by {
        if exists|i: int| 0 <= i < keys.len() && (#[trigger] keys[i])@ == key@ {
            let i = choose|i: int| 0 <= i < keys.len() && (#[trigger] keys[i])@ == key@;
            assert(after.authorities[i].0@ == key@);
        }
        if after.has_authority(key) {
            let i = choose|i: int|
                0 <= i < after.authorities.len() && (#[trigger] after.authorities[i]).0@ == key@;
            assert(keys[i]@ == key@);
        }
    }
}

/// What a block author encodes as a pre-digest is what the module reads.
pub proof fn law_pre_digest_round_trip(digest: PreDigest)
    requires
        digest matches PreDigest::Primary { vrf_output, vrf_proof, .. } ==> vrf_output.len() == 32
            && vrf_proof.len() == 64,
    ensures
        decoded_pre_digest(digest.encoded()) == Some(digest),
{
    lemma_le_limits();
    let index = digest.authority_index();
    let slot = digest.slot_number();
    lemma_le_round_trip(index as nat, 4);
    lemma_le_round_trip(slot as nat, 8);
    let bytes = digest.encoded();
    match digest {
        PreDigest::Primary { vrf_output, vrf_proof, .. } => {
            assert(bytes.subrange(1, 5) =~= le_bytes(index as nat, 4));
            assert(bytes.subrange(5, 13) =~= le_bytes(slot as nat, 8));
            assert(bytes.subrange(13, 45) =~= vrf_output);
            assert(bytes.subrange(45, 109) =~= vrf_proof);
        },
        PreDigest::Secondary { .. } => {
            assert(bytes.subrange(1, 5) =~= le_bytes(index as nat, 4));
            assert(bytes.subrange(5, 13) =~= le_bytes(slot as nat, 8));
        },
    }
}

/// The pre-runtime items of a digest, in order.
pub open spec fn pre_runtime_items(logs: Seq<DigestItem>) -> Seq<(ConsensusEngineId, Vec<u8>)>
    decreases logs.len(),
{
    if logs.len() == 0 {
        Seq::empty()
    } else {
        match logs[0] {
            DigestItem::PreRuntime(id, data) => seq![(id, data)] + pre_runtime_items(logs.skip(1)),
            _ => pre_runtime_items(logs.skip(1)),
        }
    }
}

/// Where the author of a block can be told, it is the author that the pre-digest taken in for
/// the block names.
pub proof fn law_author_is_of_pre_digest(logs: Seq<DigestItem>)
    requires
        author_index(pre_runtime_items(logs)) is Some,
    ensures
        first_pre_digest(logs) matches Some(digest) && Some(digest.authority_index())
            == author_index(pre_runtime_items(logs)),
    decreases logs.len(),
{
    if logs.len() > 0 {
        let rest = pre_runtime_items(logs.skip(1));
        match logs[0] {
            DigestItem::PreRuntime(id, data) => {
                let items = pre_runtime_items(logs);
                assert(items[0] == (id, data));
                assert(items.skip(1) =~= rest);
                if id@ != BABE_ENGINE_ID@ {
                    law_author_is_of_pre_digest(logs.skip(1));
                } else {
                    assert(item_pre_digest(logs[0]) == decoded_pre_digest(data@));
                }
            },
            _ => {
                law_author_is_of_pre_digest(logs.skip(1));
            },
        }
    }
}

/// A number that is stored under an identifier is read back, and what is stored under others
/// is as before.
pub proof fn law_inherent_read_back(
    entries: Map<Seq<u8>, Seq<u8>>,
    identifier: Seq<u8>,
    value: u64,
    other: Seq<u8>,
)
    ensures
        stored_number(entries.insert(identifier, le_bytes(value as nat, 8)), identifier)
            == Stored::Value(value),
        other != identifier ==> stored_number(
            entries.insert(identifier, le_bytes(value as nat, 8)),
            other,
        ) == stored_number(entries, other),
{
    lemma_le_limits();
    lemma_le_round_trip(value as nat, 8);
    assert(le_bytes(value as nat, 8).subrange(0, 8) =~= le_bytes(value as nat, 8));
}

/// Where the node and the runtime agree on how long a slot takes, the slot that the node
/// provides for a timestamp is the one that the runtime accepts for it, whatever type it tells
/// moments in: after the slot has been put in, it is what is read, it is the slot that the
/// runtime finds the timestamp in, and the timestamp is still there.
pub proof fn law_provided_slot_accepted(
    entries: Map<Seq<u8>, Seq<u8>>,
    timestamp: u64,
    slot_duration: u64,
    period: nat,
    limit: nat,
)
    requires
        slot_duration > 0,
        slot_duration == slot_length(period, limit),
        stored_number(entries, TIMESTAMP_IDENTIFIER@) == Stored::Value(timestamp),
    ensures
        ({
            let slot = timestamp / slot_duration;
            let provided = entries.insert(INHERENT_IDENTIFIER@, le_bytes(slot as nat, 8));
            &&& stored_number(provided, INHERENT_IDENTIFIER@) == Stored::Value(slot)
            &&& slot_at(timestamp as nat, slot_length(period, limit)) == slot
            &&& stored_number(provided, TIMESTAMP_IDENTIFIER@) == Stored::Value(timestamp)
        }),
{
    let slot = timestamp / slot_duration;
    assert(INHERENT_IDENTIFIER@[0] != TIMESTAMP_IDENTIFIER@[0]);
    law_inherent_read_back(entries, INHERENT_IDENTIFIER@, slot, TIMESTAMP_IDENTIFIER@);
}

/// An error that is encoded as a text can be read back from the encoding, whatever follows it.
pub proof fn law_error_read_back(text: Seq<char>, rest: Seq<u8>)
    requires
        encode_utf8(text).len() <= u32::MAX,
    ensures
        decoded_string(prefixed_bytes(encode_utf8(text)) + rest) == Some(text),
{
    let bytes = encode_utf8(text);
    let front = compact_bytes(bytes.len());
    let input = prefixed_bytes(bytes) + rest;
    lemma_compact_read_back(bytes.len(), bytes + rest);
    assert(input =~= front + (bytes + rest));
    assert(input.subrange(front.len() as int, (front.len() + bytes.len()) as int) =~= bytes);
    encode_utf8_valid_utf8(text);
    encode_utf8_decode_utf8(text);
}

proof fn lemma_compact_read_back(n: nat, rest: Seq<u8>)
    requires
        n <= u32::MAX,
    ensures
        compact_value(compact_bytes(n) + rest) == Some(n),
        compact_width((compact_bytes(n) + rest)[0]) == compact_bytes(n).len(),
{
    let front = compact_bytes(n);
    let input = front + rest;
    lemma_le_limits();
    reveal_with_fuel(le_limit, 5);
    let (value, width): (nat, nat) = if n < 0x40 {
        (4 * n, 1)
    } else if n < 0x4000 {
        (4 * n + 1, 2)
    } else if n < 0x4000_0000 {
        (4 * n + 2, 4)
    } else {
        (n, 4)
    };
    lemma_le_round_trip(value, width);
    assert(input.subrange(0, front.len() as int) =~= front);
    if n >= 0x4000_0000 {
        assert(front.skip(1) =~= le_bytes(n, 4));
    } else {
        assert(front[0] == (value % 256) as u8);
    }
}

/// It does not matter which of the two headers comes first in the evidence.
pub proof fn law_equivocation_symmetric(a: EquivocationProof, b: EquivocationProof)
    requires
        a.identity == b.identity,
        a.slot == b.slot,
        a.first_header == b.second_header,
        a.second_header == b.first_header,
        a.first_signature == b.second_signature,
        a.second_signature == b.first_signature,
    ensures
        a.valid() == b.valid(),
{
}

/// Nobody can be punished on the evidence of one block alone.
pub proof fn law_one_block_is_no_equivocation(equivocation: EquivocationProof)
    requires
        equivocation.first_header.encoded@ == equivocation.second_header.encoded@,
    ensures
        !equivocation.valid(),
{
}

proof fn lemma_mul_div_monotone(a: nat, b: nat, m: nat, d: nat)
    requires
        a <= b,
        d > 0,
    ensures
        a * m / d <= b * m / d,
{
    assert(a * m <= b * m) by (nonlinear_arith)
        requires
            a <= b,
    ;
    vstd::arithmetic::div_mod::lemma_div_is_ordered((a * m) as int, (b * m) as int, d as int);
}

proof fn lemma_rational_monotone(p1: nat, p2: nat, q: nat)
    requires
        p1 <= p2,
    ensures
        rational_parts(p1, q) <= rational_parts(p2, q),
{
    let q1: nat = if q == 0 {
        1
    } else {
        q
    };
    let a: nat = if p1 > q1 {
        q1
    } else {
        p1
    };
    let b: nat = if p2 > q1 {
        q1
    } else {
        p2
    };
    let factor = (q1 + BILLION - 1) as nat / BILLION as nat;
    assert(1 <= factor <= q1);
    vstd::arithmetic::div_mod::lemma_div_is_ordered(a as int, b as int, factor as int);
    vstd::arithmetic::div_mod::lemma_div_is_ordered(factor as int, q1 as int, factor as int);
    vstd::arithmetic::div_mod::lemma_div_by_self(factor as int);
    lemma_mul_div_monotone(a / factor, b / factor, BILLION as nat, q1 / factor);
}

/// More offenders are never slashed less each.
pub proof fn law_slash_monotone(fewer: nat, more: nat, validators: nat)
    requires
        fewer <= more,
    ensures
        slash_parts(fewer, validators) <= slash_parts(more, validators),
{
    lemma_rational_monotone(3 * fewer, 3 * more, validators);
    let a = rational_parts(3 * fewer, validators);
    let b = rational_parts(3 * more, validators);
    assert(a * a <= b * b) by (nonlinear_arith)
        requires
            a <= b,
    ;
    vstd::arithmetic::div_mod::lemma_div_is_ordered((a * a) as int, (b * b) as int, BILLION as int);
}

/// A third of the validators, or more, lose everything.
pub proof fn law_slash_everything(offenders: nat, validators: nat)
    requires
        offenders > 0,
        3 * offenders >= validators,
    ensures
        slash_parts(offenders, validators) == BILLION,
{
    let q: nat = if validators == 0 {
        1
    } else {
        validators
    };
    let factor = (q + BILLION - 1) as nat / BILLION as nat;
    assert(1 <= factor <= q);
    vstd::arithmetic::div_mod::lemma_div_is_ordered(factor as int, q as int, factor as int);
    vstd::arithmetic::div_mod::lemma_div_by_self(factor as int);
    let b = q / factor;
    vstd::arithmetic::div_mod::lemma_div_multiples_vanish(BILLION as int, b as int);
    assert(b * BILLION as nat / b == BILLION);
    assert(rational_parts(3 * offenders, validators) == BILLION);
    assert(square_parts(BILLION as nat) == BILLION);
}

/// How far the parts per billion that `rational_parts` makes of a fraction up to one are off: by
/// less than one above and less than two below, and up to a billion by none above and less than
/// one below.
proof fn lemma_rational_bounds(p: int, q: int, x: int)
    requires
        0 <= p <= q <= u32::MAX,
        q > 0,
        x == rational_parts(p as nat, q as nat),
    ensures
        0 <= x <= BILLION,
        (x - 1) * q < p * BILLION < (x + 2) * q,
        q <= BILLION ==> x * q <= p * BILLION < (x + 1) * q,
{
    let m = BILLION as int;
    let f = (q + m - 1) / m;
    let a = p / f;
    let b = q / f;
    assert(1 <= f <= q && (f - 1) * m < q) by (nonlinear_arith)
        requires
            m == 1_000_000_000,
            0 < q,
            f == (q + m - 1) / m,
    ;
    vstd::arithmetic::div_mod::lemma_fundamental_div_mod(p, f);
    vstd::arithmetic::div_mod::lemma_mod_bound(p, f);
    vstd::arithmetic::div_mod::lemma_fundamental_div_mod(q, f);
    vstd::arithmetic::div_mod::lemma_mod_bound(q, f);
    vstd::arithmetic::div_mod::lemma_div_is_ordered(f, q, f);
    vstd::arithmetic::div_mod::lemma_div_by_self(f);
    vstd::arithmetic::div_mod::lemma_fundamental_div_mod(a * m, b);
    vstd::arithmetic::div_mod::lemma_mod_bound(a * m, b);
    crate::offence::lemma_rational_parts_at_most_one(p as nat, q as nat);
    assert(x == a * m / b);
    let am = a * m;
    let pr = p % f;
    let qr = q % f;
    let ar = am % b;
    // x q == f (a m) - f ar + x qr, where f (a m) == (p - pr) m
    assert(x * q == f * am - f * ar + x * qr) by (nonlinear_arith)
        requires
            q == f * b + qr,
            am == b * x + ar,
    ;
    assert(f * am == p * m - pr * m) by (nonlinear_arith)
        requires
            am == a * m,
            p == f * a + pr,
    ;
    assert(0 <= f * ar <= f * b - f) by (nonlinear_arith)
        requires
            0 <= ar < b,
            f >= 1,
    ;
    assert(0 <= x * qr <= (f - 1) * m) by (nonlinear_arith)
        requires
            0 <= x <= m,
            0 <= qr < f,
    ;
    assert(0 <= pr * m <= (f - 1) * m) by (nonlinear_arith)
        requires
            0 <= pr < f,
            m > 0,
    ;
    assert((x - 1) * q == x * q - q) by (nonlinear_arith);
    assert((x + 2) * q == x * q + 2 * q) by (nonlinear_arith);
    assert((x + 1) * q == x * q + q) by (nonlinear_arith);
    if q <= m {
        assert(f == 1);
    }
}

/// Where `u / m` is at most `p / q`, and `v / m` at most `(u / m)^2`, then `v / m` is at most
/// `(p / q)^2`.
proof fn lemma_square_below(u: int, v: int, p: int, q: int, m: int)
    requires
        0 <= u,
        q > 0,
        m > 0,
        u * q <= p * m,
        m * v <= u * u,
    ensures
        v * q * q <= p * p * m,
        u * q < p * m ==> v * q * q < p * p * m,
{
    let uq = u * q;
    let pm = p * m;
    assert(0 <= uq) by (nonlinear_arith)
        requires
            0 <= u,
            q > 0,
            uq == u * q,
    ;
    assert(uq * uq <= pm * pm && (uq < pm ==> uq * uq < pm * pm)) by (nonlinear_arith)
        requires
            0 <= uq <= pm,
    ;
    lemma_square_terms(u, v, p, q, m);
    assert(m * v * (q * q) <= u * u * (q * q)) by (nonlinear_arith)
        requires
            m * v <= u * u,
    ;
    let a = v * q * q;
    let b = p * p * m;
    assert(a <= b && (m * a < m * b ==> a < b)) by (nonlinear_arith)
        requires
            m * a <= m * b,
            m > 0,
    ;
}

/// Where `u / m` is above `p / q`, and `v / m` at least `(u / m)^2`, then `v / m` is above
/// `(p / q)^2`.
proof fn lemma_square_above(u: int, v: int, p: int, q: int, m: int)
    requires
        0 <= p,
        q > 0,
        m > 0,
        p * m < u * q,
        u * u <= m * v,
    ensures
        p * p * m < v * q * q,
{
    let uq = u * q;
    let pm = p * m;
    assert(0 <= pm) by (nonlinear_arith)
        requires
            0 <= p,
            m > 0,
            pm == p * m,
    ;
    assert(pm * pm < uq * uq) by (nonlinear_arith)
        requires
            0 <= pm < uq,
    ;
    lemma_square_terms(u, v, p, q, m);
    assert(u * u * (q * q) <= m * v * (q * q)) by (nonlinear_arith)
        requires
            u * u <= m * v,
    ;
    let a = v * q * q;
    let b = p * p * m;
    assert(b < a) by (nonlinear_arith)
        requires
            m * b < m * a,
            m > 0,
    ;
}

proof fn lemma_square_terms(u: int, v: int, p: int, q: int, m: int)
    ensures
        (u * q) * (u * q) == u * u * (q * q),
        (p * m) * (p * m) == m * (p * p * m),
        m * v * (q * q) == m * (v * q * q),
{
    assert((u * q) * (u * q) == u * u * (q * q)) by (nonlinear_arith);
    assert((p * m) * (p * m) == m * (p * p * m)) by (nonlinear_arith);
    assert(m * v * (q * q) == m * (v * q * q)) by (nonlinear_arith);
}

/// The slash is `min((3k / n)^2, 1)` for `k` offenders among `n` validators, as far as parts in
/// a billion tell it: less than two parts above it and less than six below, and among up to a
/// billion validators it is rounded down, by less than three parts. Here `p / n` is
/// `min(3k / n, 1)`.
pub proof fn law_slash_formula(k: nat, n: nat)
    requires
        0 < n <= u32::MAX,
    ensures
        ({
            let slash = slash_parts(k, n) as int;
            let p = capped(3 * k, n);
            &&& (slash - 2) * n * n < p * p * BILLION < (slash + 6) * n * n
            &&& n <= BILLION ==> slash * n * n <= p * p * BILLION < (slash + 3) * n * n
        }),
{
    let m = BILLION as int;
    let p = capped(3 * k, n) as int;
    let q = n as int;
    let x = rational_parts(3 * k, n) as int;
    let y = x * x / m;
    assert(x == rational_parts(p as nat, n));
    assert(slash_parts(k, n) == y);
    lemma_rational_bounds(p, q, x);
    vstd::arithmetic::div_mod::lemma_fundamental_div_mod(x * x, m);
    vstd::arithmetic::div_mod::lemma_mod_bound(x * x, m);
    assert(m * y <= x * x < m * y + m);
    assert((x - 1) * (x - 1) == x * x - 2 * x + 1) by (nonlinear_arith);
    assert((x + 1) * (x + 1) == x * x + 2 * x + 1) by (nonlinear_arith);
    assert((x + 2) * (x + 2) == x * x + 4 * x + 4) by (nonlinear_arith);
    if x == 0 {
        assert((y - 2) * q * q < p * p * m) by (nonlinear_arith)
            requires
                y == 0,
                q > 0,
                m > 0,
        ;
    } else {
        lemma_square_below(x - 1, y - 2, p, q, m);
    }
    lemma_square_above(x + 2, y + 6, p, q, m);
    if q <= m {
        lemma_square_below(x, y, p, q, m);
        lemma_square_above(x + 1, y + 3, p, q, m);
    }
}

} // verus!
