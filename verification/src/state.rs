//! The mathematical state of the module, and the steps that it takes.

use vstd::prelude::*;

use crate::crypto::AuthorityId;
use crate::digests::{first_pre_digest, DigestItem, PreDigest};
use crate::epoch::{BabeAuthorityWeight, EpochData};
use crate::randomness::epoch_randomness;

verus! {

/// How many VRF outputs one segment of the randomness under construction holds.
pub const UNDER_CONSTRUCTION_SEGMENT_LENGTH: usize = 256;

/// The mathematical content of a `Module`.
#[verifier::ext_equal]
pub struct State {
    pub epoch_index: u64,
    pub authorities: Seq<(AuthorityId, BabeAuthorityWeight)>,
    pub epoch_start_slot: u64,
    pub current_slot: u64,
    pub secondary_slots: (bool, bool),
    pub pending_secondary_slots_change: Option<bool>,
    pub randomness: Seq<u8>,
    pub next_randomness: Seq<u8>,
    pub segment_index: u32,
    pub under_construction: Map<u32, Seq<Seq<u8>>>,
    pub initialized: Option<bool>,
}

/// Thirty-two zeros: the randomness before the first epoch change.
pub open spec fn zero_randomness() -> Seq<u8> {
    Seq::new(32, |i: int| 0u8)
}

/// Each authority with the weight that a session gives it.
pub open spec fn with_weights(keys: Seq<AuthorityId>) -> Seq<(AuthorityId, BabeAuthorityWeight)> {
    keys.map_values(|key: AuthorityId| (key, 1u64))
}

/// The start of the epoch that slot `now` lies in, where an epoch takes `duration` slots and
/// one of them starts at slot `previous`: whole epochs are counted from there. A slot before
/// `previous` moves nothing.
pub open spec fn epoch_start(previous: int, now: int, duration: int) -> int {
    if now < previous {
        previous
    } else {
        previous + (now - previous) / duration * duration
    }
}

/// The VRF outputs in segment `index`; one that was never written holds none.
pub open spec fn segment_in(segments: Map<u32, Seq<Seq<u8>>>, index: u32) -> Seq<Seq<u8>> {
    if segments.contains_key(index) {
        segments[index]
    } else {
        Seq::empty()
    }
}

/// The VRF outputs in the first `count` segments, in order.
pub open spec fn outputs_in(segments: Map<u32, Seq<Seq<u8>>>, count: nat) -> Seq<Seq<u8>>
    decreases count,
{
    if count == 0 {
        Seq::empty()
    } else {
        outputs_in(segments, (count - 1) as nat) + segment_in(segments, (count - 1) as u32)
    }
}

impl State {
    /// The state before the first block, with no authorities.
    pub open spec fn genesis() -> State {
        State {
            epoch_index: 0,
            authorities: Seq::empty(),
            epoch_start_slot: 0,
            current_slot: 0,
            secondary_slots: (true, true),
            pending_secondary_slots_change: None,
            randomness: zero_randomness(),
            next_randomness: zero_randomness(),
            segment_index: 0,
            under_construction: Map::empty(),
            initialized: None,
        }
    }

    /// The VRF outputs in segment `index`.
    pub open spec fn segment(self, index: u32) -> Seq<Seq<u8>> {
        segment_in(self.under_construction, index)
    }

    /// All VRF outputs collected so far, in order: the segments up to and with the one that is
    /// being filled.
    pub open spec fn vrf_outputs(self) -> Seq<Seq<u8>> {
        outputs_in(self.under_construction, (self.segment_index + 1) as nat)
    }

    /// Whether the randomness under construction is as the module keeps it: all segments
    /// before the current one are full, the current one is not overfull, and none come after.
    pub open spec fn well_formed(self) -> bool {
        &&& forall|i: u32|
            i < self.segment_index ==> #[trigger] self.segment(i).len()
                == UNDER_CONSTRUCTION_SEGMENT_LENGTH
        &&& self.segment(self.segment_index).len() <= UNDER_CONSTRUCTION_SEGMENT_LENGTH
        &&& forall|i: u32| #[trigger]
            self.under_construction.contains_key(i) ==> i <= self.segment_index
    }

    /// Whether there is room for one more VRF output: segments are numbered by a `u32`.
    pub open spec fn has_room(self) -> bool {
        self.segment(self.segment_index).len() < UNDER_CONSTRUCTION_SEGMENT_LENGTH
            || self.segment_index < u32::MAX
    }

    /// The state after one more VRF output: it goes to the end of the current segment, or
    /// starts the next one where the current one is full.
    pub open spec fn with_vrf_output(self, output: Seq<u8>) -> State {
        let segment = self.segment(self.segment_index);
        if segment.len() < UNDER_CONSTRUCTION_SEGMENT_LENGTH {
            State {
                under_construction: self.under_construction.insert(
                    self.segment_index,
                    segment.push(output),
                ),
                ..self
            }
        } else {
            let next = (self.segment_index + 1) as u32;
            State {
                segment_index: next,
                under_construction: self.under_construction.insert(next, seq![output]),
                ..self
            }
        }
    }

    /// The state at slot `slot`. The first slot ever is where the first epoch starts.
    pub open spec fn at_slot(self, slot: u64) -> State {
        State {
            epoch_start_slot: if self.epoch_start_slot == 0 {
                slot
            } else {
                self.epoch_start_slot
            },
            current_slot: slot,
            ..self
        }
    }

    /// The state after the pre-digest of a block has been taken in.
    pub open spec fn with_pre_digest(self, digest: PreDigest) -> State {
        let moved = self.at_slot(digest.slot_number());
        match digest {
            PreDigest::Primary { vrf_output, .. } => moved.with_vrf_output(vrf_output),
            PreDigest::Secondary { .. } => moved,
        }
    }

    /// Whether the block has been initialized.
    pub open spec fn is_initialized(self) -> bool {
        self.initialized == Some(true)
    }

    /// The state after per-block initialization on a block with the given digest: the first
    /// call in a block takes in the first BABE pre-digest, later ones change nothing.
    pub open spec fn initialize(self, logs: Seq<DigestItem>) -> State {
        if self.is_initialized() {
            self
        } else {
            let marked = State { initialized: Some(true), ..self };
            match first_pre_digest(logs) {
                Some(digest) => marked.with_pre_digest(digest),
                None => marked,
            }
        }
    }

    /// Whether a block with the given digest finds room for the VRF output that it brings.
    pub open spec fn has_room_for(self, logs: Seq<DigestItem>) -> bool {
        self.is_initialized() || (first_pre_digest(logs) matches Some(digest)
            && digest is Primary ==> self.has_room())
    }

    /// The state after the block has been finalized.
    pub open spec fn finalize(self) -> State {
        State { initialized: None, ..self }
    }

    /// The state after the next randomness has been computed, for the epoch
    /// `next_epoch_index`, out of all VRF outputs collected so far. They are used up by it.
    pub open spec fn change_randomness(self, next_epoch_index: u64) -> State {
        State {
            next_randomness: epoch_randomness(
                self.next_randomness,
                next_epoch_index,
                self.vrf_outputs(),
            ),
            segment_index: 0,
            under_construction: Map::new(
                |i: u32| self.under_construction.contains_key(i) && i > self.segment_index,
                |i: u32| self.under_construction[i],
            ),
            ..self
        }
    }

    /// Whether secondary slots are enabled in the epoch that a new session starts, and in the
    /// one after it.
    pub open spec fn next_secondary_slots(self) -> (bool, bool) {
        (
            self.secondary_slots.1,
            match self.pending_secondary_slots_change {
                Some(change) => change,
                None => self.secondary_slots.1,
            },
        )
    }

    /// The state after a new session has started with the authorities `keys`, where an epoch
    /// takes `duration` slots.
    pub open spec fn new_session(self, duration: u64, keys: Seq<AuthorityId>) -> State {
        State {
            epoch_index: (self.epoch_index + 1) as u64,
            authorities: with_weights(keys),
            epoch_start_slot: epoch_start(
                self.epoch_start_slot as int,
                self.current_slot as int,
                duration as int,
            ) as u64,
            secondary_slots: self.next_secondary_slots(),
            pending_secondary_slots_change: None,
            randomness: self.next_randomness,
            ..self.change_randomness((self.epoch_index + 2) as u64)
        }
    }

    /// What the state right after a new session announces of the epoch that comes next, where
    /// `keys` are the authorities queued for it.
    pub open spec fn next_epoch(self, duration: u64, keys: Seq<AuthorityId>) -> EpochData {
        let start = self.epoch_start_slot + duration;
        EpochData {
            epoch_index: (self.epoch_index + 1) as u64,
            start_slot: if start > u64::MAX {
                u64::MAX
            } else {
                start as u64
            },
            duration,
            authorities: with_weights(keys),
            randomness: self.next_randomness,
            secondary_slots: self.secondary_slots.1,
        }
    }

    /// Whether the current slot lies at least an epoch past the start of the current epoch.
    pub open spec fn epoch_is_over(self, duration: u64) -> bool {
        if self.current_slot < self.epoch_start_slot {
            duration == 0
        } else {
            self.current_slot - self.epoch_start_slot >= duration
        }
    }

    /// Whether `key` is one of the current authorities.
    pub open spec fn has_authority(self, key: AuthorityId) -> bool {
        exists|i: int|
            0 <= i < self.authorities.len() && (#[trigger] self.authorities[i]).0@ == key@
    }
}

} // verus!
