//! The state of the module, and how blocks and sessions change it.

use std::collections::BTreeMap;
use vstd::prelude::*;
use vstd::arithmetic::div_mod::{lemma_basic_div, lemma_div_minus_one};
use sp_inherents::InherentData;

use crate::bytes::bytes_eq;
use crate::config::{capped, Get, Moment, Trait};
use crate::crypto::AuthorityId;
use crate::digests::{
    decoded_pre_digest, find_pre_digest, ConsensusEngineId, DigestItem, RawBabePreDigest,
    BABE_ENGINE_ID,
};
use crate::dispatch::{ensure_root, DispatchError, RawOrigin};
use crate::epoch::{
    next_epoch_bytes, on_disabled_bytes, BabeAuthorityWeight, ConsensusLog, Epoch,
};
use crate::inherents::{
    inherent_entries, stored_number, undecodable_text, BabeInherentData, InherentError, Stored,
    INHERENT_IDENTIFIER,
};
use crate::randomness::{compute_randomness, outputs_view};
use crate::state::{
    epoch_start, outputs_in, with_weights, zero_randomness, State, UNDER_CONSTRUCTION_SEGMENT_LENGTH,
};

verus! {

/// The module: everything that it keeps from block to block.
#[derive(Debug, PartialEq, Eq)]
pub struct Module {
    /// Current epoch index.
    pub epoch_index: u64,
    /// Current epoch authorities.
    pub authorities: Vec<(AuthorityId, BabeAuthorityWeight)>,
    /// Slot at which the current epoch started. It is possible that no block was authored at
    /// the given slot and the epoch change was signalled later than this.
    pub epoch_start_slot: u64,
    /// Current slot number.
    pub current_slot: u64,
    /// Whether secondary slots are enabled in case the VRF-based slot is empty for the
    /// current epoch and the next epoch, respectively.
    pub secondary_slots: (bool, bool),
    /// Pending change to enable or disable secondary slots, which will be enacted two epochs
    /// after the current one.
    pub pending_secondary_slots_change: Option<bool>,
    /// The epoch randomness for the *current* epoch.
    ///
    /// It MUST NOT be used for gambling, as it can be influenced by a malicious validator in
    /// the short term, and like everything else on the chain it is public.
    pub randomness: [u8; 32],
    /// Next epoch randomness.
    pub next_randomness: [u8; 32],
    /// The segment of `under_construction` that is being filled.
    pub segment_index: u32,
    /// Randomness under construction: the VRF outputs of the current epoch, in segments of up
    /// to `UNDER_CONSTRUCTION_SEGMENT_LENGTH`. Once a segment reaches this length, the next
    /// one begins. All segments are reset at the beginning of every epoch.
    pub under_construction: BTreeMap<u32, Vec<[u8; 32]>>,
    /// True if per-block initialization has already been done for the current block. It is
    /// cleared at block finalization.
    pub initialized: Option<bool>,
}

impl View for Module {
    type V = State;

    open spec fn view(&self) -> State {
        State {
            epoch_index: self.epoch_index,
            authorities: self.authorities@,
            epoch_start_slot: self.epoch_start_slot,
            current_slot: self.current_slot,
            secondary_slots: self.secondary_slots,
            pending_secondary_slots_change: self.pending_secondary_slots_change,
            randomness: self.randomness@,
            next_randomness: self.next_randomness@,
            segment_index: self.segment_index,
            under_construction: self.under_construction@.map_values(
                |v: Vec<[u8; 32]>| outputs_view(v@),
            ),
            initialized: self.initialized,
        }
    }
}

impl Module {
    /// The state before the first block, with the given authorities.
    pub fn genesis(authorities: &[(AuthorityId, BabeAuthorityWeight)]) -> (r: Self)
        ensures
            r@ == (State { authorities: authorities@, ..State::genesis() }),
    {
        let mut r = Module::default();
        r.initialize_authorities(authorities);
        assert(r@ =~= (State { authorities: authorities@, ..State::genesis() }));
        r
    }

    /// Adds a VRF output to the randomness under construction.
    pub fn deposit_vrf_output(&mut self, vrf_output: &[u8; 32])
        requires
            old(self)@.has_room(),
        ensures
            final(self)@ == old(self)@.with_vrf_output(vrf_output@),
    {
        let segment_idx = self.segment_index;
        let full = match self.under_construction.get(&segment_idx) {
            Some(segment) => segment.len() >= UNDER_CONSTRUCTION_SEGMENT_LENGTH,
            None => false,
        };
        if !full {
            // push onto current segment: not full.
            let mut segment = match self.under_construction.remove(&segment_idx) {
                Some(segment) => segment,
                None => Vec::new(),
            };
            segment.push(*vrf_output);
            self.under_construction.insert(segment_idx, segment);
            assert(self@.under_construction =~= old(self)@.with_vrf_output(
                vrf_output@,
            ).under_construction) by {
                assert(outputs_view(segment@) =~= old(self)@.segment(segment_idx).push(vrf_output@));
            }
        } else {
            // move onto the next segment and update the index.
            let segment_idx = segment_idx + 1;
            let mut segment: Vec<[u8; 32]> = Vec::new();
            segment.push(*vrf_output);
            self.under_construction.insert(segment_idx, segment);
            self.segment_index = segment_idx;
            assert(self@.under_construction =~= old(self)@.with_vrf_output(
                vrf_output@,
            ).under_construction) by {
                assert(outputs_view(segment@) =~= seq![vrf_output@]);
            }
        }
    }

    /// Per-block initialization on a block whose digest is `logs`. It may be called more than
    /// once in a block; only the first call changes the state.
    pub fn do_initialize(&mut self, logs: &[DigestItem])
        requires
            old(self)@.has_room_for(logs@),
        ensures
            final(self)@ == old(self)@.initialize(logs@),
    {
        let initialized = match self.initialized {
            Some(initialized) => initialized,
            None => false,
        };
        if initialized {
            return ;
        }
        self.initialized = Some(true);
        if let Some(digest) = find_pre_digest(logs) {
            if self.epoch_start_slot == 0 {
                self.epoch_start_slot = digest.slot_number();
            }
            self.current_slot = digest.slot_number();
            if let RawBabePreDigest::Primary { vrf_output, .. } = digest {
                self.deposit_vrf_output(&vrf_output);
            }
        }
    }

    /// Called when a block starts, with the digest of its header.
    pub fn on_initialize(&mut self, logs: &[DigestItem])
        requires
            old(self)@.has_room_for(logs@),
        ensures
            final(self)@ == old(self)@.initialize(logs@),
    {
        self.do_initialize(logs);
    }

    /// Called when a block ends.
    pub fn on_finalize(&mut self)
        ensures
            final(self)@ == old(self)@.finalize(),
    {
        self.initialized = None;
    }

    /// Takes the VRF outputs of segment `index` out of the randomness under construction.
    fn take_segment(&mut self, index: u32) -> (r: Vec<[u8; 32]>)
        ensures
            outputs_view(r@) == old(self)@.segment(index),
            final(self)@ == (State {
                under_construction: old(self)@.under_construction.remove(index),
                ..old(self)@
            }),
    {
        let taken = self.under_construction.remove(&index);
        assert(self@.under_construction =~= old(self)@.under_construction.remove(index));
        match taken {
            Some(segment) => segment,
            None => {
                let empty: Vec<[u8; 32]> = Vec::new();
                assert(outputs_view(empty@) =~= Seq::empty());
                empty
            },
        }
    }

    /// Takes all VRF outputs collected so far out of the randomness under construction.
    fn take_vrf_outputs(&mut self) -> (r: Vec<[u8; 32]>)
        ensures
            outputs_view(r@) == old(self)@.vrf_outputs(),
            final(self)@ == (State {
                segment_index: 0,
                under_construction: old(self)@.change_randomness(0).under_construction,
                ..old(self)@
            }),
    {
        let segment_idx = self.segment_index;
        self.segment_index = 0;
        let ghost start = old(self)@;
        let mut rho: Vec<[u8; 32]> = Vec::new();
        let mut i: u32 = 0;
        assert(outputs_view(rho@) =~= outputs_in(start.under_construction, 0));
        loop
            invariant_except_break
                i <= segment_idx,
                segment_idx == start.segment_index,
                outputs_view(rho@) == outputs_in(start.under_construction, i as nat),
                self@ == (State {
                    segment_index: 0,
                    under_construction: self@.under_construction,
                    ..start
                }),
                forall|k: u32| #[trigger]
                    self@.under_construction.contains_key(k) <==> start.under_construction.contains_key(k)
                        && k >= i,
                forall|k: u32| #[trigger]
                    self@.under_construction.contains_key(k) ==> self@.under_construction[k]
                        == start.under_construction[k],
            ensures
                outputs_view(rho@) == start.vrf_outputs(),
                self@ == (State {
                    segment_index: 0,
                    under_construction: start.change_randomness(0).under_construction,
                    ..start
                }),
            decreases segment_idx - i,
        {
            let ghost before = self@;
            let ghost collected = rho@;
            assert(before.segment(i) == start.segment(i)) by {
                assert(before.under_construction.contains_key(i)
                    == start.under_construction.contains_key(i));
            }
            let mut segment = self.take_segment(i);
            let ghost taken = segment@;
            rho.append(&mut segment);
            assert(outputs_view(rho@) =~= outputs_view(collected) + outputs_view(taken));
            assert(outputs_in(start.under_construction, (i + 1) as nat) == outputs_in(
                start.under_construction,
                i as nat,
            ) + start.segment(i));
            if i == segment_idx {
                assert(self@.under_construction =~= start.change_randomness(0).under_construction);
                break;
            }
            i = i + 1;
        }
        rho
    }

    /// Called once when an epoch changes, to update the randomness: computes the randomness of
    /// the next epoch out of all VRF outputs of the epoch that ends. Returns the randomness of
    /// the epoch that begins.
    pub fn randomness_change_epoch(&mut self, next_epoch_index: u64) -> (r: [u8; 32])
        ensures
            r@ == old(self)@.next_randomness,
            final(self)@ == old(self)@.change_randomness(next_epoch_index),
    {
        let this_randomness = self.next_randomness;
        let rho = self.take_vrf_outputs();
        self.next_randomness = compute_randomness(
            &this_randomness,
            next_epoch_index,
            rho.as_slice(),
        );
        this_randomness
    }

    /// The epoch start that counts whole epochs from `previous` to slot `now`.
    fn advance_epoch_start(previous: u64, now: u64, duration: u64) -> (r: u64)
        requires
            duration > 0,
        ensures
            r == epoch_start(previous as int, now as int, duration as int),
    {
        let mut start = previous;
        loop
            invariant_except_break
                epoch_start(start as int, now as int, duration as int) == epoch_start(
                    previous as int,
                    now as int,
                    duration as int,
                ),
            invariant
                duration > 0,
            ensures
                start == epoch_start(previous as int, now as int, duration as int),
            decreases u64::MAX - start,
        {
            // on the first epoch we must account for skipping at least one whole epoch, in
            // case the first block is authored with a slot number far in the past.
            if now.saturating_sub(start) < duration {
                proof {
                    if now >= start {
                        lemma_basic_div(now - start, duration as int);
                        assert(0 * duration == 0) by (nonlinear_arith);
                    }
                }
                break;
            }
            proof {
                lemma_epoch_start_step(start as int, now as int, duration as int);
            }
            start = start.saturating_add(duration);
        }
        start
    }

    /// The digest item that carries a message to the consensus engine.
    pub fn deposit_consensus(log: &ConsensusLog) -> (r: DigestItem)
        requires
            log.encodable(),
        ensures
            is_consensus_item(r, log.encoded()),
    {
        DigestItem::Consensus(BABE_ENGINE_ID, log.encode())
    }

    /// Sets the authorities of the first epoch. An empty list sets nothing.
    pub fn initialize_authorities(&mut self, authorities: &[(AuthorityId, BabeAuthorityWeight)])
        requires
            authorities@.len() > 0 ==> old(self)@.authorities.len() == 0,
        ensures
            final(self)@ == (if authorities@.len() > 0 {
                State { authorities: authorities@, ..old(self)@ }
            } else {
                old(self)@
            }),
    {
        if authorities.len() > 0 {
            let mut kept: Vec<(AuthorityId, BabeAuthorityWeight)> = Vec::new();
            let mut i: usize = 0;
            while i < authorities.len()
                invariant
                    i <= authorities@.len(),
                    kept@ == authorities@.take(i as int),
                decreases authorities@.len() - i,
            {
                kept.push(authorities[i]);
                i = i + 1;
                assert(kept@ =~= authorities@.take(i as int));
            }
            assert(kept@ =~= authorities@);
            self.authorities = kept;
        }
    }

    /// Called with the validators of the first session.
    pub fn on_genesis_session<T: Trait>(&mut self, validators: &[(T::AccountId, AuthorityId)])
        requires
            validators@.len() > 0 ==> old(self)@.authorities.len() == 0,
        ensures
            final(self)@ == (if validators@.len() > 0 {
                State { authorities: with_weights(session_keys(validators@)), ..old(self)@ }
            } else {
                old(self)@
            }),
    {
        let authorities = session_authorities(validators);
        self.initialize_authorities(authorities.as_slice());
    }

    /// Called when a new session starts, with the validators of the session and those queued
    /// for the next one: moves on to the next epoch, and returns the digest item that
    /// announces the epoch after it.
    pub fn on_new_session<T: Trait>(
        &mut self,
        _changed: bool,
        validators: &[(T::AccountId, AuthorityId)],
        queued_validators: &[(T::AccountId, AuthorityId)],
    ) -> (r: DigestItem)
        requires
            T::EpochDuration::value() > 0,
            old(self)@.epoch_index + 2 <= u64::MAX,
            queued_validators@.len() <= u32::MAX,
        ensures
            final(self)@ == old(self)@.new_session(
                T::EpochDuration::value(),
                session_keys(validators@),
            ),
            is_consensus_item(
                r,
                next_epoch_bytes(
                    final(self)@.next_epoch(
                        T::EpochDuration::value(),
                        session_keys(queued_validators@),
                    ),
                ),
            ),
    {
        let duration = T::EpochDuration::get();

        // Update epoch index.
        let epoch_index = self.epoch_index + 1;
        self.epoch_index = epoch_index;

        // Update authorities.
        self.authorities = session_authorities(validators);

        // Update epoch start slot.
        self.epoch_start_slot = Self::advance_epoch_start(
            self.epoch_start_slot,
            self.current_slot,
            duration,
        );

        // Update epoch randomness.
        let randomness = self.randomness_change_epoch(epoch_index + 1);

        let item = self.enter_epoch::<T>(randomness, queued_validators);
        assert(self@ =~= old(self)@.new_session(duration, session_keys(validators@)));
        item
    }

    /// Enters the epoch whose randomness is `randomness`, once the randomness of the next one
    /// has been computed: moves the changes of secondary slots on, and returns the digest item
    /// that announces the next epoch.
    pub fn enter_epoch<T: Trait>(
        &mut self,
        randomness: [u8; 32],
        queued_validators: &[(T::AccountId, AuthorityId)],
    ) -> (r: DigestItem)
        requires
            old(self)@.epoch_index + 1 <= u64::MAX,
            queued_validators@.len() <= u32::MAX,
        ensures
            final(self)@ == (State {
                randomness: randomness@,
                secondary_slots: old(self)@.next_secondary_slots(),
                pending_secondary_slots_change: None,
                ..old(self)@
            }),
            is_consensus_item(
                r,
                next_epoch_bytes(
                    final(self)@.next_epoch(
                        T::EpochDuration::value(),
                        session_keys(queued_validators@),
                    ),
                ),
            ),
    {
        self.randomness = randomness;

        // After we update the current epoch, we signal the *next* epoch change so that nodes
        // can track changes.
        let duration = T::EpochDuration::get();
        let next_authorities = session_authorities(queued_validators);
        let next_epoch_start_slot = self.epoch_start_slot.saturating_add(duration);

        // change for E + 1 now becomes change at E
        let current = self.secondary_slots.1;
        let next = match self.pending_secondary_slots_change.take() {
            // if there's a pending change schedule it for E + 1
            Some(change) => change,
            // otherwise E + 1 will have the same value as E
            None => current,
        };
        self.secondary_slots = (current, next);

        let log = ConsensusLog::NextEpochData(
            Epoch {
                epoch_index: self.epoch_index + 1,
                start_slot: next_epoch_start_slot,
                duration,
                authorities: next_authorities,
                randomness: self.next_randomness,
                secondary_slots: next,
            },
        );
        Self::deposit_consensus(&log)
    }

    /// Called when the validator with index `i` is disabled: returns the digest item that says
    /// so. Of the index the lowest 32 bits are told.
    pub fn on_disabled(i: usize) -> (r: DigestItem)
        ensures
            is_consensus_item(r, on_disabled_bytes((i as int % 0x1_0000_0000) as nat)),
    {
        let index = #[verifier::truncate] (i as u32);
        assert(index == i as int % 0x1_0000_0000) by {
            let wide = i as u64;
            assert((wide as u32) == wide % 0x1_0000_0000) by (bit_vector);
        }
        Self::deposit_consensus(&ConsensusLog::OnDisabled(index))
    }

    /// Whether the session should end: it does when the epoch is over. This makes sure that
    /// the block, whose digest is `logs`, has been taken in, as the question may come before
    /// `on_initialize`.
    pub fn should_end_session<T: Trait>(&mut self, logs: &[DigestItem]) -> (r: bool)
        requires
            old(self)@.has_room_for(logs@),
        ensures
            final(self)@ == old(self)@.initialize(logs@),
            r == final(self)@.epoch_is_over(T::EpochDuration::value()),
    {
        self.do_initialize(logs);
        let diff = self.current_slot.saturating_sub(self.epoch_start_slot);
        diff >= T::EpochDuration::get()
    }

    /// Sets a pending change to enable or disable secondary slot assignment, or takes the
    /// pending change back. The pending change will be set at the end of the current epoch and
    /// will be enacted two epochs after the current one.
    pub fn set_pending_secondary_slots_change<T: Trait>(
        &mut self,
        origin: RawOrigin<T::AccountId>,
        change: Option<bool>,
    ) -> (r: Result<(), DispatchError>)
        ensures
            match origin {
                RawOrigin::Root => {
                    &&& r is Ok
                    &&& final(self)@ == (State {
                        pending_secondary_slots_change: change,
                        ..old(self)@
                    })
                },
                _ => {
                    &&& r matches Err(DispatchError::ExpectedRoot)
                    &&& final(self)@ == old(self)@
                },
            },
    {
        match ensure_root(origin) {
            Ok(()) => {},
            Err(error) => return Err(error),
        }
        self.pending_secondary_slots_change = change;
        Ok(())
    }

    /// The randomness of the current epoch.
    pub fn random(&self) -> (r: [u8; 32])
        ensures
            r@ == self@.randomness,
    {
        self.randomness
    }

    /// The index of the author of a block whose pre-runtime digests are `digests`: the first
    /// one of BABE tells it, if it can be read.
    pub fn find_author(digests: &[(ConsensusEngineId, Vec<u8>)]) -> (r: Option<u32>)
        ensures
            r == author_index(digests@),
    {
        let mut i: usize = 0;
        assert(digests@.skip(0) =~= digests@);
        while i < digests.len()
            invariant
                i <= digests@.len(),
                author_index(digests@) == author_index(digests@.skip(i as int)),
            decreases digests@.len() - i,
        {
            assert(digests@.skip(i as int).skip(1) =~= digests@.skip(i + 1));
            if bytes_eq(digests[i].0.as_slice(), BABE_ENGINE_ID.as_slice()) {
                return match RawBabePreDigest::decode(digests[i].1.as_slice()) {
                    Some(pre_digest) => Some(pre_digest.authority_index()),
                    None => None,
                };
            }
            i = i + 1;
        }
        None
    }

    /// Whether `authority_id` is one of the current authorities.
    pub fn is_member(&self, authority_id: &AuthorityId) -> (r: bool)
        ensures
            r == self@.has_authority(*authority_id),
    {
        let mut i: usize = 0;
        while i < self.authorities.len()
            invariant
                i <= self.authorities@.len(),
                forall|j: int|
                    0 <= j < i ==> (#[trigger] self.authorities@[j]).0@ != authority_id@,
            decreases self.authorities@.len() - i,
        {
            if bytes_eq(self.authorities[i].0.as_slice(), authority_id.as_slice()) {
                assert(self@.authorities[i as int].0@ == authority_id@);
                return true;
            }
            i = i + 1;
        }
        false
    }

    /// The number of slots that an epoch takes. Sessions are coupled to epochs: a new session
    /// starts once the new epoch begins.
    pub fn epoch_duration<T: Trait>() -> (r: u64)
        ensures
            r == T::EpochDuration::value(),
    {
        T::EpochDuration::get()
    }

    /// The expected average block time at which BABE should be creating blocks.
    pub fn expected_block_time<T: Trait>() -> (r: T::Moment)
        ensures
            r == T::ExpectedBlockTime::value(),
    {
        T::ExpectedBlockTime::get()
    }

    /// Determine the BABE slot duration based on the Timestamp module configuration: twice the
    /// minimum period, or the longest that can be told where that is shorter.
    pub fn slot_duration<T: Trait>() -> (r: T::Moment)
        ensures
            r.millis() == slot_length(T::MinimumPeriod::value().millis(), T::Moment::limit()),
    {
        // we double the minimum block-period so each author can always propose within the
        // majority of their slot.
        T::MinimumPeriod::get().saturating_double()
    }

    /// Called when the timestamp of the block is set. Nothing is to be done then.
    pub fn on_timestamp_set<T: Trait>(&mut self, _moment: T::Moment)
        ensures
            final(self)@ == old(self)@,
    {
    }

    /// The call that BABE puts into a block on its own: there is none.
    pub fn create_inherent<T: Trait>(_data: &InherentData) -> (r: Option<TimestampCall<T::Moment>>)
        ensures
            r is None,
    {
        None
    }

    /// Checks a call of the timestamp module: the slot of the timestamp that it sets must be
    /// the slot that the inherent data of the block tells.
    pub fn check_inherent<T: Trait>(
        call: &TimestampCall<T::Moment>,
        data: &InherentData,
    ) -> (r: Result<(), InherentError>)
        requires
            *call is SetMoment ==> T::MinimumPeriod::value().millis() > 0,
        ensures
            match *call {
                TimestampCall::SetMoment(timestamp) => match stored_number(
                    inherent_entries(*data),
                    INHERENT_IDENTIFIER@,
                ) {
                    Stored::Missing => r matches Err(InherentError::NotFound),
                    Stored::Unreadable => r matches Err(InherentError::Unreadable(text)) && text@
                        == undecodable_text(),
                    Stored::Value(seal_slot) => if slot_at(
                        timestamp.millis(),
                        slot_length(T::MinimumPeriod::value().millis(), T::Moment::limit()),
                    ) == seal_slot {
                        r is Ok
                    } else {
                        r matches Err(InherentError::SlotMismatch)
                    },
                },
                TimestampCall::Other => r is Ok,
            },
    {
        let timestamp = match *call {
            TimestampCall::SetMoment(timestamp) => timestamp,
            TimestampCall::Other => return Ok(()),
        };
        proof {
            T::MinimumPeriod::value().lemma_in_range();
        }
        let timestamp_based_slot = timestamp.divided_by(
            Self::slot_duration::<T>(),
        ).saturated_into_u64();
        let seal_slot = match data.babe_inherent_data() {
            Ok(seal_slot) => seal_slot,
            Err(error) => return Err(error),
        };
        if timestamp_based_slot == seal_slot {
            Ok(())
        } else {
            Err(InherentError::SlotMismatch)
        }
    }
}

impl Default for Module {
    /// The state before the first block, with no authorities.
    fn default() -> (r: Self)
        ensures
            r@ == State::genesis(),
    {
        let r = Module {
            epoch_index: 0,
            authorities: Vec::new(),
            epoch_start_slot: 0,
            current_slot: 0,
            secondary_slots: (true, true),
            pending_secondary_slots_change: None,
            randomness: [0u8; 32],
            next_randomness: [0u8; 32],
            segment_index: 0,
            under_construction: BTreeMap::new(),
            initialized: None,
        };
        assert(r@ =~= State::genesis()) by {
            assert(r@.randomness =~= zero_randomness());
            assert(r@.under_construction =~= Map::empty());
        }
        r
    }
}

/// A call of the timestamp module, as far as BABE looks at it.
#[derive(Debug, PartialEq, Eq)]
pub enum TimestampCall<M> {
    /// Sets the timestamp.
    SetMoment(M),
    /// Any other call.
    Other,
}

/// How long a slot takes where blocks are at least `period` apart and no time longer than
/// `limit` can be told.
pub open spec fn slot_length(period: nat, limit: nat) -> nat {
    capped(2 * period, limit)
}

/// The number of the slot that `timestamp` lies in, where a slot takes `length`, as far as a
/// `u64` goes.
pub open spec fn slot_at(timestamp: nat, length: nat) -> nat {
    capped(timestamp / length, u64::MAX as nat)
}

/// The index of the author that the first BABE item of `digests` tells, if there is one and
/// it can be read.
pub open spec fn author_index(digests: Seq<(ConsensusEngineId, Vec<u8>)>) -> Option<u32>
    decreases digests.len(),
{
    if digests.len() == 0 {
        None
    } else if digests[0].0@ == BABE_ENGINE_ID@ {
        match decoded_pre_digest(digests[0].1@) {
            Some(digest) => Some(digest.authority_index()),
            None => None,
        }
    } else {
        author_index(digests.skip(1))
    }
}

/// Whether `item` carries the message `data` to BABE.
pub open spec fn is_consensus_item(item: DigestItem, data: Seq<u8>) -> bool {
    item matches DigestItem::Consensus(id, message) && id@ == BABE_ENGINE_ID@ && message@ == data
}

/// The keys of the validators, in order.
pub open spec fn session_keys<A>(validators: Seq<(A, AuthorityId)>) -> Seq<AuthorityId> {
    validators.map_values(|validator: (A, AuthorityId)| validator.1)
}

/// The authorities that a session makes of its validators.
fn session_authorities<A>(validators: &[(A, AuthorityId)]) -> (r: Vec<
    (AuthorityId, BabeAuthorityWeight),
>)
    ensures
        r@ == with_weights(session_keys(validators@)),
{
    let mut r: Vec<(AuthorityId, BabeAuthorityWeight)> = Vec::new();
    let mut i: usize = 0;
    while i < validators.len()
        invariant
            i <= validators@.len(),
            r@ == with_weights(session_keys(validators@)).take(i as int),
        decreases validators@.len() - i,
    {
        r.push((validators[i].1, 1));
        i = i + 1;
        assert(r@ =~= with_weights(session_keys(validators@)).take(i as int));
    }
    assert(r@ =~= with_weights(session_keys(validators@)));
    r
}

proof fn lemma_epoch_start_step(start: int, now: int, duration: int)
    requires
        duration > 0,
        now - start >= duration,
    ensures
        epoch_start(start + duration, now, duration) == epoch_start(start, now, duration),
{
    let gap = now - start;
    assert((gap - duration) / duration == gap / duration - 1) by {
        lemma_div_minus_one(gap, duration);
    }
    assert((gap / duration - 1) * duration == gap / duration * duration - duration)
        by (nonlinear_arith);
}

} // verus!
