//! Epochs, and how they are announced in block headers.

use vstd::prelude::*;

use crate::bytes::{concat, extend, le_bytes};
use crate::codec::{bool_bytes, compact_bytes, encode_compact, encode_u32, encode_u64};
use crate::crypto::AuthorityId;

verus! {

/// The weight of an authority.
pub type BabeAuthorityWeight = u64;

/// What there is to know about an epoch.
#[derive(Debug, PartialEq, Eq)]
pub struct Epoch {
    /// The epoch index.
    pub epoch_index: u64,
    /// The slot that the epoch starts at.
    pub start_slot: u64,
    /// How many slots the epoch takes.
    pub duration: u64,
    /// The authorities and their weights.
    pub authorities: Vec<(AuthorityId, BabeAuthorityWeight)>,
    /// The randomness of the epoch.
    pub randomness: [u8; 32],
    /// Whether secondary slots are assigned in the epoch.
    pub secondary_slots: bool,
}

/// A message from the module to the consensus engine.
#[derive(Debug, PartialEq, Eq)]
pub enum ConsensusLog {
    /// The epoch has changed. This tells about the *next* epoch.
    NextEpochData(Epoch),
    /// The authority with the given index is disabled.
    OnDisabled(u32),
}

/// The mathematical content of an `Epoch`.
#[verifier::ext_equal]
pub struct EpochData {
    pub epoch_index: u64,
    pub start_slot: u64,
    pub duration: u64,
    pub authorities: Seq<(AuthorityId, BabeAuthorityWeight)>,
    pub randomness: Seq<u8>,
    pub secondary_slots: bool,
}

/// The encoding of one authority: its key, then its weight.
pub open spec fn authority_bytes(authority: (AuthorityId, BabeAuthorityWeight)) -> Seq<u8> {
    authority.0@ + le_bytes(authority.1 as nat, 8)
}

/// The encoding of a list of authorities: their number in compact form, then each of them.
pub open spec fn authorities_bytes(authorities: Seq<(AuthorityId, BabeAuthorityWeight)>) -> Seq<
    u8,
> {
    compact_bytes(authorities.len()) + concat(
        authorities.map_values(|a: (AuthorityId, BabeAuthorityWeight)| authority_bytes(a)),
    )
}

impl EpochData {
    /// The encoding of an epoch: its fields in order.
    pub open spec fn encoded(self) -> Seq<u8> {
        le_bytes(self.epoch_index as nat, 8) + le_bytes(self.start_slot as nat, 8) + le_bytes(
            self.duration as nat,
            8,
        ) + authorities_bytes(self.authorities) + self.randomness + bool_bytes(
            self.secondary_slots,
        )
    }
}

impl View for Epoch {
    type V = EpochData;

    open spec fn view(&self) -> EpochData {
        EpochData {
            epoch_index: self.epoch_index,
            start_slot: self.start_slot,
            duration: self.duration,
            authorities: self.authorities@,
            randomness: self.randomness@,
            secondary_slots: self.secondary_slots,
        }
    }
}

/// The encoding of the message that announces the next epoch.
pub open spec fn next_epoch_bytes(epoch: EpochData) -> Seq<u8> {
    seq![1u8] + epoch.encoded()
}

/// The encoding of the message that an authority is disabled.
pub open spec fn on_disabled_bytes(index: nat) -> Seq<u8> {
    seq![2u8] + le_bytes(index, 4)
}

impl ConsensusLog {
    /// The encoding of the message: a byte that tells its kind, then its content.
    pub open spec fn encoded(self) -> Seq<u8> {
        match self {
            ConsensusLog::NextEpochData(epoch) => next_epoch_bytes(epoch@),
            ConsensusLog::OnDisabled(index) => on_disabled_bytes(index as nat),
        }
    }

    /// Whether the message can be encoded: a list has at most `u32::MAX` items.
    pub open spec fn encodable(self) -> bool {
        self matches ConsensusLog::NextEpochData(epoch) ==> epoch.authorities@.len() <= u32::MAX
    }

    /// Encodes the message.
    pub fn encode(&self) -> (r: Vec<u8>)
        requires
            self.encodable(),
        ensures
            r@ == self.encoded(),
    {
        let mut r: Vec<u8> = Vec::new();
        match self {
            ConsensusLog::NextEpochData(epoch) => {
                r.push(1);
                extend(&mut r, encode_u64(epoch.epoch_index).as_slice());
                extend(&mut r, encode_u64(epoch.start_slot).as_slice());
                extend(&mut r, encode_u64(epoch.duration).as_slice());
                extend(&mut r, encode_authorities(epoch.authorities.as_slice()).as_slice());
                extend(&mut r, epoch.randomness.as_slice());
                r.push(if epoch.secondary_slots { 1 } else { 0 });
                assert(r@ =~= next_epoch_bytes(epoch@));
            },
            ConsensusLog::OnDisabled(index) => {
                r.push(2);
                extend(&mut r, encode_u32(*index).as_slice());
                assert(r@ =~= on_disabled_bytes(*index as nat));
            },
        }
        r
    }
}

/// Encodes a list of authorities.
pub fn encode_authorities(authorities: &[(AuthorityId, BabeAuthorityWeight)]) -> (r: Vec<u8>)
    requires
        authorities@.len() <= u32::MAX,
    ensures
        r@ == authorities_bytes(authorities@),
{
    let mut r = encode_compact(authorities.len() as u32);
    let ghost parts = authorities@.map_values(
        |a: (AuthorityId, BabeAuthorityWeight)| authority_bytes(a),
    );
    let mut i: usize = 0;
    assert(parts.take(0) =~= Seq::empty());
    assert(r@ =~= compact_bytes(authorities@.len()) + concat(parts.take(0)));
    while i < authorities.len()
        invariant
            i <= authorities@.len(),
            parts == authorities@.map_values(
                |a: (AuthorityId, BabeAuthorityWeight)| authority_bytes(a),
            ),
            r@ == compact_bytes(authorities@.len()) + concat(parts.take(i as int)),
        decreases authorities@.len() - i,
    {
        extend(&mut r, authorities[i].0.as_slice());
        extend(&mut r, encode_u64(authorities[i].1).as_slice());
        assert(parts.take(i + 1).drop_last() =~= parts.take(i as int));
        assert(parts.take(i + 1).last() == authority_bytes(authorities@[i as int]));
        assert(r@ =~= compact_bytes(authorities@.len()) + concat(parts.take(i + 1)));
        i = i + 1;
    }
    assert(parts.take(i as int) =~= parts);
    r
}

} // verus!
