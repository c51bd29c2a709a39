//! What a block header's digest says about BABE.

use vstd::prelude::*;
use vstd::slice::slice_subrange;

use crate::bytes::{array_32, array_64, bytes_eq, le_bytes, le_value};
use crate::codec::{decode_u32, decode_u64};

verus! {

/// Tells the digest items of one consensus engine from those of another.
pub type ConsensusEngineId = [u8; 4];

/// The engine id of BABE, the letters `BABE`.
pub const BABE_ENGINE_ID: ConsensusEngineId = [0x42, 0x41, 0x42, 0x45];

/// The length of a VRF output.
pub const VRF_OUTPUT_LENGTH: usize = 32;

/// The length of a VRF proof.
pub const VRF_PROOF_LENGTH: usize = 64;

/// One item of a header's digest.
#[derive(Debug, PartialEq, Eq)]
pub enum DigestItem {
    /// The root of the changes trie.
    ChangesTrieRoot(Vec<u8>),
    /// A message from the consensus engine to the runtime, put in before the block is built.
    PreRuntime(ConsensusEngineId, Vec<u8>),
    /// A message from the runtime to the consensus engine.
    Consensus(ConsensusEngineId, Vec<u8>),
    /// The seal that the consensus engine puts on the block.
    Seal(ConsensusEngineId, Vec<u8>),
    /// Anything else.
    Other(Vec<u8>),
}

/// A BABE pre-runtime digest: who authors the block, in which slot, and for a primary slot
/// the VRF output that won it.
#[derive(Clone, Copy, Debug, PartialEq, Eq)]
pub enum RawBabePreDigest {
    /// A slot won by a VRF output.
    Primary {
        authority_index: u32,
        slot_number: u64,
        vrf_output: [u8; VRF_OUTPUT_LENGTH],
        vrf_proof: [u8; VRF_PROOF_LENGTH],
    },
    /// A slot assigned by its number.
    Secondary { authority_index: u32, slot_number: u64 },
}

/// The mathematical content of a `RawBabePreDigest`.
pub enum PreDigest {
    Primary { authority_index: u32, slot_number: u64, vrf_output: Seq<u8>, vrf_proof: Seq<u8> },
    Secondary { authority_index: u32, slot_number: u64 },
}

impl PreDigest {
    pub open spec fn authority_index(self) -> u32 {
        match self {
            PreDigest::Primary { authority_index, .. } => authority_index,
            PreDigest::Secondary { authority_index, .. } => authority_index,
        }
    }

    pub open spec fn slot_number(self) -> u64 {
        match self {
            PreDigest::Primary { slot_number, .. } => slot_number,
            PreDigest::Secondary { slot_number, .. } => slot_number,
        }
    }

    /// The bytes that a block author puts into the header for this pre-digest.
    pub open spec fn encoded(self) -> Seq<u8> {
        match self {
            PreDigest::Primary { authority_index, slot_number, vrf_output, vrf_proof } => seq![1u8]
                + le_bytes(authority_index as nat, 4) + le_bytes(slot_number as nat, 8)
                + vrf_output + vrf_proof,
            PreDigest::Secondary { authority_index, slot_number } => seq![2u8] + le_bytes(
                authority_index as nat,
                4,
            ) + le_bytes(slot_number as nat, 8),
        }
    }
}

impl View for RawBabePreDigest {
    type V = PreDigest;

    open spec fn view(&self) -> PreDigest {
        match *self {
            RawBabePreDigest::Primary { authority_index, slot_number, vrf_output, vrf_proof } =>
                PreDigest::Primary {
                    authority_index,
                    slot_number,
                    vrf_output: vrf_output@,
                    vrf_proof: vrf_proof@,
                },
            RawBabePreDigest::Secondary { authority_index, slot_number } => PreDigest::Secondary {
                authority_index,
                slot_number,
            },
        }
    }
}

/// The pre-digest at the front of `bytes`: a byte that tells a primary slot (1) from a
/// secondary one (2), the authority index, the slot number, and for a primary slot the VRF
/// output and the VRF proof. What follows is not looked at.
pub open spec fn decoded_pre_digest(bytes: Seq<u8>) -> Option<PreDigest> {
    if bytes.len() >= 109 && bytes[0] == 1 {
        Some(
            PreDigest::Primary {
                authority_index: le_value(bytes.subrange(1, 5)) as u32,
                slot_number: le_value(bytes.subrange(5, 13)) as u64,
                vrf_output: bytes.subrange(13, 45),
                vrf_proof: bytes.subrange(45, 109),
            },
        )
    } else if bytes.len() >= 13 && bytes[0] == 2 {
        Some(
            PreDigest::Secondary {
                authority_index: le_value(bytes.subrange(1, 5)) as u32,
                slot_number: le_value(bytes.subrange(5, 13)) as u64,
            },
        )
    } else {
        None
    }
}

/// The BABE pre-digest that a digest item holds, if it holds one that can be read.
pub open spec fn item_pre_digest(item: DigestItem) -> Option<PreDigest> {
    match item {
        DigestItem::PreRuntime(id, data) => if id@ == BABE_ENGINE_ID@ {
            decoded_pre_digest(data@)
        } else {
            None
        },
        _ => None,
    }
}

/// The first BABE pre-digest of a digest, items that hold none passed over.
pub open spec fn first_pre_digest(logs: Seq<DigestItem>) -> Option<PreDigest>
    decreases logs.len(),
{
    if logs.len() == 0 {
        None
    } else if item_pre_digest(logs[0]) is Some {
        item_pre_digest(logs[0])
    } else {
        first_pre_digest(logs.skip(1))
    }
}

impl RawBabePreDigest {
    /// Reads a pre-digest off the front of `input`.
    pub fn decode(input: &[u8]) -> (r: Option<RawBabePreDigest>)
        ensures
            r is Some <==> decoded_pre_digest(input@) is Some,
            r matches Some(d) ==> decoded_pre_digest(input@) == Some(d@),
    {
        if input.len() < 13 {
            return None;
        }
        let authority_index = match decode_u32(slice_subrange(input, 1, 5)) {
            Some(index) => index,
            None => return None,
        };
        let slot_number = match decode_u64(slice_subrange(input, 5, 13)) {
            Some(slot) => slot,
            None => return None,
        };
        assert(input@.subrange(1, 5).subrange(0, 4) =~= input@.subrange(1, 5));
        assert(input@.subrange(5, 13).subrange(0, 8) =~= input@.subrange(5, 13));
        if input[0] == 1 && input.len() >= 109 {
            let vrf_output = array_32(slice_subrange(input, 13, 45));
            let vrf_proof = array_64(slice_subrange(input, 45, 109));
            Some(
                RawBabePreDigest::Primary { authority_index, slot_number, vrf_output, vrf_proof },
            )
        } else if input[0] == 2 {
            Some(RawBabePreDigest::Secondary { authority_index, slot_number })
        } else {
            None
        }
    }

    /// The index of the author in the current authorities.
    pub fn authority_index(&self) -> (r: u32)
        ensures
            r == self@.authority_index(),
    {
        match *self {
            RawBabePreDigest::Primary { authority_index, .. } => authority_index,
            RawBabePreDigest::Secondary { authority_index, .. } => authority_index,
        }
    }

    /// The slot that the block is authored in.
    pub fn slot_number(&self) -> (r: u64)
        ensures
            r == self@.slot_number(),
    {
        match *self {
            RawBabePreDigest::Primary { slot_number, .. } => slot_number,
            RawBabePreDigest::Secondary { slot_number, .. } => slot_number,
        }
    }
}

impl DigestItem {
    /// The BABE pre-digest that this item holds, if it holds one that can be read.
    pub fn babe_pre_digest(&self) -> (r: Option<RawBabePreDigest>)
        ensures
            r is Some <==> item_pre_digest(*self) is Some,
            r matches Some(d) ==> item_pre_digest(*self) == Some(d@),
    {
        match self {
            DigestItem::PreRuntime(id, data) => if bytes_eq(
                id.as_slice(),
                BABE_ENGINE_ID.as_slice(),
            ) {
                RawBabePreDigest::decode(data.as_slice())
            } else {
                None
            },
            _ => None,
        }
    }
}

/// The first BABE pre-digest of a digest, items that hold none passed over.
pub fn find_pre_digest(logs: &[DigestItem]) -> (r: Option<RawBabePreDigest>)
    ensures
        r is Some <==> first_pre_digest(logs@) is Some,
        r matches Some(d) ==> first_pre_digest(logs@) == Some(d@),
{
    let mut i: usize = 0;
    assert(logs@.skip(0) =~= logs@);
    while i < logs.len()
        invariant
            i <= logs@.len(),
            first_pre_digest(logs@) == first_pre_digest(logs@.skip(i as int)),
        decreases logs@.len() - i,
    {
        assert(logs@.skip(i as int).skip(1) =~= logs@.skip(i + 1));
        let found = logs[i].babe_pre_digest();
        if found.is_some() {
            return found;
        }
        i = i + 1;
    }
    None
}

} // verus!
