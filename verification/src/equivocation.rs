//! Reports that an authority authored two blocks in one slot.

use vstd::prelude::*;

use crate::bytes::{bytes_eq, extend, le_bytes, lemma_le_bytes_len, to_vec};
use crate::codec::{compact_bytes, encode_prefixed, encode_u64, prefixed_bytes};
use crate::config::Trait;
use crate::crypto::{
    blake2_256, blake2_256_hash, sr25519_good, sr25519_verify, AuthorityId, AuthoritySignature,
};
use crate::digests::{find_pre_digest, first_pre_digest, DigestItem};
use crate::dispatch::{ensure_signed, DispatchError, RawOrigin};
use crate::module::Module;
use crate::offence::{BabeEquivocationOffence, SessionIndex};

verus! {

/// Tells what a key is used for.
pub type KeyTypeId = [u8; 4];

/// The type of BABE keys, the letters `babe`.
pub const BABE_KEY_TYPE: KeyTypeId = [0x62, 0x61, 0x62, 0x65];

/// What a report needs to know of a block header.
#[derive(Debug, PartialEq, Eq)]
pub struct Header {
    /// The encoding of the header. Two headers are the same if and only if their encodings are.
    pub encoded: Vec<u8>,
    /// The hash of the header.
    pub hash: Vec<u8>,
    /// The slot that the header says it was authored in, if it can be told.
    pub slot: Option<u64>,
}

impl Header {
    /// What a report needs to know of a header whose digest is `logs`: the slot is the one that
    /// the first BABE pre-digest tells.
    pub fn new(encoded: Vec<u8>, hash: Vec<u8>, logs: &[DigestItem]) -> (r: Self)
        ensures
            r.encoded == encoded,
            r.hash == hash,
            r.slot == match first_pre_digest(logs@) {
                Some(digest) => Some(digest.slot_number()),
                None => None,
            },
    {
        let slot = match find_pre_digest(logs) {
            Some(digest) => Some(digest.slot_number()),
            None => None,
        };
        Header { encoded, hash, slot }
    }
}

/// The claim that an authority authored two blocks in one slot, with the evidence.
#[derive(Debug, PartialEq, Eq)]
pub struct EquivocationProof {
    /// The authority.
    pub identity: AuthorityId,
    /// The slot.
    pub slot: u64,
    /// The header of the one block.
    pub first_header: Header,
    /// The header of the other.
    pub second_header: Header,
    /// The signature on the hash of the first header.
    pub first_signature: AuthoritySignature,
    /// The signature on the hash of the second header.
    pub second_signature: AuthoritySignature,
}

impl EquivocationProof {
    /// Whether the headers fit the claim: they differ, and both were authored in the slot.
    pub open spec fn consistent(self) -> bool {
        &&& self.first_header.encoded@ != self.second_header.encoded@
        &&& self.first_header.slot == Some(self.slot)
        &&& self.second_header.slot == Some(self.slot)
    }

    /// Whether the evidence supports the claim: the headers fit it, and the authority signed
    /// both.
    pub open spec fn valid(self) -> bool {
        &&& self.consistent()
        &&& sr25519_good(self.first_signature@, self.first_header.hash@, self.identity@)
        &&& sr25519_good(self.second_signature@, self.second_header.hash@, self.identity@)
    }

    /// The encoding of the claim and the evidence: the fields in order.
    pub open spec fn encoded(self) -> Seq<u8> {
        self.identity@ + le_bytes(self.slot as nat, 8) + self.first_header.encoded@
            + self.second_header.encoded@ + self.first_signature@ + self.second_signature@
    }

    /// Encodes the claim and the evidence.
    pub fn encode(&self) -> (r: Vec<u8>)
        ensures
            r@ == self.encoded(),
    {
        let mut r = to_vec(self.identity.as_slice());
        extend(&mut r, encode_u64(self.slot).as_slice());
        extend(&mut r, self.first_header.encoded.as_slice());
        extend(&mut r, self.second_header.encoded.as_slice());
        extend(&mut r, self.first_signature.as_slice());
        extend(&mut r, self.second_signature.as_slice());
        r
    }

    /// The key whose owner is to be proved, with its type.
    pub fn key_owner(&self) -> (r: (KeyTypeId, Vec<u8>))
        ensures
            r.0@ == BABE_KEY_TYPE@,
            r.1@ == self.identity@,
    {
        (BABE_KEY_TYPE, to_vec(self.identity.as_slice()))
    }
}

/// Whether the headers fit the claim: they differ, and both were authored in the slot.
pub fn headers_are_consistent(equivocation: &EquivocationProof) -> (r: bool)
    ensures
        r == equivocation.consistent(),
{
    let first_header = &equivocation.first_header;
    let second_header = &equivocation.second_header;
    if bytes_eq(first_header.encoded.as_slice(), second_header.encoded.as_slice()) {
        return false;
    }
    match (first_header.slot, second_header.slot) {
        (Some(first_slot), Some(second_slot)) => equivocation.slot == first_slot && first_slot
            == second_slot,
        _ => false,
    }
}

/// Whether the evidence supports the claim.
pub fn equivocation_is_valid(equivocation: &EquivocationProof) -> (r: bool)
    ensures
        r == equivocation.valid(),
{
    if headers_are_consistent(equivocation) {
        let author = &equivocation.identity;
        let first_hash = equivocation.first_header.hash.as_slice();
        if !sr25519_verify(&equivocation.first_signature, first_hash, author) {
            return false;
        }
        let second_hash = equivocation.second_header.hash.as_slice();
        if !sr25519_verify(&equivocation.second_signature, second_hash, author) {
            return false;
        }
        return true;
    }
    false
}

/// A report that has been found to hold: what is left is to find out who owns the key.
#[derive(Debug, PartialEq, Eq)]
pub struct EquivocationReport<AccountId> {
    /// The account that reports.
    pub reporter: AccountId,
    /// The slot of the equivocation.
    pub slot: u64,
    /// The type of the key that signed both headers.
    pub key_type: KeyTypeId,
    /// The key.
    pub key: Vec<u8>,
}

/// An offence, and who gets the credit for reporting it.
#[derive(Debug, PartialEq, Eq)]
pub struct OffenceReport<AccountId, FullIdentification> {
    /// The accounts that reported.
    pub reporters: Vec<AccountId>,
    /// The offence.
    pub offence: BabeEquivocationOffence<FullIdentification>,
}

impl<AccountId> EquivocationReport<AccountId> {
    /// The report of `reporter`, where the evidence has been found to support the claim or not.
    pub fn new(reporter: AccountId, equivocation: &EquivocationProof, valid: bool) -> (r: Result<
        Self,
        DispatchError,
    >)
        ensures
            if valid {
                r matches Ok(report) && report.reporter == reporter && report.slot
                    == equivocation.slot && report.key_type@ == BABE_KEY_TYPE@ && report.key@
                    == equivocation.identity@
            } else {
                r matches Err(DispatchError::InvalidEquivocation)
            },
    {
        if !valid {
            return Err(DispatchError::InvalidEquivocation);
        }
        let (key_type, key) = equivocation.key_owner();
        Ok(EquivocationReport { reporter, slot: equivocation.slot, key_type, key })
    }

    /// The offence to report, where the owner of the key is known: `to_punish` is who the
    /// key-owner proof was found to prove, if anyone, `session_index` the session that the proof
    /// is for, and `validator_set_count` the number of validators in it.
    pub fn offence<FullIdentification>(
        self,
        to_punish: Option<FullIdentification>,
        session_index: SessionIndex,
        validator_set_count: u32,
    ) -> (r: Option<OffenceReport<AccountId, FullIdentification>>)
        ensures
            r is Some <==> to_punish is Some,
            r matches Some(report) ==> {
                &&& report.reporters@ == seq![self.reporter]
                &&& report.offence.slot == self.slot
                &&& report.offence.session_index == session_index
                &&& report.offence.validator_set_count == validator_set_count
                &&& Some(report.offence.offender) == to_punish
            },
    {
        match to_punish {
            Some(offender) => {
                let mut reporters: Vec<AccountId> = Vec::new();
                reporters.push(self.reporter);
                assert(reporters@ =~= seq![self.reporter]);
                Some(
                    OffenceReport {
                        reporters,
                        offence: BabeEquivocationOffence {
                            slot: self.slot,
                            session_index,
                            validator_set_count,
                            offender,
                        },
                    },
                )
            },
            None => None,
        }
    }
}

/// The encoding of the call that reports an equivocation: the index of the call, its two
/// arguments.
pub open spec fn report_call(equivocation: EquivocationProof, owner_proof: Seq<u8>) -> Seq<u8> {
    seq![0u8] + equivocation.encoded() + owner_proof
}

/// The encoding of what a transaction carries besides the call and the signature: it lives
/// forever, is the first of its sender and pays no tip, one byte of zero for each.
pub open spec fn extra_bytes() -> Seq<u8> {
    seq![0u8, 0u8, 0u8]
}

/// What the signature on a transaction is for: the call, the extra bytes, and twice the hash
/// of the genesis block, which fixes the chain and the start of the transaction's life.
pub open spec fn transaction_payload(call: Seq<u8>, genesis_hash: Seq<u8>) -> Seq<u8> {
    call + extra_bytes() + genesis_hash + genesis_hash
}

/// What is signed for a payload: its hash if it is longer than 256 bytes, else the payload.
pub open spec fn signed_message(payload: Seq<u8>) -> Seq<u8> {
    if payload.len() > 256 {
        blake2_256_hash(payload)
    } else {
        payload
    }
}

/// A signed transaction before its length is put in front: the version with the bit for a
/// signature, the sender as an account id, the signature, the extra bytes, the call.
pub open spec fn transaction_body(reporter: Seq<u8>, signature: Seq<u8>, call: Seq<u8>) -> Seq<u8> {
    seq![0x84u8, 0xffu8] + reporter + signature + extra_bytes() + call
}

/// What is signed for a payload.
pub fn message_to_sign(payload: &[u8]) -> (r: Vec<u8>)
    ensures
        r@ == signed_message(payload@),
        r@.len() <= 256,
{
    if payload.len() > 256 {
        to_vec(blake2_256(payload).as_slice())
    } else {
        to_vec(payload)
    }
}

/// A transaction that reports an equivocation, but for the signature.
#[derive(Debug, PartialEq, Eq)]
pub struct UnsignedTransaction {
    /// The local key that is to sign.
    pub reporter: AuthorityId,
    /// The encoded call.
    pub call: Vec<u8>,
    /// What is to be signed.
    pub message: Vec<u8>,
}

impl UnsignedTransaction {
    /// The encoding of the encoded transaction, where the key store gave a signature.
    pub fn sign(self, maybe_signature: Option<AuthoritySignature>) -> (r: Option<Vec<u8>>)
        requires
            self.call@.len() + 106 <= u32::MAX,
        ensures
            r is Some <==> maybe_signature is Some,
            r matches Some(bytes) ==> bytes@ == prefixed_bytes(
                prefixed_bytes(
                    transaction_body(self.reporter@, maybe_signature->0@, self.call@),
                ),
            ),
    {
        match maybe_signature {
            Some(signature) => {
                let mut body: Vec<u8> = Vec::new();
                body.push(0x84);
                body.push(0xff);
                extend(&mut body, self.reporter.as_slice());
                extend(&mut body, signature.as_slice());
                body.push(0);
                body.push(0);
                body.push(0);
                extend(&mut body, self.call.as_slice());
                assert(body@ =~= transaction_body(self.reporter@, signature@, self.call@));
                let extrinsic = encode_prefixed(body.as_slice());
                proof {
                    lemma_compact_len(body@.len());
                }
                Some(encode_prefixed(extrinsic.as_slice()))
            },
            None => None,
        }
    }
}

proof fn lemma_compact_len(n: nat)
    ensures
        compact_bytes(n).len() <= 5,
{
    lemma_le_bytes_len(4 * n, 1);
    lemma_le_bytes_len(4 * n + 1, 2);
    lemma_le_bytes_len(4 * n + 2, 4);
    lemma_le_bytes_len(n, 4);
}

impl Module {
    /// Reports a BABE equivocation. The call must be signed, and the evidence must support the
    /// claim.
    pub fn report_equivocation<T: Trait>(
        origin: RawOrigin<T::AccountId>,
        equivocation: &EquivocationProof,
    ) -> (r: Result<EquivocationReport<T::AccountId>, DispatchError>)
        ensures
            match origin {
                RawOrigin::Signed(who) => if equivocation.valid() {
                    r matches Ok(report) && report.reporter == who && report.slot
                        == equivocation.slot && report.key_type@ == BABE_KEY_TYPE@ && report.key@
                        == equivocation.identity@
                } else {
                    r matches Err(DispatchError::InvalidEquivocation)
                },
                _ => r matches Err(DispatchError::ExpectedSigned),
            },
    {
        let who = match ensure_signed(origin) {
            Ok(who) => who,
            Err(error) => return Err(error),
        };
        EquivocationReport::new(who, equivocation, equivocation_is_valid(equivocation))
    }

    /// The transaction that reports an equivocation, but for the signature. `owner_proof`
    /// is the encoded proof of who owns the key, where there is one; the first of the local keys
    /// is to sign, where there is one; without either there is no transaction.
    pub fn construct_equivocation_transaction(
        equivocation: &EquivocationProof,
        owner_proof: Option<&[u8]>,
        local_keys: &[AuthorityId],
        genesis_hash: &[u8],
    ) -> (r: Option<UnsignedTransaction>)
        ensures
            r is Some <==> owner_proof is Some && local_keys@.len() > 0,
            r matches Some(transaction) ==> {
                &&& transaction.reporter@ == local_keys@[0]@
                &&& transaction.call@ == report_call(*equivocation, owner_proof->0@)
                &&& transaction.message@ == signed_message(
                    transaction_payload(transaction.call@, genesis_hash@),
                )
            },
    {
        let owner_proof = match owner_proof {
            Some(owner_proof) => owner_proof,
            None => return None,
        };
        if local_keys.len() > 0 {
            let reporter = local_keys[0];
            let mut call: Vec<u8> = Vec::new();
            call.push(0);
            extend(&mut call, equivocation.encode().as_slice());
            extend(&mut call, owner_proof);
            assert(call@ =~= report_call(*equivocation, owner_proof@));
            let mut payload = to_vec(call.as_slice());
            payload.push(0);
            payload.push(0);
            payload.push(0);
            extend(&mut payload, genesis_hash);
            extend(&mut payload, genesis_hash);
            assert(payload@ =~= transaction_payload(call@, genesis_hash@));
            let message = message_to_sign(payload.as_slice());
            return Some(UnsignedTransaction { reporter, call, message });
        }
        None
    }
}

} // verus!
