//! What callers can rely on of the results of the module's operations.

use vstd::prelude::*;
use vstd::utf8::encode_utf8;
use sp_inherents::InherentData;

use crate::behaviour::{
    differ, holds_pre_digest, is_babe, law_announced_epoch, law_author_is_found,
    law_block_is_left_alone, law_block_is_taken_in, law_constants, law_epoch_is_over_in_time,
    law_equivocation_is_accepted, law_equivocation_is_proved, law_finalize_takes_the_mark_off,
    law_first_readable_pre_digest, law_epoch_is_seen_whole, law_genesis_values,
    law_members_are_listed, law_module_is_seen_whole,
    law_no_author_without_babe, law_no_readable_pre_digest, law_pre_digest_is_seen_whole,
    law_randomness_of_all_outputs, law_session_keys, law_session_moves_on, law_slash_to_the_part,
    law_slot_takes_twice_the_period, law_timestamp_lies_in_its_slot, named_author, named_slot,
};
use crate::bytes::lemma_le_bytes_len;
use crate::codec::prefixed_bytes;
use crate::config::{Get, Moment, Trait};
use crate::crypto::{blake2_256_hash, sr25519_good, AuthorityId, AuthoritySignature};
use crate::digests::{
    decoded_pre_digest, find_pre_digest, ConsensusEngineId, DigestItem, PreDigest, RawBabePreDigest,
};
use crate::dispatch::{ensure_root, ensure_signed, DispatchError, RawOrigin};
use crate::epoch::{BabeAuthorityWeight, ConsensusLog};
use crate::equivocation::{
    equivocation_is_valid, headers_are_consistent, message_to_sign, report_call,
    transaction_payload,
    EquivocationProof, EquivocationReport, Header, OffenceReport, UnsignedTransaction,
};
use crate::inherents::{
    inherent_entries, stored_number, BabeInherentData, InherentDataProvider, InherentError,
    InherentIdentifier, Stored, INHERENT_IDENTIFIER, TIMESTAMP_IDENTIFIER,
};
use crate::laws::{
    law_deposit_appends, law_epoch_start, law_error_read_back, law_inherent_read_back,
};
use crate::layout::{
    law_announcement_layout, law_consensus_item, law_disabled_layout, law_evidence_layout,
    law_inherent_layout, law_message_is_payload_or_hash, law_messages_are_told_apart,
    law_only_encoded_texts_are_read, law_payload_layout, law_pre_digest_layout,
    law_randomness_hashes_everything, law_report_layout, law_sent_transaction_ends_with_the_call,
    length_width, spells, stands,
};
use crate::module::{session_keys, slot_length, Module, TimestampCall};
use crate::offence::{BabeEquivocationOffence, Perbill, SessionIndex};
use crate::randomness::{compute_randomness, outputs_view};
use crate::state::{with_weights, zero_randomness, State};

verus! {

/// Whether what is hashed to `hash` is the randomness `last`, the index `epoch_index` and all the
/// VRF outputs `rho`, each in its place, and nothing else.
pub open spec fn hashes_all(
    hash: Seq<u8>,
    last: Seq<u8>,
    epoch_index: nat,
    rho: Seq<Seq<u8>>,
) -> bool {
    exists|s: Seq<u8>|
        {
            &&& s.len() == 40 + 32 * rho.len()
            &&& stands(s, 0, last)
            &&& spells(s, 32, 8, epoch_index)
            &&& forall|j: int| 0 <= j < rho.len() ==> stands(s, 40 + 32 * j, #[trigger] rho[j])
            &&& hash == #[trigger] blake2_256_hash(s)
        }
}

/// The randomness that is computed is the hash of the last randomness, the index of the epoch
/// and every VRF output.
pub proof fn law_computed_randomness(
    last_epoch_randomness: &[u8; 32],
    epoch_index: u64,
    rho: &[[u8; 32]],
    r: [u8; 32],
)
    requires
        call_ensures(compute_randomness, (last_epoch_randomness, epoch_index, rho), r),
    ensures
        hashes_all(
            r@,
            last_epoch_randomness@,
            epoch_index as nat,
            Seq::new(rho@.len(), |j: int| rho@[j]@),
        ),
{
    let parts = outputs_view(rho@);
    law_randomness_hashes_everything(last_epoch_randomness@, epoch_index, parts);
    assert(parts =~= Seq::new(rho@.len(), |j: int| rho@[j]@));
}

/// A pre-digest is read wherever there is one, and what is read is what is there.
pub proof fn law_decoded_pre_digest(input: &[u8], r: Option<RawBabePreDigest>)
    requires
        call_ensures(RawBabePreDigest::decode, (input,), r),
    ensures
        r is Some <==> input@.len() > 0 && (input@[0] == 1 && input@.len() >= 109 || input@[0] == 2
            && input@.len() >= 13),
        r matches Some(
            RawBabePreDigest::Primary { authority_index, slot_number, vrf_output, vrf_proof },
        ) ==> {
            &&& input@[0] == 1
            &&& spells(input@, 1, 4, authority_index as nat)
            &&& spells(input@, 5, 8, slot_number as nat)
            &&& stands(input@, 13, vrf_output@)
            &&& stands(input@, 45, vrf_proof@)
        },
        r matches Some(RawBabePreDigest::Secondary { authority_index, slot_number }) ==> {
            &&& input@[0] == 2
            &&& spells(input@, 1, 4, authority_index as nat)
            &&& spells(input@, 5, 8, slot_number as nat)
        },
{
    law_pre_digest_layout(input@);
    if let Some(digest) = r {
        law_pre_digest_is_seen_whole(digest);
    }
}

/// The pre-digest that is found is that of the first item that holds one which can be read.
pub proof fn law_found_pre_digest(logs: &[DigestItem], r: Option<RawBabePreDigest>, i: int)
    requires
        call_ensures(find_pre_digest, (logs,), r),
    ensures
        0 <= i < logs@.len() && holds_pre_digest(logs@[i]) && (forall|j: int|
            0 <= j < i ==> !holds_pre_digest(#[trigger] logs@[j])) ==> (
        logs@[i] matches DigestItem::PreRuntime(id, data) && r is Some && decoded_pre_digest(data@)
            == Some(r->0@)),
        (forall|j: int| 0 <= j < logs@.len() ==> !holds_pre_digest(#[trigger] logs@[j]))
            ==> r is None,
{
    if 0 <= i < logs@.len() && holds_pre_digest(logs@[i]) && (forall|j: int|
        0 <= j < i ==> !holds_pre_digest(#[trigger] logs@[j])) {
        law_first_readable_pre_digest(logs@, i);
    }
    if forall|j: int| 0 <= j < logs@.len() ==> !holds_pre_digest(#[trigger] logs@[j]) {
        law_no_readable_pre_digest(logs@);
    }
}

/// The author that is found is the one named in the first item of BABE, in a primary slot and in
/// a secondary one.
pub proof fn law_found_author(
    digests: &[(ConsensusEngineId, Vec<u8>)],
    r: Option<u32>,
    i: int,
)
    requires
        call_ensures(Module::find_author, (digests,), r),
    ensures
        0 <= i < digests@.len() && is_babe(digests@[i].0@) && (forall|j: int|
            0 <= j < i ==> !is_babe((#[trigger] digests@[j]).0@)) ==> match decoded_pre_digest(
            digests@[i].1@,
        ) {
            Some(digest) => r == Some(named_author(digest)),
            None => r is None,
        },
        (forall|j: int| 0 <= j < digests@.len() ==> !is_babe((#[trigger] digests@[j]).0@))
            ==> r is None,
{
    if 0 <= i < digests@.len() && is_babe(digests@[i].0@) && (forall|j: int|
        0 <= j < i ==> !is_babe((#[trigger] digests@[j]).0@)) {
        law_author_is_found(digests@, i);
    }
    if forall|j: int| 0 <= j < digests@.len() ==> !is_babe((#[trigger] digests@[j]).0@) {
        law_no_author_without_babe(digests@);
    }
}

/// Whether the evidence supports the claim: the headers differ anywhere, both name the slot, and
/// the authority signed both.
pub open spec fn supports(e: EquivocationProof) -> bool {
    &&& differ(e.first_header.encoded@, e.second_header.encoded@)
    &&& e.first_header.slot == Some(e.slot)
    &&& e.second_header.slot == Some(e.slot)
    &&& sr25519_good(e.first_signature@, e.first_header.hash@, e.identity@)
    &&& sr25519_good(e.second_signature@, e.second_header.hash@, e.identity@)
}

/// Evidence is found valid exactly where it supports the claim.
pub proof fn law_valid_evidence(equivocation: &EquivocationProof, consistent: bool, valid: bool)
    requires
        call_ensures(headers_are_consistent, (equivocation,), consistent),
        call_ensures(equivocation_is_valid, (equivocation,), valid),
    ensures
        consistent <==> differ(
            equivocation.first_header.encoded@,
            equivocation.second_header.encoded@,
        ) && equivocation.first_header.slot == Some(equivocation.slot)
            && equivocation.second_header.slot == Some(equivocation.slot),
        valid <==> supports(*equivocation),
{
    law_equivocation_is_proved(*equivocation);
    if supports(*equivocation) {
        law_equivocation_is_accepted(*equivocation);
    }
}

/// A header names the slot of the first pre-digest in it that can be read.
pub proof fn law_header_names_its_slot(
    encoded: Vec<u8>,
    hash: Vec<u8>,
    logs: &[DigestItem],
    r: Header,
    i: int,
)
    requires
        call_ensures(Header::new, (encoded, hash, logs), r),
    ensures
        r.encoded@ == encoded@,
        r.hash@ == hash@,
        0 <= i < logs@.len() && holds_pre_digest(logs@[i]) && (forall|j: int|
            0 <= j < i ==> !holds_pre_digest(#[trigger] logs@[j])) ==> (
        logs@[i] matches DigestItem::PreRuntime(id, data) && r.slot == Some(
            named_slot(decoded_pre_digest(data@)->0),
        )),
        (forall|j: int| 0 <= j < logs@.len() ==> !holds_pre_digest(#[trigger] logs@[j]))
            ==> r.slot is None,
{
    if 0 <= i < logs@.len() && holds_pre_digest(logs@[i]) && (forall|j: int|
        0 <= j < i ==> !holds_pre_digest(#[trigger] logs@[j])) {
        law_first_readable_pre_digest(logs@, i);
    }
    if forall|j: int| 0 <= j < logs@.len() ==> !holds_pre_digest(#[trigger] logs@[j]) {
        law_no_readable_pre_digest(logs@);
    }
}

/// A signed report with evidence that supports the claim is accepted, and says who reports, the
/// slot and the key of the accused. One without is refused, and so is one that nobody signed.
pub proof fn law_report_is_accepted<T: Trait>(
    origin: RawOrigin<T::AccountId>,
    equivocation: &EquivocationProof,
    r: Result<EquivocationReport<T::AccountId>, DispatchError>,
)
    requires
        call_ensures(Module::report_equivocation::<T>, (origin, equivocation), r),
    ensures
        r is Ok <==> origin is Signed && supports(*equivocation),
        r matches Ok(report) ==> {
            &&& origin == RawOrigin::Signed(report.reporter)
            &&& report.slot == equivocation.slot
            &&& report.key_type@ == seq![98u8, 97, 98, 101]
            &&& report.key@ == equivocation.identity@
        },
        !(origin is Signed) ==> r == Err::<EquivocationReport<T::AccountId>, DispatchError>(
            DispatchError::ExpectedSigned,
        ),
        origin is Signed && !supports(*equivocation) ==> r == Err::<
            EquivocationReport<T::AccountId>,
            DispatchError,
        >(DispatchError::InvalidEquivocation),
{
    law_equivocation_is_proved(*equivocation);
    if supports(*equivocation) {
        law_equivocation_is_accepted(*equivocation);
    }
    law_constants(crate::digests::BABE_ENGINE_ID);
}

/// The offence of a report is that of the owner of the key, in the slot that was reported, in
/// the session and among the validators that the owner's proof is for.
pub proof fn law_offence_of_report<A, F>(
    report: EquivocationReport<A>,
    to_punish: Option<F>,
    session_index: SessionIndex,
    validator_set_count: u32,
    r: Option<OffenceReport<A, F>>,
)
    requires
        call_ensures(
            EquivocationReport::<A>::offence::<F>,
            (report, to_punish, session_index, validator_set_count),
            r,
        ),
    ensures
        r is Some <==> to_punish is Some,
        r matches Some(found) ==> {
            &&& found.reporters@.len() == 1 && found.reporters@[0] == report.reporter
            &&& found.offence.slot == report.slot
            &&& found.offence.session_index == session_index
            &&& found.offence.validator_set_count == validator_set_count
            &&& to_punish == Some(found.offence.offender)
        },
{
}

/// An offence tells what it holds.
pub proof fn law_offence_tells<F>(
    offence: &BabeEquivocationOffence<F>,
    session_index: SessionIndex,
    validator_set_count: u32,
    time_slot: u64,
)
    requires
        call_ensures(BabeEquivocationOffence::<F>::session_index, (offence,), session_index),
        call_ensures(
            BabeEquivocationOffence::<F>::validator_set_count,
            (offence,),
            validator_set_count,
        ),
        call_ensures(BabeEquivocationOffence::<F>::time_slot, (offence,), time_slot),
    ensures
        session_index == offence.session_index,
        validator_set_count == offence.validator_set_count,
        time_slot == offence.slot,
{
}

/// The slash of `k` offenders among `n` validators: three times the one over the other, at most
/// one, in parts per billion and rounded down, then squared and rounded down.
pub proof fn law_slash<F>(k: u32, n: u32, r: Perbill)
    requires
        call_ensures(BabeEquivocationOffence::<F>::slash_fraction, (k, n), r),
    ensures
        ({
            let q: int = if n == 0 {
                1
            } else {
                n as int
            };
            let p: int = if 3 * k > q {
                q
            } else {
                3 * k
            };
            let f = (q + 999_999_999) / 1_000_000_000;
            let x = (p / f) * 1_000_000_000 / (q / f);
            &&& r.parts == x * x / 1_000_000_000
            &&& 3 * k >= n && k > 0 ==> r.parts == 1_000_000_000
        }),
{
    law_slash_to_the_part(k as nat, n as nat);
    if 3 * k >= n && k > 0 {
        crate::laws::law_slash_everything(k as nat, n as nat);
    }
}

/// The transaction that reports an equivocation is made wherever there is a proof and a local
/// key. Its call carries all of the evidence and all of the proof, and what is to be signed, by
/// the first local key, is the call with what goes along and the chain, or its hash where that is
/// longer than 256 bytes.
pub proof fn law_constructed_transaction(
    equivocation: &EquivocationProof,
    owner_proof: Option<&[u8]>,
    local_keys: &[AuthorityId],
    genesis_hash: &[u8],
    r: Option<UnsignedTransaction>,
)
    requires
        call_ensures(
            Module::construct_equivocation_transaction,
            (equivocation, owner_proof, local_keys, genesis_hash),
            r,
        ),
    ensures
        r is Some <==> owner_proof is Some && local_keys@.len() > 0,
        r matches Some(transaction) ==> {
            let call = transaction.call@;
            let first = equivocation.first_header.encoded@;
            let second = equivocation.second_header.encoded@;
            let after = 41 + first.len() as int + second.len();
            let given = owner_proof->0@;
            &&& transaction.reporter@ == local_keys@[0]@
            &&& call.len() == after + 128 + given.len()
            &&& call[0] == 0
            &&& stands(call, 1, equivocation.identity@)
            &&& spells(call, 33, 8, equivocation.slot as nat)
            &&& stands(call, 41, first)
            &&& stands(call, 41 + first.len() as int, second)
            &&& stands(call, after, equivocation.first_signature@)
            &&& stands(call, after + 64, equivocation.second_signature@)
            &&& stands(call, after + 128, given)
            &&& exists|payload: Seq<u8>|
                #![trigger blake2_256_hash(payload)]
                {
                    let n = call.len() as int;
                    &&& payload.len() == n + 3 + 2 * genesis_hash@.len()
                    &&& stands(payload, 0, call)
                    &&& payload[n] == 0 && payload[n + 1] == 0 && payload[n + 2] == 0
                    &&& stands(payload, n + 3, genesis_hash@)
                    &&& stands(payload, n + 3 + genesis_hash@.len(), genesis_hash@)
                    &&& transaction.message@ == (if payload.len() <= 256 {
                        payload
                    } else {
                        blake2_256_hash(payload)
                    })
                }
        },
{
    if let Some(transaction) = r {
        let given = owner_proof->0@;
        let call = transaction.call@;
        let evidence = equivocation.encoded();
        law_evidence_layout(*equivocation);
        law_report_layout(*equivocation, given);
        assert(call == report_call(*equivocation, given));
        lemma_stands_within(call, 1, evidence, 0, equivocation.identity@);
        lemma_spells_within(call, 1, evidence, 32, 8, equivocation.slot as nat);
        let first = equivocation.first_header.encoded@;
        let second = equivocation.second_header.encoded@;
        lemma_stands_within(call, 1, evidence, 40, first);
        lemma_stands_within(call, 1, evidence, 40 + first.len() as int, second);
        let after = 40 + first.len() as int + second.len();
        lemma_stands_within(call, 1, evidence, after, equivocation.first_signature@);
        lemma_stands_within(call, 1, evidence, after + 64, equivocation.second_signature@);
        let payload = transaction_payload(call, genesis_hash@);
        law_payload_layout(call, genesis_hash@);
        law_message_is_payload_or_hash(payload);
        let hash = blake2_256_hash(payload);
    }
}

proof fn lemma_stands_within(outer: Seq<u8>, at: int, inner: Seq<u8>, from: int, part: Seq<u8>)
    requires
        stands(outer, at, inner),
        stands(inner, from, part),
    ensures
        stands(outer, at + from, part),
{
    assert forall|i: int| 0 <= i < part.len() implies outer[at + from + i] == #[trigger] part[i] by {
        assert(inner[from + i] == part[i]);
        assert(outer[at + (from + i)] == inner[from + i]);
    }
}

proof fn lemma_spells_within(
    outer: Seq<u8>,
    at: int,
    inner: Seq<u8>,
    from: int,
    width: nat,
    value: nat,
)
    requires
        stands(outer, at, inner),
        spells(inner, from, width, value),
    ensures
        spells(outer, at + from, width, value),
{
    assert forall|i: nat| #![trigger crate::layout::digit(value, i)] i < width implies outer[at
        + from + i] == crate::layout::digit(value, i) by {
        assert(inner[from + i] == crate::layout::digit(value, i));
        assert(outer[at + (from + i)] == inner[from + i]);
    }
}

/// The transaction that goes out, where the key store gave a signature, ends with the call,
/// whole, behind both lengths, the version, the sender, the signature and what goes along.
pub proof fn law_signed_transaction(
    transaction: UnsignedTransaction,
    maybe_signature: Option<AuthoritySignature>,
    r: Option<Vec<u8>>,
)
    requires
        call_ensures(UnsignedTransaction::sign, (transaction, maybe_signature), r),
    ensures
        r is Some <==> maybe_signature is Some,
        r matches Some(sent) ==> {
            let n = 101 + transaction.call@.len();
            let inner = length_width(n) + n;
            let start = (length_width(inner) + length_width(n)) as int;
            &&& sent@.len() == start + n
            &&& sent@[start] == 132 && sent@[start + 1] == 255
            &&& stands(sent@, start + 2, transaction.reporter@)
            &&& stands(sent@, start + 34, maybe_signature->0@)
            &&& sent@[start + 98] == 0 && sent@[start + 99] == 0 && sent@[start + 100] == 0
            &&& stands(sent@, start + 101, transaction.call@)
        },
{
    if let Some(signature) = maybe_signature {
        law_sent_transaction_ends_with_the_call(
            transaction.reporter@,
            signature@,
            transaction.call@,
        );
    }
}

/// The message that a validator is disabled tells its index, the lowest 32 bits of it.
pub proof fn law_disabled_is_told(i: usize, r: DigestItem)
    requires
        call_ensures(Module::on_disabled, (i,), r),
    ensures
        r matches DigestItem::Consensus(id, data) && is_babe(id@) && data@.len() == 5 && data@[0]
            == 2 && spells(data@, 1, 4, (i as int % 0x1_0000_0000) as nat),
{
    let index = (i as int % 0x1_0000_0000) as nat;
    law_disabled_layout(index);
    law_consensus_item(r, crate::epoch::on_disabled_bytes(index));
}

/// A slot takes twice the minimum period, or the longest time that can be told.
pub proof fn law_slot_duration<T: Trait>(r: T::Moment)
    requires
        call_ensures(Module::slot_duration::<T>, (), r),
    ensures
        ({
            let twice = 2 * T::MinimumPeriod::value().millis();
            r.millis() == (if twice <= T::Moment::limit() {
                twice
            } else {
                T::Moment::limit()
            })
        }),
{
    law_slot_takes_twice_the_period(T::MinimumPeriod::value().millis(), T::Moment::limit());
}

/// A timestamp is accepted exactly where it lies in the slot that the inherent data tells, as
/// far as slots can be numbered; any other call is none of BABE's business.
pub proof fn law_checked_inherent<T: Trait>(
    call: &TimestampCall<T::Moment>,
    data: &InherentData,
    r: Result<(), InherentError>,
)
    requires
        call_ensures(Module::check_inherent::<T>, (call, data), r),
        T::MinimumPeriod::value().millis() > 0,
    ensures
        call is Other ==> r is Ok,
        *call matches TimestampCall::SetMoment(timestamp) ==> {
            let twice = 2 * T::MinimumPeriod::value().millis();
            let length = if twice <= T::Moment::limit() {
                twice
            } else {
                T::Moment::limit()
            };
            let t = timestamp.millis();
            match stored_number(inherent_entries(*data), seq![98u8, 97, 98, 101, 115, 108, 111, 116]) {
                Stored::Missing => r matches Err(InherentError::NotFound),
                Stored::Unreadable => r matches Err(InherentError::Unreadable(_)),
                Stored::Value(seal) => {
                    &&& r is Err ==> r->Err_0 is SlotMismatch
                    &&& t < 0x1_0000_0000_0000_0000 * length ==> (r is Ok <==> seal * length <= t < (
                    seal + 1) * length)
                    &&& t >= 0x1_0000_0000_0000_0000 * length ==> (r is Ok <==> seal == u64::MAX)
                },
            }
        },
{
    law_constants(crate::digests::BABE_ENGINE_ID);
    let period = T::MinimumPeriod::value().millis();
    let limit = T::Moment::limit();
    law_slot_takes_twice_the_period(period, limit);
    T::MinimumPeriod::value().lemma_in_range();
    let length = slot_length(period, limit);
    if let TimestampCall::SetMoment(timestamp) = *call {
        let t = timestamp.millis();
        law_timestamp_lies_in_its_slot(t, length);
        let slot = crate::module::slot_at(t, length);
        if let Stored::Value(seal) = stored_number(inherent_entries(*data), INHERENT_IDENTIFIER@) {
            if seal * length <= t < (seal + 1) * length && slot * length <= t < (slot + 1)
                * length {
                assert(seal == slot) by (nonlinear_arith)
                    requires
                        seal * length <= t < (seal + 1) * length,
                        slot * length <= t < (slot + 1) * length,
                        length > 0,
                ;
            }
        }
    }
}

/// The slot that is provided is the one that the timestamp of the block lies in, and it is read
/// back where it was put. It is provided wherever there is a timestamp and no slot yet.
pub proof fn law_provided_slot(
    provider: &InherentDataProvider,
    data: &mut InherentData,
    timestamp: u64,
    slot: u64,
    r: Result<(), InherentError>,
)
    requires
        call_ensures(InherentDataProvider::provide_inherent_data, (provider, data), r),
        provider.slot_duration > 0,
        stored_number(inherent_entries(*data), seq![116u8, 105, 109, 115, 116, 97, 112, 48])
            == Stored::Value(timestamp),
        slot * provider.slot_duration <= timestamp < (slot + 1) * provider.slot_duration,
    ensures
        ({
            let babe = seq![98u8, 97, 98, 101, 115, 108, 111, 116];
            &&& r is Ok <==> !inherent_entries(*old(data)).contains_key(babe)
            &&& r is Ok ==> stored_number(inherent_entries(*final(data)), babe) == Stored::Value(slot)
            &&& r is Err ==> inherent_entries(*final(data)) == inherent_entries(*old(data))
        }),
{
    law_constants(crate::digests::BABE_ENGINE_ID);
    let d = provider.slot_duration;
    let q = timestamp / d;
    assert(q == slot) by (nonlinear_arith)
        requires
            q == timestamp / d,
            d > 0,
            slot * d <= timestamp < (slot + 1) * d,
    ;
    law_inherent_read_back(
        inherent_entries(*old(data)),
        INHERENT_IDENTIFIER@,
        slot,
        TIMESTAMP_IDENTIFIER@,
    );
}

/// A key is a member's exactly where it is in the list of authorities.
pub proof fn law_membership(module: &Module, key: &AuthorityId, r: bool)
    requires
        call_ensures(Module::is_member, (module, key), r),
    ensures
        r <==> exists|i: int|
            0 <= i < module.authorities@.len() && (#[trigger] module.authorities@[i]).0@ == key@,
{
    law_module_is_seen_whole(*module);
    if exists|i: int|
        0 <= i < module.authorities@.len() && (#[trigger] module.authorities@[i]).0@ == key@ {
        let i = choose|i: int|
            0 <= i < module.authorities@.len() && (#[trigger] module.authorities@[i]).0@ == key@;
        law_members_are_listed(module@, *key, i);
    } else {
        law_members_are_listed(module@, *key, 0);
    }
}

/// What is random is the randomness of the current epoch.
pub proof fn law_random(module: &Module, r: [u8; 32])
    requires
        call_ensures(Module::random, (module,), r),
    ensures
        r@ == module.randomness@,
{
    law_module_is_seen_whole(*module);
}

/// Whether all that a block does not touch is as it was.
pub open spec fn kept_by_blocks(before: Module, after: Module) -> bool {
    &&& after.epoch_index == before.epoch_index
    &&& after.authorities@ == before.authorities@
    &&& after.secondary_slots == before.secondary_slots
    &&& after.pending_secondary_slots_change == before.pending_secondary_slots_change
    &&& after.randomness@ == before.randomness@
    &&& after.next_randomness@ == before.next_randomness@
}

/// Whether the randomness under construction is as it was.
pub open spec fn same_outputs(before: Module, after: Module) -> bool {
    &&& after.segment_index == before.segment_index
    &&& after@.under_construction == before@.under_construction
}

/// A block is taken in the first time that initialization is called in it: the slot is the one
/// that its first readable pre-digest names, the first epoch starts there if none has started,
/// and the VRF output of a primary slot comes last of those collected.
pub proof fn law_initialized_block(
    module: &mut Module,
    logs: &[DigestItem],
    i: int,
    digest: PreDigest,
)
    requires
        call_ensures(Module::do_initialize, (module, logs), ()) || call_ensures(
            Module::on_initialize,
            (module, logs),
            (),
        ),
        module.initialized != Some(true),
        0 <= i < logs@.len(),
        logs@[i] matches DigestItem::PreRuntime(id, data) && is_babe(id@) && decoded_pre_digest(
            data@,
        ) == Some(digest),
        forall|j: int| 0 <= j < i ==> !holds_pre_digest(#[trigger] logs@[j]),
    ensures
        final(module).initialized == Some(true),
        final(module).current_slot == named_slot(digest),
        final(module).epoch_start_slot == (if old(module).epoch_start_slot == 0 {
            named_slot(digest)
        } else {
            old(module).epoch_start_slot
        }),
        kept_by_blocks(*old(module), *final(module)),
        digest is Secondary ==> same_outputs(*old(module), *final(module)),
        digest matches PreDigest::Primary { vrf_output, .. } ==> (old(module)@.has_room()
            ==> final(module)@.vrf_outputs() == old(module)@.vrf_outputs().push(vrf_output)),
{
    law_module_is_seen_whole(*old(module));
    law_module_is_seen_whole(*final(module));
    law_first_readable_pre_digest(logs@, i);
    law_block_is_taken_in(old(module)@, logs@, digest);
}

/// A block without a readable pre-digest is only marked, and one that has been taken in changes
/// nothing more.
pub proof fn law_initialized_block_without(module: &mut Module, logs: &[DigestItem])
    requires
        call_ensures(Module::do_initialize, (module, logs), ()) || call_ensures(
            Module::on_initialize,
            (module, logs),
            (),
        ),
        module.initialized == Some(true) || forall|j: int|
            0 <= j < logs@.len() ==> !holds_pre_digest(#[trigger] logs@[j]),
    ensures
        final(module).initialized == Some(true),
        final(module).current_slot == old(module).current_slot,
        final(module).epoch_start_slot == old(module).epoch_start_slot,
        kept_by_blocks(*old(module), *final(module)),
        same_outputs(*old(module), *final(module)),
{
    law_module_is_seen_whole(*old(module));
    law_module_is_seen_whole(*final(module));
    law_block_is_left_alone(old(module)@, logs@);
    if old(module).initialized != Some(true) {
        law_no_readable_pre_digest(logs@);
    }
}

/// The session should end once the current slot is an epoch past the start of the current one,
/// the block having been taken in.
pub proof fn law_session_ends_in_time<T: Trait>(module: &mut Module, logs: &[DigestItem], r: bool)
    requires
        call_ensures(Module::should_end_session::<T>, (module, logs), r),
    ensures
        final(module)@ == old(module)@.initialize(logs@),
        final(module).initialized == Some(true),
        T::EpochDuration::value() > 0 ==> (r <==> final(module).current_slot
            >= final(module).epoch_start_slot + T::EpochDuration::value()),
        T::EpochDuration::value() == 0 ==> r,
{
    law_module_is_seen_whole(*old(module));
    law_module_is_seen_whole(*final(module));
    law_block_is_left_alone(old(module)@, logs@);
    law_epoch_is_over_in_time(final(module)@, T::EpochDuration::value());
    if old(module).initialized != Some(true) {
        if let Some(digest) = crate::digests::first_pre_digest(logs@) {
            law_block_is_taken_in(old(module)@, logs@, digest);
        }
    }
}

/// Finalizing a block takes the mark off that it has been taken in, and changes nothing else.
pub proof fn law_finalized_block(module: &mut Module)
    requires
        call_ensures(Module::on_finalize, (module,), ()),
    ensures
        final(module).initialized is None,
        final(module).current_slot == old(module).current_slot,
        final(module).epoch_start_slot == old(module).epoch_start_slot,
        kept_by_blocks(*old(module), *final(module)),
        same_outputs(*old(module), *final(module)),
{
    law_module_is_seen_whole(*old(module));
    law_module_is_seen_whole(*final(module));
    law_finalize_takes_the_mark_off(old(module)@);
}

/// A deposited VRF output comes last of those collected, and nothing else changes.
pub proof fn law_deposited_output(module: &mut Module, vrf_output: &[u8; 32])
    requires
        call_ensures(Module::deposit_vrf_output, (module, vrf_output), ()),
        module@.has_room(),
    ensures
        final(module)@.vrf_outputs() == old(module)@.vrf_outputs().push(vrf_output@),
        final(module).initialized == old(module).initialized,
        final(module).current_slot == old(module).current_slot,
        final(module).epoch_start_slot == old(module).epoch_start_slot,
        kept_by_blocks(*old(module), *final(module)),
{
    law_module_is_seen_whole(*old(module));
    law_module_is_seen_whole(*final(module));
    law_deposit_appends(old(module)@, vrf_output@);
    crate::behaviour::law_deposit_fills_segments(old(module)@, vrf_output@);
}

proof fn lemma_outputs_are_32(module: Module)
    ensures
        forall|k: u32, j: int|
            #![trigger module@.segment(k)[j]]
            0 <= j < module@.segment(k).len() ==> module@.segment(k)[j].len() == 32,
        forall|j: int|
            0 <= j < module@.vrf_outputs().len() ==> (#[trigger] module@.vrf_outputs()[j]).len()
                == 32,
{
    law_module_is_seen_whole(module);
    lemma_outputs_in_32(module, (module.segment_index + 1) as nat);
}

proof fn lemma_outputs_in_32(module: Module, count: nat)
    requires
        count <= 0x1_0000_0000,
    ensures
        forall|j: int|
            0 <= j < crate::state::outputs_in(module@.under_construction, count).len() ==> (
            #[trigger] crate::state::outputs_in(module@.under_construction, count)[j]).len() == 32,
    decreases count,
{
    if count > 0 {
        let below = (count - 1) as nat;
        lemma_outputs_in_32(module, below);
        let map = module@.under_construction;
        let front = crate::state::outputs_in(map, below);
        let last = crate::state::segment_in(map, below as u32);
        let all = crate::state::outputs_in(map, count);
        assert(all == front + last);
        assert forall|j: int| 0 <= j < all.len() implies (#[trigger] all[j]).len() == 32 by {
            if j < front.len() {
                assert(all[j] == front[j]);
            } else {
                assert(all[j] == last[j - front.len()]);
                let k = below as u32;
                assert(map.contains_key(k));
                assert(map[k][j - front.len()] == module.under_construction@[k]@[j
                    - front.len()]@);
            }
        }
    }
}

/// A change of randomness hands out the randomness that was computed before, computes the next
/// from it, the index and all VRF outputs collected, and starts over with the first segment.
pub proof fn law_changed_randomness(module: &mut Module, next_epoch_index: u64, r: [u8; 32])
    requires
        call_ensures(Module::randomness_change_epoch, (module, next_epoch_index), r),
    ensures
        r@ == old(module).next_randomness@,
        hashes_all(
            final(module).next_randomness@,
            old(module).next_randomness@,
            next_epoch_index as nat,
            old(module)@.vrf_outputs(),
        ),
        final(module).segment_index == 0,
        forall|k: u32|
            k <= old(module).segment_index
                ==> !#[trigger] final(module).under_construction@.contains_key(k),
        final(module).epoch_index == old(module).epoch_index,
        final(module).authorities@ == old(module).authorities@,
        final(module).epoch_start_slot == old(module).epoch_start_slot,
        final(module).current_slot == old(module).current_slot,
        final(module).secondary_slots == old(module).secondary_slots,
        final(module).pending_secondary_slots_change == old(module).pending_secondary_slots_change,
        final(module).randomness@ == old(module).randomness@,
        final(module).initialized == old(module).initialized,
{
    law_module_is_seen_whole(*old(module));
    law_module_is_seen_whole(*final(module));
    lemma_outputs_are_32(*old(module));
    law_randomness_of_all_outputs(old(module)@, next_epoch_index);
    let after = *final(module);
    assert forall|k: u32|
        k <= old(module).segment_index implies !#[trigger] after.under_construction@.contains_key(
        k,
    ) by {
        assert(!after@.under_construction.contains_key(k));
    }
}

/// A new session moves to the next epoch, field by field: the index, the authorities, where it
/// starts, its randomness, that of the epoch after it, and the secondary slots of both.
pub proof fn law_begun_session<T: Trait>(
    module: &mut Module,
    changed: bool,
    validators: &[(T::AccountId, AuthorityId)],
    queued_validators: &[(T::AccountId, AuthorityId)],
    r: DigestItem,
)
    requires
        call_ensures(
            Module::on_new_session::<T>,
            (module, changed, validators, queued_validators),
            r,
        ),
        T::EpochDuration::value() > 0,
        module.epoch_index + 2 <= u64::MAX,
    ensures
        final(module).epoch_index == old(module).epoch_index + 1,
        final(module).authorities@.len() == validators@.len(),
        forall|i: int|
            0 <= i < validators@.len() ==> #[trigger] final(module).authorities@[i] == (
                validators@[i].1,
                1u64,
            ),
        ({
            let d = T::EpochDuration::value() as int;
            let start = final(module).epoch_start_slot;
            let before = old(module).epoch_start_slot;
            let now = old(module).current_slot;
            &&& (start - before) % d == 0
            &&& before <= now ==> start <= now < start + d
            &&& before > now ==> start == before
        }),
        final(module).randomness@ == old(module).next_randomness@,
        hashes_all(
            final(module).next_randomness@,
            old(module).next_randomness@,
            (old(module).epoch_index + 2) as nat,
            old(module)@.vrf_outputs(),
        ),
        final(module).segment_index == 0,
        forall|k: u32|
            k <= old(module).segment_index
                ==> !#[trigger] final(module).under_construction@.contains_key(k),
        final(module).secondary_slots.0 == old(module).secondary_slots.1,
        final(module).secondary_slots.1 == (match old(module).pending_secondary_slots_change {
            Some(change) => change,
            None => old(module).secondary_slots.1,
        }),
        final(module).pending_secondary_slots_change is None,
        final(module).current_slot == old(module).current_slot,
        final(module).initialized == old(module).initialized,
{
    let before = old(module)@;
    let duration = T::EpochDuration::value();
    let keys = session_keys(validators@);
    law_module_is_seen_whole(*old(module));
    law_module_is_seen_whole(*final(module));
    law_session_keys(validators@);
    law_session_moves_on(before, duration, keys);
    law_epoch_start(before, duration, keys);
    law_epoch_is_over_in_time(before, duration);
    lemma_outputs_are_32(*old(module));
    law_randomness_of_all_outputs(before, (before.epoch_index + 2) as u64);
    let after = *final(module);
    assert forall|k: u32|
        k <= old(module).segment_index implies !#[trigger] after.under_construction@.contains_key(
        k,
    ) by {
        assert(!after@.under_construction.contains_key(k));
    }
}

/// Whether `item` announces the epoch after the one that `module` is in, with `keys` for its
/// authorities, in a runtime whose epochs take `duration` slots.
pub open spec fn announces(
    item: DigestItem,
    module: Module,
    duration: u64,
    keys: Seq<AuthorityId>,
) -> bool {
    &&& item matches DigestItem::Consensus(id, data)
    &&& is_babe(id@)
    &&& ({
        let bytes = data@;
        let n = keys.len();
        let list = 25 + length_width(n) as int;
        let start = module.epoch_start_slot + duration;
        &&& bytes.len() == list + 40 * n + 33
        &&& bytes[0] == 1
        &&& spells(bytes, 1, 8, (module.epoch_index + 1) as nat)
        &&& spells(
            bytes,
            9,
            8,
            if start <= u64::MAX {
                start as nat
            } else {
                u64::MAX as nat
            },
        )
        &&& spells(bytes, 17, 8, duration as nat)
        &&& forall|i: int|
            #![trigger keys[i]]
            0 <= i < n ==> stands(bytes, list + 40 * i, keys[i]@) && spells(
                bytes,
                list + 40 * i + 32,
                8,
                1,
            )
        &&& stands(bytes, list + 40 * n, module.next_randomness@)
        &&& bytes.last() == (if module.secondary_slots.1 {
            1u8
        } else {
            0u8
        })
    })
}

proof fn lemma_announces(item: DigestItem, module: Module, duration: u64, keys: Seq<AuthorityId>)
    requires
        module.epoch_index + 1 <= u64::MAX,
        crate::module::is_consensus_item(
            item,
            crate::epoch::next_epoch_bytes(module@.next_epoch(duration, keys)),
        ),
    ensures
        announces(item, module, duration, keys),
{
    let announced = module@.next_epoch(duration, keys);
    law_module_is_seen_whole(module);
    law_announced_epoch(module@, duration, keys);
    law_announcement_layout(announced);
    law_consensus_item(item, crate::epoch::next_epoch_bytes(announced));
    let bytes = crate::epoch::next_epoch_bytes(announced);
    let n = keys.len();
    let list = 25 + length_width(n) as int;
    assert forall|i: int| #![trigger keys[i]] 0 <= i < n implies stands(
        bytes,
        list + 40 * i,
        keys[i]@,
    ) && spells(bytes, list + 40 * i + 32, 8, 1) by {
        assert(announced.authorities[i] == (keys[i], 1u64));
    }
}

/// A new session announces the epoch after the one that it starts: its index, where it starts,
/// how long it lasts, the queued validators with weight one, its randomness and whether it has
/// secondary slots.
pub proof fn law_announced_by_session<T: Trait>(
    module: &mut Module,
    changed: bool,
    validators: &[(T::AccountId, AuthorityId)],
    queued_validators: &[(T::AccountId, AuthorityId)],
    r: DigestItem,
)
    requires
        call_ensures(
            Module::on_new_session::<T>,
            (module, changed, validators, queued_validators),
            r,
        ),
        T::EpochDuration::value() > 0,
        module.epoch_index + 2 <= u64::MAX,
    ensures
        announces(
            r,
            *final(module),
            T::EpochDuration::value(),
            Seq::new(queued_validators@.len(), |i: int| queued_validators@[i].1),
        ),
{
    let keys = session_keys(queued_validators@);
    law_begun_session::<T>(module, changed, validators, queued_validators, r);
    law_session_keys(queued_validators@);
    assert(keys =~= Seq::new(queued_validators@.len(), |i: int| queued_validators@[i].1));
    lemma_announces(r, *final(module), T::EpochDuration::value(), keys);
}

/// Entering an epoch sets its randomness, moves the secondary slots on and announces the next
/// one, and changes nothing else.
pub proof fn law_entered_epoch<T: Trait>(
    module: &mut Module,
    randomness: [u8; 32],
    queued_validators: &[(T::AccountId, AuthorityId)],
    r: DigestItem,
)
    requires
        call_ensures(Module::enter_epoch::<T>, (module, randomness, queued_validators), r),
        module.epoch_index + 1 <= u64::MAX,
    ensures
        final(module).randomness@ == randomness@,
        final(module).secondary_slots.0 == old(module).secondary_slots.1,
        final(module).secondary_slots.1 == (match old(module).pending_secondary_slots_change {
            Some(change) => change,
            None => old(module).secondary_slots.1,
        }),
        final(module).pending_secondary_slots_change is None,
        final(module).epoch_index == old(module).epoch_index,
        final(module).authorities@ == old(module).authorities@,
        final(module).epoch_start_slot == old(module).epoch_start_slot,
        final(module).current_slot == old(module).current_slot,
        final(module).next_randomness@ == old(module).next_randomness@,
        final(module).initialized == old(module).initialized,
        same_outputs(*old(module), *final(module)),
        announces(
            r,
            *final(module),
            T::EpochDuration::value(),
            Seq::new(queued_validators@.len(), |i: int| queued_validators@[i].1),
        ),
{
    let keys = session_keys(queued_validators@);
    law_module_is_seen_whole(*old(module));
    law_module_is_seen_whole(*final(module));
    law_session_keys(queued_validators@);
    assert(keys =~= Seq::new(queued_validators@.len(), |i: int| queued_validators@[i].1));
    lemma_announces(r, *final(module), T::EpochDuration::value(), keys);
}

/// The authorities are set to those given, or, where none are given, stay.
pub proof fn law_initialized_authorities(
    module: &mut Module,
    authorities: &[(AuthorityId, BabeAuthorityWeight)],
)
    requires
        call_ensures(Module::initialize_authorities, (module, authorities), ()),
    ensures
        authorities@.len() > 0 ==> final(module).authorities@ == authorities@,
        authorities@.len() == 0 ==> final(module).authorities@ == old(module).authorities@,
        final(module)@ == (State { authorities: final(module)@.authorities, ..old(module)@ }),
{
    law_module_is_seen_whole(*old(module));
    law_module_is_seen_whole(*final(module));
}

/// The first session sets the authorities to its validators, each with weight one.
pub proof fn law_genesis_session<T: Trait>(
    module: &mut Module,
    validators: &[(T::AccountId, AuthorityId)],
)
    requires
        call_ensures(Module::on_genesis_session::<T>, (module, validators), ()),
        validators@.len() > 0,
    ensures
        final(module).authorities@.len() == validators@.len(),
        forall|i: int|
            0 <= i < validators@.len() ==> #[trigger] final(module).authorities@[i] == (
                validators@[i].1,
                1u64,
            ),
        final(module)@ == (State { authorities: final(module)@.authorities, ..old(module)@ }),
{
    law_module_is_seen_whole(*old(module));
    law_module_is_seen_whole(*final(module));
    law_session_keys(validators@);
    assert(final(module)@.authorities == with_weights(session_keys(validators@)));
}

/// Only the system sets a pending change or takes it back; nothing else changes.
pub proof fn law_pending_change_is_set<T: Trait>(
    module: &mut Module,
    origin: RawOrigin<T::AccountId>,
    change: Option<bool>,
    r: Result<(), DispatchError>,
)
    requires
        call_ensures(
            Module::set_pending_secondary_slots_change::<T>,
            (module, origin, change),
            r,
        ),
    ensures
        r is Ok <==> origin is Root,
        r is Err ==> r == Err::<(), DispatchError>(DispatchError::ExpectedRoot),
        final(module).pending_secondary_slots_change == (if origin is Root {
            change
        } else {
            old(module).pending_secondary_slots_change
        }),
        final(module)@ == (State {
            pending_secondary_slots_change: final(module)@.pending_secondary_slots_change,
            ..old(module)@
        }),
{
    law_module_is_seen_whole(*old(module));
    law_module_is_seen_whole(*final(module));
}

/// The state before the first block has the given authorities; all else is zero, and secondary
/// slots are enabled.
pub proof fn law_genesis_module(authorities: &[(AuthorityId, BabeAuthorityWeight)], r: Module)
    requires
        call_ensures(Module::genesis, (authorities,), r),
    ensures
        r.authorities@ == authorities@,
        r.epoch_index == 0,
        r.epoch_start_slot == 0,
        r.current_slot == 0,
        r.secondary_slots == (true, true),
        r.pending_secondary_slots_change is None,
        forall|i: int| 0 <= i < 32 ==> #[trigger] r.randomness@[i] == 0,
        forall|i: int| 0 <= i < 32 ==> #[trigger] r.next_randomness@[i] == 0,
        r.segment_index == 0,
        forall|k: u32| !#[trigger] r.under_construction@.contains_key(k),
        r.initialized is None,
{
    law_module_is_seen_whole(r);
    law_genesis_values();
    assert forall|k: u32| !#[trigger] r.under_construction@.contains_key(k) by {
        assert(!r@.under_construction.contains_key(k));
    }
    assert(r.randomness@ == zero_randomness());
    assert(r.next_randomness@ == zero_randomness());
}

/// The constants of the runtime are told as they are.
pub proof fn law_constants_are_told<T: Trait>(duration: u64, block_time: T::Moment)
    requires
        call_ensures(Module::epoch_duration::<T>, (), duration),
        call_ensures(Module::expected_block_time::<T>, (), block_time),
    ensures
        duration == T::EpochDuration::value(),
        block_time == T::ExpectedBlockTime::value(),
{
}

/// BABE puts no call into a block on its own, and does nothing when the timestamp is set.
pub proof fn law_nothing_is_done<T: Trait>(
    data: &InherentData,
    r: Option<TimestampCall<T::Moment>>,
    module: &mut Module,
    moment: T::Moment,
)
    requires
        call_ensures(Module::create_inherent::<T>, (data,), r),
        call_ensures(Module::on_timestamp_set::<T>, (module, moment), ()),
    ensures
        r is None,
        final(module)@ == old(module)@,
{
}

/// The slot that is read from inherent data is the one that its bytes spell.
pub proof fn law_read_slot(data: &InherentData, r: Result<u64, InherentError>)
    requires
        call_ensures(<InherentData as BabeInherentData>::babe_inherent_data, (data,), r),
    ensures
        ({
            let entries = inherent_entries(*data);
            let babe = seq![98u8, 97, 98, 101, 115, 108, 111, 116];
            &&& r is Ok <==> entries.contains_key(babe) && entries[babe].len() >= 8
            &&& r matches Ok(slot) ==> spells(entries[babe], 0, 8, slot as nat)
            &&& !entries.contains_key(babe) ==> r is Err && r->Err_0 is NotFound
            &&& entries.contains_key(babe) && entries[babe].len() < 8 ==> r is Err
                && r->Err_0 is Unreadable
        }),
{
    law_constants(crate::digests::BABE_ENGINE_ID);
    law_inherent_layout(inherent_entries(*data), INHERENT_IDENTIFIER@);
}

/// A slot that replaces another is the one that is read, and all other data stays.
pub proof fn law_replaced_slot(data: &mut InherentData, new: u64, other: Seq<u8>)
    requires
        call_ensures(<InherentData as BabeInherentData>::babe_replace_inherent_data, (data, new), ()),
    ensures
        ({
            let before = inherent_entries(*old(data));
            let after = inherent_entries(*final(data));
            let babe = seq![98u8, 97, 98, 101, 115, 108, 111, 116];
            &&& stored_number(after, babe) == Stored::Value(new)
            &&& after.contains_key(babe) && after[babe].len() == 8
            &&& other != babe ==> (after.contains_key(other) <==> before.contains_key(other)) && (
            before.contains_key(other) ==> after[other] == before[other])
        }),
{
    law_constants(crate::digests::BABE_ENGINE_ID);
    law_inherent_read_back(inherent_entries(*old(data)), INHERENT_IDENTIFIER@, new, other);
    lemma_le_bytes_len(new as nat, 8);
}

/// An error that is encoded as a text is told as that text, and nothing else is told as one.
pub proof fn law_told_error(
    provider: &InherentDataProvider,
    error: &[u8],
    r: Option<String>,
    text: Seq<char>,
    rest: Seq<u8>,
)
    requires
        call_ensures(InherentDataProvider::error_to_string, (provider, error), r),
    ensures
        encode_utf8(text).len() <= u32::MAX && error@ == prefixed_bytes(encode_utf8(text)) + rest
            ==> r is Some && r->0@ == text,
        r matches Some(told) ==> stands(error@, 0, prefixed_bytes(encode_utf8(told@))),
{
    if encode_utf8(text).len() <= u32::MAX && error@ == prefixed_bytes(encode_utf8(text)) + rest {
        law_error_read_back(text, rest);
    }
    if let Some(told) = r {
        law_only_encoded_texts_are_read(error@, told@);
    }
}

/// The provider keeps its slot duration, provides the slot under its name, and asks for the
/// timestamp provider where that is missing.
pub proof fn law_provider(
    slot_duration: u64,
    provider: InherentDataProvider,
    identifier: InherentIdentifier,
    registered: bool,
    register: bool,
)
    requires
        call_ensures(InherentDataProvider::new, (slot_duration,), provider),
        call_ensures(InherentDataProvider::inherent_identifier, (&provider,), identifier),
        call_ensures(InherentDataProvider::on_register, (&provider, registered), register),
    ensures
        provider.slot_duration == slot_duration,
        identifier@ == seq![98u8, 97, 98, 101, 115, 108, 111, 116],
        register <==> !registered,
{
    law_constants(crate::digests::BABE_ENGINE_ID);
}

/// What is signed for a payload is the payload, or its hash where it is longer than 256 bytes.
pub proof fn law_message_to_sign(payload: &[u8], r: Vec<u8>)
    requires
        call_ensures(message_to_sign, (payload,), r),
    ensures
        payload@.len() <= 256 ==> r@ == payload@,
        payload@.len() > 256 ==> r@ == blake2_256_hash(payload@),
{
    law_message_is_payload_or_hash(payload@);
}

/// The owner that is asked for is that of the accused's key.
pub proof fn law_owner_is_asked_for(
    equivocation: &EquivocationProof,
    r: ([u8; 4], Vec<u8>),
)
    requires
        call_ensures(EquivocationProof::key_owner, (equivocation,), r),
    ensures
        r.0@ == seq![98u8, 97, 98, 101],
        r.1@ == equivocation.identity@,
{
    law_constants(crate::digests::BABE_ENGINE_ID);
}

/// A pre-digest tells the author and the slot that it holds.
pub proof fn law_pre_digest_tells(digest: &RawBabePreDigest, author: u32, slot: u64)
    requires
        call_ensures(RawBabePreDigest::authority_index, (digest,), author),
        call_ensures(RawBabePreDigest::slot_number, (digest,), slot),
    ensures
        match *digest {
            RawBabePreDigest::Primary { authority_index, slot_number, vrf_output, vrf_proof } =>
                author == authority_index && slot == slot_number,
            RawBabePreDigest::Secondary { authority_index, slot_number } => author
                == authority_index && slot == slot_number,
        },
{
    law_pre_digest_is_seen_whole(*digest);
}

/// A message goes out under the name of BABE, as it is encoded.
pub proof fn law_deposited_message(log: &ConsensusLog, encoded: Vec<u8>, r: DigestItem)
    requires
        call_ensures(ConsensusLog::encode, (log,), encoded),
        call_ensures(Module::deposit_consensus, (log,), r),
    ensures
        r matches DigestItem::Consensus(id, data) && is_babe(id@) && data@ == encoded@,
        log matches ConsensusLog::OnDisabled(index) ==> encoded@.len() == 5 && encoded@[0] == 2
            && spells(encoded@, 1, 4, index as nat),
        log matches ConsensusLog::NextEpochData(epoch) ==> {
            let n = epoch.authorities@.len();
            let list = 25 + length_width(n) as int;
            &&& encoded@.len() == list + 40 * n + 33
            &&& encoded@[0] == 1
            &&& spells(encoded@, 1, 8, epoch.epoch_index as nat)
            &&& spells(encoded@, 9, 8, epoch.start_slot as nat)
            &&& spells(encoded@, 17, 8, epoch.duration as nat)
            &&& forall|i: int|
                #![trigger epoch.authorities@[i]]
                0 <= i < n ==> stands(encoded@, list + 40 * i, epoch.authorities@[i].0@) && spells(
                    encoded@,
                    list + 40 * i + 32,
                    8,
                    epoch.authorities@[i].1 as nat,
                )
            &&& stands(encoded@, list + 40 * n, epoch.randomness@)
            &&& encoded@.last() == (if epoch.secondary_slots {
                1u8
            } else {
                0u8
            })
        },
{
    law_consensus_item(r, log.encoded());
    law_messages_are_told_apart(*log);
    match *log {
        ConsensusLog::OnDisabled(index) => {
            law_disabled_layout(index as nat);
        },
        ConsensusLog::NextEpochData(epoch) => {
            law_epoch_is_seen_whole(epoch);
            law_announcement_layout(epoch@);
        },
    }
}

/// A call is signed by whom it says, and comes from the system where it says so.
pub proof fn law_origins<A>(
    origin: RawOrigin<A>,
    signed: Result<A, DispatchError>,
    root: Result<(), DispatchError>,
)
    requires
        call_ensures(ensure_signed::<A>, (origin,), signed),
        call_ensures(ensure_root::<A>, (origin,), root),
    ensures
        signed is Ok <==> origin is Signed,
        signed matches Ok(who) ==> origin == RawOrigin::Signed(who),
        signed matches Err(error) ==> error is ExpectedSigned,
        root is Ok <==> origin is Root,
        root matches Err(error) ==> error is ExpectedRoot,
{
}

} // verus!
