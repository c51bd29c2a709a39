use babe::randomness::compute_randomness;
use babe::{
    AuthorityId, ConstU128, ConstU32, ConstU64, DigestItem, DispatchError, Module, RawOrigin, Trait, BABE_ENGINE_ID,
};

struct Runtime;

impl Trait for Runtime {
    type EpochDuration = ConstU64<3>;
    type Moment = u64;
    type ExpectedBlockTime = ConstU64<6000>;
    type MinimumPeriod = ConstU64<5>;
    type AccountId = u64;
    type IdentificationTuple = u64;
}

struct Slow;

impl Trait for Slow {
    type EpochDuration = ConstU64<0>;
    type Moment = u64;
    type ExpectedBlockTime = ConstU64<1>;
    type MinimumPeriod = ConstU64<{ u64::MAX / 2 + 1 }>;
    type AccountId = u64;
    type IdentificationTuple = u64;
}

const AFTER_SEVENS_AND_NINES: [u8; 32] = [
    109, 3, 161, 173, 16, 215, 49, 74, 199, 114, 99, 242, 220, 242, 7, 70, 249, 18, 137, 176, 18,
    142, 75, 124, 202, 69, 16, 51, 9, 44, 254, 135,
];

const AFTER_NOTHING: [u8; 32] = [
    2, 232, 2, 244, 166, 226, 138, 102, 132, 237, 9, 130, 42, 88, 216, 122, 74, 210, 211, 143, 83,
    217, 31, 210, 129, 101, 20, 125, 168, 0, 36, 78,
];

fn primary(index: u32, slot: u64, output: u8) -> DigestItem {
    let mut data = vec![1u8];
    data.extend_from_slice(&index.to_le_bytes());
    data.extend_from_slice(&slot.to_le_bytes());
    data.extend_from_slice(&[output; 32]);
    data.extend_from_slice(&[0xff; 64]);
    DigestItem::PreRuntime(BABE_ENGINE_ID, data)
}

fn secondary(index: u32, slot: u64) -> DigestItem {
    let mut data = vec![2u8];
    data.extend_from_slice(&index.to_le_bytes());
    data.extend_from_slice(&slot.to_le_bytes());
    DigestItem::PreRuntime(BABE_ENGINE_ID, data)
}

fn block(module: &mut Module, logs: &[DigestItem]) {
    module.on_initialize(logs);
    module.on_finalize();
}

fn validators(keys: &[u8]) -> Vec<(u64, AuthorityId)> {
    keys.iter().map(|k| (*k as u64, [*k; 32])).collect()
}

#[test]
fn genesis_state() {
    let module = Module::default();
    assert_eq!(module.epoch_index, 0);
    assert_eq!(module.authorities, vec![]);
    assert_eq!(module.epoch_start_slot, 0);
    assert_eq!(module.current_slot, 0);
    assert_eq!(module.secondary_slots, (true, true));
    assert_eq!(module.pending_secondary_slots_change, None);
    assert_eq!(module.random(), [0; 32]);
    assert_eq!(module.next_randomness, [0; 32]);
    assert_eq!(module.segment_index, 0);
    assert!(module.under_construction.is_empty());
    assert_eq!(module.initialized, None);
}

#[test]
fn genesis_with_authorities() {
    let module = Module::genesis(&[([1; 32], 5), ([2; 32], 6)]);
    assert_eq!(module.authorities, vec![([1; 32], 5), ([2; 32], 6)]);
    assert_eq!(Module::genesis(&[]), Module::default());
}

#[test]
fn genesis_session_sets_weights_of_one() {
    let mut module = Module::default();
    module.on_genesis_session::<Runtime>(&[]);
    assert_eq!(module, Module::default());
    module.on_genesis_session::<Runtime>(&validators(&[4, 5]));
    assert_eq!(module.authorities, vec![([4; 32], 1), ([5; 32], 1)]);
}

#[test]
fn first_block_fixes_the_epoch_start() {
    let mut module = Module::default();
    block(&mut module, &[secondary(0, 100)]);
    assert_eq!((module.epoch_start_slot, module.current_slot), (100, 100));
    block(&mut module, &[secondary(0, 101)]);
    assert_eq!((module.epoch_start_slot, module.current_slot), (100, 101));
}

#[test]
fn initialization_is_done_once_per_block() {
    let mut module = Module::default();
    module.do_initialize(&[primary(0, 7, 1)]);
    assert_eq!(module.initialized, Some(true));
    module.do_initialize(&[primary(0, 8, 2)]);
    module.on_initialize(&[primary(0, 9, 3)]);
    assert_eq!(module.current_slot, 7);
    assert_eq!(module.under_construction[&0], vec![[1; 32]]);
    module.on_finalize();
    assert_eq!(module.initialized, None);
    module.on_initialize(&[primary(0, 10, 4)]);
    assert_eq!(module.current_slot, 10);
    assert_eq!(module.under_construction[&0], vec![[1; 32], [4; 32]]);
}

#[test]
fn initialization_passes_over_what_is_not_a_babe_pre_digest() {
    let mut module = Module::default();
    module.do_initialize(&[
        DigestItem::Other(vec![1]),
        DigestItem::ChangesTrieRoot(vec![2]),
        DigestItem::Seal(BABE_ENGINE_ID, vec![2, 0, 0, 0, 0, 9, 0, 0, 0, 0, 0, 0, 0]),
        DigestItem::PreRuntime(*b"aura", vec![2, 0, 0, 0, 0, 9, 0, 0, 0, 0, 0, 0, 0]),
        DigestItem::PreRuntime(BABE_ENGINE_ID, vec![2, 0, 0, 0]),
        DigestItem::PreRuntime(BABE_ENGINE_ID, vec![3, 0, 0, 0, 0, 9, 0, 0, 0, 0, 0, 0, 0]),
        secondary(3, 21),
        primary(3, 22, 1),
    ]);
    assert_eq!(module.current_slot, 21);
    assert!(module.under_construction.is_empty());
}

#[test]
fn block_without_pre_digest_is_only_marked() {
    let mut module = Module::default();
    module.do_initialize(&[]);
    let mut marked = Module::default();
    marked.initialized = Some(true);
    assert_eq!(module, marked);
}

#[test]
fn full_segment_starts_the_next() {
    let mut module = Module::default();
    for i in 0..256u32 {
        module.deposit_vrf_output(&[i as u8; 32]);
    }
    assert_eq!(module.segment_index, 0);
    assert_eq!(module.under_construction[&0].len(), 256);
    module.deposit_vrf_output(&[77; 32]);
    assert_eq!(module.segment_index, 1);
    assert_eq!(module.under_construction[&0].len(), 256);
    assert_eq!(module.under_construction[&0][255], [255; 32]);
    assert_eq!(module.under_construction[&1], vec![[77; 32]]);
}

#[test]
fn randomness_is_a_hash_of_all_outputs() {
    let last = [1u8; 32];
    assert_eq!(
        compute_randomness(&last, 5, &[[2; 32]]),
        [
            212, 151, 216, 146, 17, 183, 17, 181, 71, 232, 245, 97, 85, 217, 214, 111, 195, 145,
            63, 218, 62, 87, 77, 156, 67, 118, 60, 40, 55, 162, 85, 70,
        ]
    );
}

#[test]
fn new_session_uses_up_all_vrf_outputs() {
    let mut module = Module::default();
    block(&mut module, &[primary(0, 1, 7)]);
    block(&mut module, &[secondary(0, 2)]);
    block(&mut module, &[primary(0, 3, 9)]);
    module.on_new_session::<Runtime>(true, &[], &[]);
    assert_eq!(module.random(), [0; 32]);
    assert_eq!(module.next_randomness, AFTER_SEVENS_AND_NINES);
    assert_eq!(module.segment_index, 0);
    assert!(module.under_construction.is_empty());
    module.on_new_session::<Runtime>(true, &[], &[]);
    assert_eq!(module.random(), AFTER_SEVENS_AND_NINES);
    assert_eq!(
        module.next_randomness,
        compute_randomness(&AFTER_SEVENS_AND_NINES, 3, &[])
    );
}

#[test]
fn new_session_uses_up_all_segments() {
    let mut module = Module::default();
    let mut rho = vec![];
    for i in 0..300u32 {
        let output = [(i % 251) as u8; 32];
        module.deposit_vrf_output(&output);
        rho.push(output);
    }
    assert_eq!(module.randomness_change_epoch(9), [0; 32]);
    assert_eq!(module.next_randomness, compute_randomness(&[0; 32], 9, &rho));
    assert_eq!(module.segment_index, 0);
    assert!(module.under_construction.is_empty());
}

#[test]
fn new_session_announces_the_next_epoch() {
    let mut module = Module::default();
    block(&mut module, &[secondary(0, 10)]);
    let item = module.on_new_session::<Runtime>(true, &validators(&[1, 2]), &validators(&[3]));
    assert_eq!(module.epoch_index, 1);
    assert_eq!(module.authorities, vec![([1; 32], 1), ([2; 32], 1)]);
    assert_eq!(module.epoch_start_slot, 10);
    assert_eq!(module.next_randomness, AFTER_NOTHING);

    let mut data = vec![1u8];
    data.extend_from_slice(&2u64.to_le_bytes());
    data.extend_from_slice(&13u64.to_le_bytes());
    data.extend_from_slice(&3u64.to_le_bytes());
    data.push(4);
    data.extend_from_slice(&[3; 32]);
    data.extend_from_slice(&1u64.to_le_bytes());
    data.extend_from_slice(&AFTER_NOTHING);
    data.push(1);
    assert_eq!(item, DigestItem::Consensus(BABE_ENGINE_ID, data));
}

#[test]
fn announced_epoch_comes() {
    let mut module = Module::default();
    block(&mut module, &[primary(0, 10, 1)]);
    module.on_initialize(&[primary(0, 11, 1)]);
    module.on_new_session::<Runtime>(true, &validators(&[1]), &validators(&[2]));
    module.on_finalize();
    let announced = module.next_randomness;
    let announced_start = module.epoch_start_slot + 3;
    block(&mut module, &[primary(0, 12, 2)]);
    module.on_initialize(&[primary(0, 14, 2)]);
    module.on_new_session::<Runtime>(true, &validators(&[2]), &validators(&[3]));
    module.on_finalize();
    assert_eq!(module.epoch_index, 2);
    assert_eq!(module.random(), announced);
    assert_eq!(module.authorities, vec![([2; 32], 1)]);
    assert_eq!(module.epoch_start_slot, announced_start);
    assert_eq!(module.epoch_start_slot, 13);
}

#[test]
fn entering_an_epoch_with_given_randomness() {
    let mut module = Module::default();
    module.next_randomness = [8; 32];
    module.secondary_slots = (true, false);
    let item = module.enter_epoch::<Runtime>([5; 32], &[]);
    assert_eq!(module.random(), [5; 32]);
    assert_eq!(module.next_randomness, [8; 32]);
    assert_eq!(module.secondary_slots, (false, false));
    let mut data = vec![1u8, 1, 0, 0, 0, 0, 0, 0, 0, 3, 0, 0, 0, 0, 0, 0, 0, 3, 0, 0, 0, 0, 0, 0, 0, 0];
    data.extend_from_slice(&[8; 32]);
    data.push(0);
    assert_eq!(item, DigestItem::Consensus(BABE_ENGINE_ID, data));
}

#[test]
fn epoch_start_moves_by_whole_epochs() {
    for (start, now, expected) in [(2, 10, 8), (2, 4, 2), (2, 5, 5), (7, 3, 7), (0, 0, 0), (1, 1000, 1000)] {
        let mut module = Module::default();
        module.epoch_start_slot = start;
        module.current_slot = now;
        module.on_new_session::<Runtime>(false, &[], &[]);
        assert_eq!(module.epoch_start_slot, expected);
        assert!(!module.should_end_session::<Runtime>(&[]));
    }
}

#[test]
fn announced_start_slot_saturates() {
    let mut module = Module::default();
    module.epoch_start_slot = u64::MAX - 1;
    let item = module.on_new_session::<Runtime>(false, &[], &[]);
    match item {
        DigestItem::Consensus(_, data) => assert_eq!(&data[9..17], &[0xff; 8]),
        _ => panic!("no consensus item"),
    }
}

#[test]
fn session_ends_with_the_epoch() {
    let mut module = Module::default();
    block(&mut module, &[secondary(0, 5)]);
    block(&mut module, &[secondary(0, 7)]);
    assert!(!module.should_end_session::<Runtime>(&[]));
    module.on_finalize();
    assert!(module.should_end_session::<Runtime>(&[secondary(0, 8)]));
    assert_eq!(module.current_slot, 8);
    assert_eq!(module.initialized, Some(true));
}

#[test]
fn session_does_not_end_before_its_start() {
    let mut module = Module::default();
    module.epoch_start_slot = 10;
    module.current_slot = 4;
    assert!(!module.should_end_session::<Runtime>(&[]));
    module.on_finalize();
    assert!(module.should_end_session::<Slow>(&[]));
}

#[test]
fn pending_change_is_enacted_after_two_epochs() {
    let mut module = Module::default();
    assert_eq!(
        module.set_pending_secondary_slots_change::<Runtime>(RawOrigin::Root, Some(false)),
        Ok(())
    );
    assert_eq!(module.secondary_slots, (true, true));
    module.on_new_session::<Runtime>(true, &[], &[]);
    assert_eq!(module.secondary_slots, (true, false));
    assert_eq!(module.pending_secondary_slots_change, None);
    module.on_new_session::<Runtime>(true, &[], &[]);
    assert_eq!(module.secondary_slots, (false, false));
}

#[test]
fn pending_change_can_be_taken_back() {
    let mut module = Module::default();
    module
        .set_pending_secondary_slots_change::<Runtime>(RawOrigin::Root, Some(false))
        .unwrap();
    module
        .set_pending_secondary_slots_change::<Runtime>(RawOrigin::Root, None)
        .unwrap();
    module.on_new_session::<Runtime>(true, &[], &[]);
    assert_eq!(module.secondary_slots, (true, true));
}

#[test]
fn only_root_sets_a_pending_change() {
    for origin in [RawOrigin::Signed(1), RawOrigin::Unsigned] {
        let mut module = Module::default();
        let r = module.set_pending_secondary_slots_change::<Runtime>(origin, Some(false));
        assert_eq!(r, Err(DispatchError::ExpectedRoot));
        assert_eq!(module, Module::default());
    }
    assert_eq!(
        DispatchError::ExpectedRoot.message(),
        "bad origin: expected to be a root origin"
    );
}

#[test]
fn author_is_told_by_the_first_babe_item() {
    let good = vec![2u8, 9, 0, 0, 0, 1, 0, 0, 0, 0, 0, 0, 0];
    let other = vec![2u8, 8, 0, 0, 0, 1, 0, 0, 0, 0, 0, 0, 0];
    assert_eq!(Module::find_author(&[]), None);
    assert_eq!(Module::find_author(&[(*b"aura", good.clone())]), None);
    assert_eq!(
        Module::find_author(&[
            (*b"aura", other.clone()),
            (BABE_ENGINE_ID, good.clone()),
            (BABE_ENGINE_ID, other),
        ]),
        Some(9)
    );
    assert_eq!(
        Module::find_author(&[(BABE_ENGINE_ID, vec![1, 2, 3]), (BABE_ENGINE_ID, good)]),
        None
    );
}

#[test]
fn members_are_the_authorities() {
    let mut module = Module::default();
    assert!(!module.is_member(&[1; 32]));
    module.on_new_session::<Runtime>(true, &validators(&[1, 2]), &[]);
    assert!(module.is_member(&[1; 32]));
    assert!(module.is_member(&[2; 32]));
    assert!(!module.is_member(&[3; 32]));
}

#[test]
fn slot_takes_twice_the_minimum_period() {
    assert_eq!(Module::slot_duration::<Runtime>(), 10);
    assert_eq!(Module::slot_duration::<Slow>(), u64::MAX);
    assert_eq!(Module::epoch_duration::<Runtime>(), 3);
    assert_eq!(Module::expected_block_time::<Runtime>(), 6000);
}

struct Narrow;

impl Trait for Narrow {
    type EpochDuration = ConstU64<3>;
    type Moment = u32;
    type ExpectedBlockTime = ConstU32<6000>;
    type MinimumPeriod = ConstU32<0x8000_0000>;
    type AccountId = u64;
    type IdentificationTuple = u64;
}

struct Wide;

impl Trait for Wide {
    type EpochDuration = ConstU64<3>;
    type Moment = u128;
    type ExpectedBlockTime = ConstU128<6000>;
    type MinimumPeriod = ConstU128<0x8000_0000_0000_0000>;
    type AccountId = u64;
    type IdentificationTuple = u64;
}

#[test]
fn slot_duration_is_capped_by_the_type_of_moments() {
    assert_eq!(Module::slot_duration::<Narrow>(), u32::MAX);
    assert_eq!(Module::expected_block_time::<Narrow>(), 6000u32);
    assert_eq!(Module::slot_duration::<Wide>(), 1u128 << 64);
    assert_eq!(Module::expected_block_time::<Wide>(), 6000u128);
}

#[test]
fn disabled_authority_is_announced() {
    assert_eq!(
        Module::on_disabled(258),
        DigestItem::Consensus(BABE_ENGINE_ID, vec![2, 2, 1, 0, 0])
    );
    assert_eq!(
        Module::on_disabled(0x1_0000_0003),
        DigestItem::Consensus(BABE_ENGINE_ID, vec![2, 3, 0, 0, 0])
    );
}

#[test]
fn timestamp_leaves_the_state_alone() {
    let mut module = Module::default();
    module.on_timestamp_set::<Runtime>(12345);
    assert_eq!(module, Module::default());
}
