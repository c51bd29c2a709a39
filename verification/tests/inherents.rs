use babe::{
    BabeInherentData, ConstU128, ConstU32, ConstU64, InherentDataProvider, InherentError, Module,
    TimestampCall, Trait, INHERENT_IDENTIFIER,
};
use babe::inherents::TIMESTAMP_IDENTIFIER;
use parity_scale_codec::Encode;
use sp_inherents::InherentData;

struct Runtime;

impl Trait for Runtime {
    type EpochDuration = ConstU64<3>;
    type Moment = u64;
    type ExpectedBlockTime = ConstU64<6000>;
    type MinimumPeriod = ConstU64<5>;
    type AccountId = u64;
    type IdentificationTuple = u64;
}

fn with_timestamp(timestamp: u64) -> InherentData {
    let mut data = InherentData::new();
    data.put_data(sp_timestamp::INHERENT_IDENTIFIER, &timestamp).unwrap();
    data
}

#[test]
fn identifiers() {
    assert_eq!(&INHERENT_IDENTIFIER, b"babeslot");
    assert_eq!(TIMESTAMP_IDENTIFIER, sp_timestamp::INHERENT_IDENTIFIER);
    assert_eq!(InherentDataProvider::new(1).inherent_identifier(), *b"babeslot");
}

#[test]
fn slot_is_provided_from_the_timestamp() {
    let provider = InherentDataProvider::new(6);
    let mut data = with_timestamp(65);
    assert!(provider.provide_inherent_data(&mut data).is_ok());
    assert_eq!(data.babe_inherent_data().unwrap(), 10);
    let stored: Option<u64> = data.get_data(b"babeslot").unwrap();
    assert_eq!(stored, Some(10));
    assert_eq!(data.len(), 2);
}

#[test]
fn slot_is_provided_once() {
    let provider = InherentDataProvider::new(6);
    let mut data = with_timestamp(65);
    data.babe_replace_inherent_data(3);
    match provider.provide_inherent_data(&mut data) {
        Err(InherentError::AlreadyProvided(_)) => {}
        other => panic!("{:?}", other),
    }
    assert_eq!(data.babe_inherent_data().unwrap(), 3);
    let message = provider.provide_inherent_data(&mut data).unwrap_err().message();
    assert_eq!(message, "Inherent with same identifier already exists!");
}

#[test]
fn slot_needs_a_timestamp() {
    let provider = InherentDataProvider::new(0);
    let mut data = InherentData::new();
    assert_eq!(
        provider.provide_inherent_data(&mut data),
        Err(InherentError::NoTimestamp("Timestamp inherent data not found".to_string()))
    );
    data.put_data(TIMESTAMP_IDENTIFIER, &1u32).unwrap();
    assert_eq!(
        provider.provide_inherent_data(&mut data),
        Err(InherentError::NoTimestamp("Could not decode requested inherent type!".to_string()))
    );
    assert_eq!(data.len(), 1);
}

#[test]
fn replaced_slot_is_read_back() {
    let mut data = with_timestamp(65);
    data.babe_replace_inherent_data(u64::MAX);
    assert_eq!(data.babe_inherent_data().unwrap(), u64::MAX);
    data.babe_replace_inherent_data(1);
    assert_eq!(data.babe_inherent_data().unwrap(), 1);
    let timestamp: Option<u64> = data.get_data(&TIMESTAMP_IDENTIFIER).unwrap();
    assert_eq!(timestamp, Some(65));
}

#[test]
fn missing_slot_is_an_error() {
    let error = InherentData::new().babe_inherent_data().unwrap_err();
    assert!(matches!(error, InherentError::NotFound));
    assert_eq!(error.message(), "BABE inherent data not found");
}

#[test]
fn unreadable_slot_is_an_error() {
    let mut data = InherentData::new();
    data.put_data(INHERENT_IDENTIFIER, &1u32).unwrap();
    let error = data.babe_inherent_data().unwrap_err();
    assert!(matches!(error, InherentError::Unreadable(_)));
    assert_eq!(error.message(), "Could not decode requested inherent type!");
}

#[test]
fn provided_slot_is_accepted() {
    let provider = InherentDataProvider::new(Module::slot_duration::<Runtime>());
    for timestamp in [0u64, 9, 10, 12345, u64::MAX] {
        let mut data = with_timestamp(timestamp);
        provider.provide_inherent_data(&mut data).unwrap();
        assert!(Module::check_inherent::<Runtime>(&TimestampCall::SetMoment(timestamp), &data).is_ok());
    }
}

#[test]
fn other_slot_is_refused() {
    let mut data = InherentData::new();
    data.babe_replace_inherent_data(3);
    assert!(Module::check_inherent::<Runtime>(&TimestampCall::SetMoment(30), &data).is_ok());
    assert!(Module::check_inherent::<Runtime>(&TimestampCall::SetMoment(39), &data).is_ok());
    let error = Module::check_inherent::<Runtime>(&TimestampCall::SetMoment(40), &data).unwrap_err();
    assert!(matches!(error, InherentError::SlotMismatch));
    assert_eq!(error.message(), "timestamp set in block doesn't match slot in seal");
}

struct Narrow;

impl Trait for Narrow {
    type EpochDuration = ConstU64<3>;
    type Moment = u32;
    type ExpectedBlockTime = ConstU32<6000>;
    type MinimumPeriod = ConstU32<5>;
    type AccountId = u64;
    type IdentificationTuple = u64;
}

struct Wide;

impl Trait for Wide {
    type EpochDuration = ConstU64<3>;
    type Moment = u128;
    type ExpectedBlockTime = ConstU128<6000>;
    type MinimumPeriod = ConstU128<1>;
    type AccountId = u64;
    type IdentificationTuple = u64;
}

#[test]
fn moments_may_be_narrow() {
    let mut data = InherentData::new();
    data.babe_replace_inherent_data(u32::MAX as u64 / 10);
    assert!(Module::check_inherent::<Narrow>(&TimestampCall::SetMoment(u32::MAX), &data).is_ok());
    assert_eq!(
        Module::check_inherent::<Narrow>(&TimestampCall::SetMoment(u32::MAX - 10), &data),
        Err(InherentError::SlotMismatch)
    );
}

#[test]
fn slot_of_a_wide_moment_is_capped() {
    let mut data = InherentData::new();
    data.babe_replace_inherent_data(u64::MAX);
    for timestamp in [2 * u64::MAX as u128, 2 * u64::MAX as u128 + 2, u128::MAX] {
        assert!(Module::check_inherent::<Wide>(&TimestampCall::SetMoment(timestamp), &data).is_ok());
    }
    assert_eq!(
        Module::check_inherent::<Wide>(&TimestampCall::SetMoment(2 * u64::MAX as u128 - 1), &data),
        Err(InherentError::SlotMismatch)
    );
}

#[test]
fn check_needs_the_slot() {
    let data = InherentData::new();
    assert!(matches!(
        Module::check_inherent::<Runtime>(&TimestampCall::SetMoment(40), &data),
        Err(InherentError::NotFound)
    ));
    assert!(Module::check_inherent::<Runtime>(&TimestampCall::Other, &data).is_ok());
    let mut data = InherentData::new();
    data.put_data(INHERENT_IDENTIFIER, &1u8).unwrap();
    assert!(matches!(
        Module::check_inherent::<Runtime>(&TimestampCall::SetMoment(40), &data),
        Err(InherentError::Unreadable(_))
    ));
}

#[test]
fn no_call_is_created() {
    assert_eq!(Module::create_inherent::<Runtime>(&with_timestamp(1)), None);
}

#[test]
fn timestamp_provider_is_registered_along() {
    let provider = InherentDataProvider::new(1);
    assert!(provider.on_register(false));
    assert!(!provider.on_register(true));
}

#[test]
fn encoded_error_is_decoded() {
    let provider = InherentDataProvider::new(1);
    let encoded = String::from("a fault").encode();
    assert_eq!(provider.error_to_string(&encoded), Some(String::from("a fault")));
    assert_eq!(provider.error_to_string(&encoded[..3]), None);
    assert_eq!(provider.error_to_string(&[4, 0xff]), None);
    assert_eq!(provider.error_to_string(&[]), None);
    // a length that is not in its shortest form
    assert_eq!(provider.error_to_string(&[5, 0, b'a']), None);
    assert_eq!(provider.error_to_string(&[6, 0, 0, 0, b'a']), None);
    assert_eq!(provider.error_to_string(&[3, 1, 0, 0, 0, b'a']), None);
    assert_eq!(provider.error_to_string(&[7, 1, 0, 0, 0, 0, b'a']), None);
    // what follows the text is not looked at
    assert_eq!(provider.error_to_string(&[4, b'a', b'b']), Some(String::from("a")));
    for text in ["", "\u{e9}\u{20ac}", &"x".repeat(64), &"y".repeat(0x4000)] {
        let encoded = [text.to_string().encode(), vec![1, 2]].concat();
        assert_eq!(provider.error_to_string(&encoded), Some(text.to_string()));
    }
}
