//! Tests of the inbound-message decision and the telemetry builders.

use device_graph::ipc::hello::{HealthState, Hello};
use device_graph::ipc::value::{DataValue, MeasurementValue, Quality};
use device_graph::ipc::who_are_you::{What, Who, WhoAreYou};
use device_graph::ipc::{accept_hello, accept_who_are_you, accept_who_i_am, IpcError};
use device_graph::model::device::DeviceModel;
use device_graph::model::identification::DeviceType;
use device_graph::uri_list::UriList;

#[test]
fn malformed_payload_yields_one_error_then_delivery_continues() {
    let (tx, _rx) = tokio::sync::mpsc::channel::<u8>(4);
    let key = UriList::get_uri_hello("dev-1").to_text();

    // A body that did not deserialize: one payload error.
    match accept_hello(&key, None, tx.clone()) {
        Err(e) => assert_eq!(e, IpcError::PayloadError),
        Ok(_) => panic!("expected a payload error"),
    }

    // The next well-formed message on the same subscription still lands.
    let hello = Hello::new(HealthState::Good, 17);
    let second = accept_hello(&key, Some(hello), tx).unwrap();
    assert_eq!(second.device_id, "dev-1");
    assert!(matches!(second.hello.state, HealthState::Good));
    assert_eq!(second.hello.timestamp, 17);
}

#[test]
fn unparseable_address_is_a_uri_error() {
    let (tx, _rx) = tokio::sync::mpsc::channel::<u8>(1);
    let hello = Hello::new(HealthState::Bad, 1);
    match accept_hello("not-an-address", Some(hello), tx) {
        Err(e) => assert_eq!(e, IpcError::UriError),
        Ok(_) => panic!("expected an address error"),
    }
}

#[test]
fn address_without_device_is_a_device_error() {
    let (tx, _rx) = tokio::sync::mpsc::channel::<u8>(1);
    let hello = Hello::new(HealthState::Good, 2);
    match accept_hello("jhome/field/hello/V1/hello", Some(hello), tx) {
        Err(e) => assert_eq!(e, IpcError::DeviceError),
        Ok(_) => panic!("expected a device error"),
    }
}

#[test]
fn wrong_root_is_a_uri_error() {
    let (tx, _rx) = tokio::sync::mpsc::channel::<u8>(1);
    let hello = Hello::new(HealthState::Good, 3);
    match accept_hello("elsewhere/d2d/dev-1/hello/V1/hello", Some(hello), tx) {
        Err(e) => assert_eq!(e, IpcError::UriError),
        Ok(_) => panic!("expected an address error"),
    }
}

#[test]
fn uri_error_wins_over_payload_error() {
    let (tx, _rx) = tokio::sync::mpsc::channel::<u8>(1);
    match accept_hello::<u8>("jhome/bogus/hello/V1", None, tx) {
        Err(e) => assert_eq!(e, IpcError::UriError),
        Ok(_) => panic!("expected an address error"),
    }
}

#[test]
fn who_are_you_envelope_carries_sender() {
    let (tx, _rx) = tokio::sync::mpsc::channel::<u8>(1);
    let key = UriList::get_uri_who_are_you("asker-1").to_text();
    let request = WhoAreYou::new(Who::Id("dev-2".to_string()), What::All);
    let msg = accept_who_are_you(&key, Some(request), tx).unwrap();
    assert_eq!(msg.sender_id, "asker-1");
    match msg.who_are_you.get_who() {
        Who::Id(id) => assert_eq!(id, "dev-2"),
        Who::All => panic!("expected an addressed request"),
    }
    assert!(matches!(msg.who_are_you.get_what(), What::All));
}

#[test]
fn error_messages_match_the_protocol() {
    assert_eq!(IpcError::UriError.message(), "Uri error");
    assert_eq!(IpcError::PayloadError.message(), "Payload error");
    assert_eq!(IpcError::DeviceError.message(), "Device error");
}

#[test]
fn humidity_reading_uses_the_fixed_definition() {
    let v = MeasurementValue::new_humidity(55, 1000);
    assert_eq!(v.get_definition_id(), "def:meas:humidity");
    assert!(matches!(v.get_data_value(), DataValue::U8(55)));
    assert_eq!(*v.get_timestamp(), 1000);
    assert!(matches!(v.get_quality(), Quality::Good));
    assert_eq!(v.get_id().chars().count(), 36);
}

#[test]
fn sound_and_temperature_readings_use_their_definitions() {
    let s = MeasurementValue::new_sound(9, 5);
    assert_eq!(s.get_definition_id(), "def:meas:sound");
    assert!(matches!(s.get_data_value(), DataValue::U8(9)));

    let t = MeasurementValue::new_temperature(-40, 6);
    assert_eq!(t.get_definition_id(), "def:meas:temp");
    assert!(matches!(t.get_data_value(), DataValue::I16(-40)));
    assert!(matches!(t.get_quality(), Quality::Good));
}

#[test]
fn measurement_value_new_keeps_fields() {
    let v = MeasurementValue::new(
        "val-1".to_string(),
        "def-x".to_string(),
        DataValue::Bool(true),
        42,
        Quality::Missing,
    );
    assert_eq!(v.get_id(), "val-1");
    assert_eq!(v.get_definition_id(), "def-x");
    assert!(matches!(v.get_data_value(), DataValue::Bool(true)));
    assert_eq!(*v.get_timestamp(), 42);
    assert!(matches!(v.get_quality(), Quality::Missing));
}

#[test]
fn who_i_am_envelope_carries_the_model() {
    let (tx, _rx) = tokio::sync::mpsc::channel::<u8>(1);
    let key = UriList::get_uri_who_i_am("dev-3").to_text();
    let model = DeviceModel::new(
        "dev-3".to_string(),
        "Gate".to_string(),
        DeviceType::Gateway,
    );
    let msg = accept_who_i_am(&key, Some(model), tx).unwrap();
    assert_eq!(msg.device_id, "dev-3");
    assert_eq!(msg.model.get_device_id(), "dev-3");
    assert_eq!(msg.model.get_identification().get_name(), "Gate");
}
