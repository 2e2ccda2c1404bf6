//! Round-trip and grammar tests for topic addresses.

use device_graph::uri::{Uri, UriType};
use device_graph::uri_list::UriList;

#[test]
fn round_trip_field_uri_no_fields() {
    let a = Uri::new_field_uri("status".to_string(), "V1".to_string(), Vec::new());
    let text = a.to_text();
    let b = Uri::from_str(&text).unwrap();
    assert_eq!(b.get_base().get_name(), "jhome");
    assert!(matches!(b.get_base().get_scope(), UriType::Field));
    assert!(b.get_device().is_none());
    assert_eq!(b.get_facet().get_name(), "status");
    assert_eq!(b.get_facet().get_version(), "V1");
    assert_eq!(b.get_fields().get_names().len(), 0);
    assert_eq!(b.to_text(), text);
}

#[test]
fn round_trip_d2d_uri_one_field() {
    let a = Uri::new_d2d_uri(
        "dev-1".to_string(),
        "hello".to_string(),
        "V1".to_string(),
        vec!["hello".to_string()],
    );
    let text = a.to_text();
    assert_eq!(text, "jhome/d2d/dev-1/hello/V1/hello");
    let b = Uri::from_str(&text).unwrap();
    assert!(matches!(b.get_base().get_scope(), UriType::D2D));
    assert_eq!(b.get_device().as_ref().unwrap().get_id(), "dev-1");
    assert_eq!(b.get_facet().get_name(), "hello");
    assert_eq!(b.get_facet().get_version(), "V1");
    assert_eq!(b.get_fields().get_names(), &vec!["hello".to_string()]);
    assert_eq!(b.to_text(), text);
}

#[test]
fn round_trip_d2d_uri_many_fields() {
    let fields = vec!["a".to_string(), "b".to_string(), "c".to_string()];
    let a = Uri::new_d2d_uri(
        "gateway-7".to_string(),
        "measurement-value".to_string(),
        "V1".to_string(),
        fields.clone(),
    );
    let b = Uri::from_str(&a.to_text()).unwrap();
    assert_eq!(b.get_device().as_ref().unwrap().get_id(), "gateway-7");
    assert_eq!(b.get_fields().get_names(), &fields);
}

#[test]
fn round_trip_field_uri_many_fields() {
    let fields = vec!["x".to_string(), "y".to_string()];
    let a = Uri::new_field_uri("telemetry".to_string(), "V2".to_string(), fields.clone());
    let text = a.to_text();
    assert_eq!(text, "jhome/field/telemetry/V2/x/y");
    let b = Uri::from_str(&text).unwrap();
    assert!(b.get_device().is_none());
    assert_eq!(b.get_fields().get_names(), &fields);
}

#[test]
fn parse_rejects_missing_segments() {
    assert!(Uri::from_str("jhome").is_err());
    assert!(Uri::from_str("jhome/field").is_err());
    assert!(Uri::from_str("jhome/field/facet").is_err());
    assert!(Uri::from_str("jhome/d2d/dev/facet").is_err());
}

#[test]
fn parse_rejects_unknown_scope() {
    assert!(Uri::from_str("jhome/bogus/facet/V1").is_err());
    assert!(Uri::from_str("jhome/FIELD/facet/V1").is_err());
}

#[test]
fn parse_rejects_wrong_root() {
    assert!(Uri::from_str("other/field/facet/V1").is_err());
    assert!(Uri::from_str("other/d2d/dev-1/hello/V1/hello").is_err());
    assert!(Uri::from_str("JHOME/field/facet/V1").is_err());
    assert!(Uri::from_str("/field/facet/V1").is_err());
}

#[test]
fn parse_exact_d2d() {
    let u = Uri::from_str("jhome/d2d/dev-9/measurement-value/V1/temp").unwrap();
    assert_eq!(u.get_base().get_name(), "jhome");
    assert!(matches!(u.get_base().get_scope(), UriType::D2D));
    assert_eq!(u.get_device().as_ref().unwrap().get_id(), "dev-9");
    assert_eq!(u.get_facet().get_name(), "measurement-value");
    assert_eq!(u.get_facet().get_version(), "V1");
    assert_eq!(u.get_fields().get_names(), &vec!["temp".to_string()]);
}

#[test]
fn uri_type_from_str() {
    assert!(matches!(UriType::from_str("field"), Ok(UriType::Field)));
    assert!(matches!(UriType::from_str("d2d"), Ok(UriType::D2D)));
    assert!(UriType::from_str("other").is_err());
    assert_eq!(UriType::Field.to_text(), "field");
    assert_eq!(UriType::D2D.to_text(), "d2d");
}

#[test]
fn fixed_addresses() {
    assert_eq!(
        UriList::get_uri_hello("dev-1").to_text(),
        "jhome/d2d/dev-1/hello/V1/hello"
    );
    assert_eq!(
        UriList::get_uri_who_are_you("dev-1").to_text(),
        "jhome/d2d/dev-1/hello/V1/who-are-you"
    );
    assert_eq!(
        UriList::get_uri_who_i_am("dev-1").to_text(),
        "jhome/d2d/dev-1/hello/V1/who-i-am"
    );
    assert_eq!(
        UriList::get_uri_humidity("dev-2").to_text(),
        "jhome/d2d/dev-2/measurement-value/V1/humidity"
    );
    assert_eq!(
        UriList::get_uri_sound("dev-2").to_text(),
        "jhome/d2d/dev-2/measurement-value/V1/sound"
    );
    assert_eq!(
        UriList::get_uri_temperature("dev-2").to_text(),
        "jhome/d2d/dev-2/measurement-value/V1/temp"
    );
}
