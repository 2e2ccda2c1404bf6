//! Tests of the in-memory aggregate: keyed insertion and the
//! insert-if-absent composition mapping.

use device_graph::model::composition::Composition;
use device_graph::model::device::DeviceModel;
use device_graph::model::identification::DeviceType;
use device_graph::model::measurement::{DataType, MeasurementCatalog};
use device_graph::model::unit::{Unit, UnitCatalog};

#[test]
fn composition_insert_is_idempotent_on_child_id() {
    let mut model = DeviceModel::new(
        "dev-1".to_string(),
        "Gate".to_string(),
        DeviceType::Gateway,
    );
    model.add_device_composition(Composition::new("child-1".to_string()));
    model.add_device_composition(Composition::new("child-1".to_string()));
    let entries = model.get_device_composition().as_ref().unwrap();
    assert_eq!(entries.len(), 1);
    assert_eq!(entries[0].get_device_id(), "child-1");
}

#[test]
fn composition_insert_keeps_first_entry() {
    let mut model = DeviceModel::new(
        "dev-1".to_string(),
        "Gate".to_string(),
        DeviceType::Gateway,
    );
    let first = Composition::new("child-1".to_string());
    let first_id = first.get_id().clone();
    model.add_device_composition(first);
    model.add_device_composition(Composition::new("child-1".to_string()));
    model.add_device_composition(Composition::new("child-2".to_string()));
    let entries = model.get_device_composition().as_ref().unwrap();
    assert_eq!(entries.len(), 2);
    assert_eq!(entries[0].get_id(), &first_id);
    assert_eq!(entries[1].get_device_id(), "child-2");
}

#[test]
fn composition_ids_are_uuid_text() {
    let c = Composition::new("child-1".to_string());
    let id = c.get_id();
    assert_eq!(id.chars().count(), 36);
    let chars: Vec<char> = id.chars().collect();
    for (i, ch) in chars.iter().enumerate() {
        if i == 8 || i == 13 || i == 18 || i == 23 {
            assert_eq!(*ch, '-');
        } else {
            assert!(ch.is_ascii_hexdigit() && !ch.is_ascii_uppercase());
        }
    }
}

#[test]
fn catalog_insert_replaces_same_definition_id() {
    let mut catalog = MeasurementCatalog::new(
        "cat-1".to_string(),
        "Catalog".to_string(),
        "".to_string(),
    );
    catalog.add_measurement_definition(
        "def-a".to_string(),
        "first".to_string(),
        "".to_string(),
        DataType::U8,
        "unit-1".to_string(),
    );
    catalog.add_measurement_definition(
        "def-a".to_string(),
        "second".to_string(),
        "".to_string(),
        DataType::U16,
        "unit-2".to_string(),
    );
    let defs = catalog.get_measurement_definitions();
    assert_eq!(defs.len(), 1);
    assert_eq!(defs[0].get_id(), "def-a");
    assert_eq!(defs[0].get_name(), "second");
    assert!(matches!(defs[0].get_data_type(), DataType::U16));
}

#[test]
fn unit_catalog_batch_insert_earliest_wins() {
    let mut catalog = UnitCatalog::new(
        "ucat-1".to_string(),
        "Units".to_string(),
        "".to_string(),
    );
    let batch = vec![
        Unit::new("u-1".to_string(), "volt".to_string(), "V".to_string()),
        Unit::new("u-2".to_string(), "ampere".to_string(), "A".to_string()),
        Unit::new("u-1".to_string(), "volt-late".to_string(), "V2".to_string()),
    ];
    catalog.add_unit_definitions(batch);
    let units = catalog.get_units();
    assert_eq!(units.len(), 2);
    let volt = units.iter().find(|u| u.get_id() == "u-1").unwrap();
    assert_eq!(volt.get_name(), "volt");
    assert!(units.iter().any(|u| u.get_id() == "u-2"));
}

#[test]
fn new_model_has_no_optional_parts() {
    let model = DeviceModel::new(
        "dev-1".to_string(),
        "Gate".to_string(),
        DeviceType::Sensor,
    );
    assert_eq!(model.get_device_id(), "dev-1");
    assert_eq!(model.get_identification().get_name(), "Gate");
    assert!(matches!(model.get_identification().get_type(), DeviceType::Sensor));
    assert!(model.get_measurement_catalog().is_none());
    assert!(model.get_measurements().is_none());
    assert!(model.get_unit_catalog().is_none());
    assert!(model.get_device_composition().is_none());
}
