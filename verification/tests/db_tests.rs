//! Push/reload tests of the persistence protocol against the in-memory
//! graph store.

use device_graph::model::device::DeviceModel;
use device_graph::model::identification::DeviceType;
use device_graph::model::measurement::{DataType, Measurement, MeasurementCatalog};
use device_graph::model::composition::Composition;
use device_graph::model::unit::UnitCatalog;
use device_graph::store::{record_ref, relate_statement, traversal_statement, GraphStore,
    StoreWriteError};

fn minimal_model() -> DeviceModel {
    DeviceModel::new("dev-1".to_string(), "Gate".to_string(), DeviceType::Gateway)
}

#[test]
fn push_and_reload_minimal_model() {
    let mut store = GraphStore::new();
    let model = minimal_model();
    let root = model.push(&mut store).unwrap();
    assert_eq!(root, "device:\u{27e8}dev-1\u{27e9}");

    let all = DeviceModel::get_all(&store);
    assert_eq!(all.len(), 1);
    let got = &all[0];
    assert_eq!(got.get_device_id(), "dev-1");
    assert_eq!(got.get_identification().get_name(), "Gate");
    assert!(matches!(got.get_identification().get_type(), DeviceType::Gateway));
    assert!(got.get_measurement_catalog().is_none());
    assert!(got.get_measurements().is_none());
    assert!(got.get_unit_catalog().is_none());
    assert!(got.get_device_composition().is_none());
}

#[test]
fn push_and_reload_with_catalog() {
    let mut store = GraphStore::new();
    let mut model = minimal_model();
    let mut catalog = MeasurementCatalog::new(
        "cat-1".to_string(),
        "Catalog".to_string(),
        "gateway measurement schemas".to_string(),
    );
    catalog.add_measurement_definition(
        "def-a".to_string(),
        "humidity".to_string(),
        "".to_string(),
        DataType::U8,
        "unit-1".to_string(),
    );
    catalog.add_measurement_definition(
        "def-b".to_string(),
        "temperature".to_string(),
        "".to_string(),
        DataType::I16,
        "unit-2".to_string(),
    );
    model.set_measurement_catalog(catalog);
    model.push(&mut store).unwrap();

    let all = DeviceModel::get_all(&store);
    assert_eq!(all.len(), 1);
    let got_catalog = all[0].get_measurement_catalog().as_ref().unwrap();
    assert_eq!(got_catalog.get_id(), "cat-1");
    assert_eq!(got_catalog.get_name(), "Catalog");
    let defs = got_catalog.get_measurement_definitions();
    assert_eq!(defs.len(), 2);
    assert!(defs.iter().any(|d| d.get_id() == "def-a"));
    assert!(defs.iter().any(|d| d.get_id() == "def-b"));
}

#[test]
fn relation_to_missing_record_is_skipped() {
    let mut store = GraphStore::new();
    let mut model = minimal_model();
    model.set_measurements(vec![Measurement::new(
        "m-1".to_string(),
        "def-a".to_string(),
    )]);
    model.push(&mut store).unwrap();

    // An edge to a record nobody ever wrote: tolerated, not an error.
    store.relate(
        "device_measurements".to_string(),
        record_ref("device", "dev-1"),
        "measurement".to_string(),
        "ghost".to_string(),
    );

    let resolved = Measurement::get_from_relation(&store, record_ref("device", "dev-1"));
    assert_eq!(resolved.len(), 1);
    assert_eq!(resolved[0].get_id(), "m-1");

    let all = DeviceModel::get_all(&store);
    assert_eq!(all.len(), 1);
    let measurements = all[0].get_measurements().as_ref().unwrap();
    assert_eq!(measurements.len(), 1);
    assert_eq!(measurements[0].get_id(), "m-1");
}

#[test]
fn is_pushed_on_unwritten_id_is_false() {
    let store = GraphStore::new();
    assert!(!DeviceModel::is_pushed(&store, "dev-1".to_string()));

    let mut store = GraphStore::new();
    minimal_model().push(&mut store).unwrap();
    assert!(DeviceModel::is_pushed(&store, "dev-1".to_string()));
    assert!(!DeviceModel::is_pushed(&store, "dev-2".to_string()));
}

#[test]
fn pushing_a_used_id_is_rejected() {
    let mut store = GraphStore::new();
    minimal_model().push(&mut store).unwrap();
    let err = minimal_model().push(&mut store).unwrap_err();
    assert_eq!(err, StoreWriteError::DuplicateId);
}

#[test]
fn reload_drops_device_without_identification() {
    let mut store = GraphStore::new();
    minimal_model().push(&mut store).unwrap();
    // A bare root record with no identification relation.
    store
        .create(
            "device".to_string(),
            "dev-2".to_string(),
            device_graph::store::RecordContent::Device,
        )
        .unwrap();

    let all = DeviceModel::get_all(&store);
    assert_eq!(all.len(), 1);
    assert_eq!(all[0].get_device_id(), "dev-1");
}

#[test]
fn statement_builders_write_the_wire_protocol() {
    assert_eq!(record_ref("device", "dev-1"), "device:\u{27e8}dev-1\u{27e9}");
    assert_eq!(
        relate_statement("device:\u{27e8}d\u{27e9}", "device_identification", "identification", "d"),
        "RELATE device:\u{27e8}d\u{27e9} -> device_identification -> identification:\u{27e8}d\u{27e9}"
    );
    assert_eq!(
        traversal_statement("device_identification", "device:\u{27e8}d\u{27e9}"),
        "SELECT out FROM device_identification WHERE in=\"device:\u{27e8}d\u{27e9}\";"
    );
}

#[test]
fn unit_catalog_and_composition_are_written_but_not_reloaded() {
    let mut store = GraphStore::new();
    let mut model = minimal_model();
    let mut units = UnitCatalog::new("ucat-1".to_string(), "Units".to_string(), "".to_string());
    units.add_unit_definition("u-1".to_string(), "volt".to_string(), "V".to_string());
    units.add_unit_definition("u-2".to_string(), "ampere".to_string(), "A".to_string());
    model.set_unit_catalog(units);
    model.add_device_composition(Composition::new("child-1".to_string()));
    model.push(&mut store).unwrap();

    // The records and edges are in the store.
    assert!(store.select("unit_catalog", "ucat-1").is_some());
    assert!(store.select("unit", "u-1").is_some());
    assert!(store.select("unit", "u-2").is_some());
    assert_eq!(
        store
            .traverse_out("device_compositions", &record_ref("device", "dev-1"))
            .len(),
        1
    );

    // The reload path does not reconstruct these two parts.
    let all = DeviceModel::get_all(&store);
    assert_eq!(all.len(), 1);
    assert!(all[0].get_unit_catalog().is_none());
    assert!(all[0].get_device_composition().is_none());
}

#[test]
fn catalog_push_aborts_on_a_duplicate_definition_id() {
    let mut store = GraphStore::new();
    let mut first = minimal_model();
    let mut catalog = MeasurementCatalog::new("cat-1".to_string(), "C".to_string(), "".to_string());
    catalog.add_measurement_definition(
        "def-a".to_string(),
        "humidity".to_string(),
        "".to_string(),
        DataType::U8,
        "unit-1".to_string(),
    );
    first.set_measurement_catalog(catalog);
    first.push(&mut store).unwrap();

    // A second device whose catalog reuses an already-written definition id.
    let mut second = DeviceModel::new(
        "dev-2".to_string(),
        "Other".to_string(),
        DeviceType::Sensor,
    );
    let mut clashing = MeasurementCatalog::new("cat-2".to_string(), "C2".to_string(), "".to_string());
    clashing.add_measurement_definition(
        "def-a".to_string(),
        "humidity again".to_string(),
        "".to_string(),
        DataType::U8,
        "unit-1".to_string(),
    );
    second.set_measurement_catalog(clashing);
    let err = second.push(&mut store).unwrap_err();
    assert_eq!(err, StoreWriteError::DuplicateId);
}
