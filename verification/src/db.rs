//! The persistence protocol: how each entity kind maps onto records and
//! edges of the graph store, and how an aggregate is reconstructed from
//! relation traversals.

pub mod composition;
pub mod device;
pub mod identification;
pub mod measurement;
pub mod unit;

use crate::model::composition::CompositionView;
use crate::model::identification::IdentificationView;
use crate::model::measurement::{MeasurementCatalogView, MeasurementDefinitionView,
    MeasurementView};
use crate::model::unit::{UnitCatalogView, UnitView};
use crate::store::{EdgeView, RecordContentView, RecordView};
use vstd::prelude::*;

verus! {

/// The record a device root writes: only its id.
pub open spec fn device_record(id: Seq<char>) -> RecordView {
    RecordView { table: "device"@, id, content: RecordContentView::Device }
}

/// The record an identification writes.
pub open spec fn identification_record(v: IdentificationView) -> RecordView {
    RecordView {
        table: "identification"@,
        id: v.id,
        content: RecordContentView::Identification(v),
    }
}

/// The record a measurement catalog writes: its scalar fields only.
pub open spec fn catalog_record(c: MeasurementCatalogView) -> RecordView {
    RecordView {
        table: "measurement_catalog"@,
        id: c.id,
        content: RecordContentView::CatalogFields {
            id: c.id,
            name: c.name,
            description: c.description,
        },
    }
}

/// The record a measurement definition writes.
pub open spec fn definition_record(d: MeasurementDefinitionView) -> RecordView {
    RecordView {
        table: "measurement_definition"@,
        id: d.id,
        content: RecordContentView::MeasurementDefinition(d),
    }
}

/// The record a measurement writes.
pub open spec fn measurement_record(m: MeasurementView) -> RecordView {
    RecordView { table: "measurement"@, id: m.id, content: RecordContentView::Measurement(m) }
}

/// The record a unit catalog writes: its scalar fields only.
pub open spec fn unit_catalog_record(u: UnitCatalogView) -> RecordView {
    RecordView {
        table: "unit_catalog"@,
        id: u.id,
        content: RecordContentView::UnitCatalogFields {
            id: u.id,
            name: u.name,
            description: u.description,
        },
    }
}

/// The record a unit writes.
pub open spec fn unit_record(u: UnitView) -> RecordView {
    RecordView { table: "unit"@, id: u.id, content: RecordContentView::Unit(u) }
}

/// The record a composition entry writes.
pub open spec fn composition_record(c: CompositionView) -> RecordView {
    RecordView { table: "composition"@, id: c.id, content: RecordContentView::Composition(c) }
}

/// The records a batch of definitions writes, in order.
pub open spec fn definition_records(ds: Seq<MeasurementDefinitionView>) -> Seq<RecordView> {
    ds.map_values(|d: MeasurementDefinitionView| definition_record(d))
}

/// The edges relating a catalog to its definitions, in order.
pub open spec fn definition_edges(ds: Seq<MeasurementDefinitionView>, from: Seq<char>) -> Seq<
    EdgeView,
> {
    ds.map_values(
        |d: MeasurementDefinitionView| EdgeView {
            relation: "measurement_definitions"@,
            from,
            to_table: "measurement_definition"@,
            to_id: d.id,
        },
    )
}

/// The records a batch of units writes, in order.
pub open spec fn unit_records(us: Seq<UnitView>) -> Seq<RecordView> {
    us.map_values(|u: UnitView| unit_record(u))
}

/// The edges relating a unit catalog to its units, in order.
pub open spec fn unit_edges(us: Seq<UnitView>, from: Seq<char>) -> Seq<EdgeView> {
    us.map_values(
        |u: UnitView| EdgeView {
            relation: "units"@,
            from,
            to_table: "unit"@,
            to_id: u.id,
        },
    )
}

/// The records a batch of measurements writes, in order.
pub open spec fn measurement_records(ms: Seq<MeasurementView>) -> Seq<RecordView> {
    ms.map_values(|m: MeasurementView| measurement_record(m))
}

/// The edges relating a device to its measurements, in order.
pub open spec fn measurement_edges(ms: Seq<MeasurementView>, from: Seq<char>) -> Seq<EdgeView> {
    ms.map_values(
        |m: MeasurementView| EdgeView {
            relation: "device_measurements"@,
            from,
            to_table: "measurement"@,
            to_id: m.id,
        },
    )
}

/// The records a batch of composition entries writes, in order.
pub open spec fn composition_records(cs: Seq<CompositionView>) -> Seq<RecordView> {
    cs.map_values(|c: CompositionView| composition_record(c))
}

/// The edges relating a device to its composition entries, in order.
pub open spec fn composition_edges(cs: Seq<CompositionView>, from: Seq<char>) -> Seq<EdgeView> {
    cs.map_values(
        |c: CompositionView| EdgeView {
            relation: "device_compositions"@,
            from,
            to_table: "composition"@,
            to_id: c.id,
        },
    )
}

/// The eight table names are pairwise distinct, so records of different
/// entity kinds can never collide.
pub proof fn lemma_tables_distinct()
    ensures
        "device"@ != "identification"@,
        "device"@ != "measurement_catalog"@,
        "device"@ != "measurement_definition"@,
        "device"@ != "measurement"@,
        "device"@ != "unit_catalog"@,
        "device"@ != "unit"@,
        "device"@ != "composition"@,
        "identification"@ != "measurement_catalog"@,
        "identification"@ != "measurement_definition"@,
        "identification"@ != "measurement"@,
        "identification"@ != "unit_catalog"@,
        "identification"@ != "unit"@,
        "identification"@ != "composition"@,
        "measurement_catalog"@ != "measurement_definition"@,
        "measurement_catalog"@ != "measurement"@,
        "measurement_catalog"@ != "unit_catalog"@,
        "measurement_catalog"@ != "unit"@,
        "measurement_catalog"@ != "composition"@,
        "measurement_definition"@ != "measurement"@,
        "measurement_definition"@ != "unit_catalog"@,
        "measurement_definition"@ != "unit"@,
        "measurement_definition"@ != "composition"@,
        "measurement"@ != "unit_catalog"@,
        "measurement"@ != "unit"@,
        "measurement"@ != "composition"@,
        "unit_catalog"@ != "unit"@,
        "unit_catalog"@ != "composition"@,
        "unit"@ != "composition"@,
{
    reveal_strlit("device");
    reveal_strlit("identification");
    reveal_strlit("measurement_catalog");
    reveal_strlit("measurement_definition");
    reveal_strlit("measurement");
    reveal_strlit("unit_catalog");
    reveal_strlit("unit");
    reveal_strlit("composition");
    assert(("device"@).len() == 6);
    assert(("identification"@).len() == 14);
    assert(("measurement_catalog"@).len() == 19);
    assert(("measurement_definition"@).len() == 22);
    assert(("measurement"@).len() == 11);
    assert(("unit_catalog"@).len() == 12);
    assert(("unit"@).len() == 4);
    assert(("composition"@).len() == 11);
    assert(("measurement"@)[0] == 'm');
    assert(("composition"@)[0] == 'c');
}

} // verus!
