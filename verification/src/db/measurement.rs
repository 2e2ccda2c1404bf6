//! Repositories of measurement records: definitions, measurement
//! instances, and the catalog that cascades its definitions on push.

use crate::db::{catalog_record, definition_edges, definition_record, definition_records,
    lemma_tables_distinct, measurement_record};
use crate::keyed::{has_where, lemma_has_where_append, lemma_map_values_push};
use crate::model::measurement::{Measurement, MeasurementCatalog, MeasurementCatalogView,
    MeasurementDefinition, MeasurementDefinitionView, MeasurementView};
use crate::store::{record_ref, record_ref_text, EdgeView, GraphStore, GraphStoreView,
    RecordContent, RecordContentView, StoreWriteError};
use vstd::prelude::*;

verus! {

/// The edge relating a catalog to one definition.
pub open spec fn definition_edge(v: MeasurementDefinitionView, from: Seq<char>) -> EdgeView {
    EdgeView {
        relation: "measurement_definitions"@,
        from,
        to_table: "measurement_definition"@,
        to_id: v.id,
    }
}

/// The edge relating a device root to one measurement.
pub open spec fn measurement_edge(v: MeasurementView, from: Seq<char>) -> EdgeView {
    EdgeView {
        relation: "device_measurements"@,
        from,
        to_table: "measurement"@,
        to_id: v.id,
    }
}

/// The definitions that a list of far-endpoint ids resolves to, in order;
/// an id without a matching record is silently skipped.
pub open spec fn spec_resolved_definitions(st: GraphStoreView, ids: Seq<Seq<char>>) -> Seq<
    MeasurementDefinitionView,
>
    decreases ids.len(),
{
    if ids.len() == 0 {
        Seq::<MeasurementDefinitionView>::empty()
    } else {
        let pre = spec_resolved_definitions(st, ids.drop_last());
        match st.lookup("measurement_definition"@, ids.last()) {
            Some(RecordContentView::MeasurementDefinition(v)) => pre.push(v),
            _ => pre,
        }
    }
}

/// The measurements that a list of far-endpoint ids resolves to, in order;
/// an id without a matching record is silently skipped.
pub open spec fn spec_resolved_measurements(st: GraphStoreView, ids: Seq<Seq<char>>) -> Seq<
    MeasurementView,
>
    decreases ids.len(),
{
    if ids.len() == 0 {
        Seq::<MeasurementView>::empty()
    } else {
        let pre = spec_resolved_measurements(st, ids.drop_last());
        match st.lookup("measurement"@, ids.last()) {
            Some(RecordContentView::Measurement(v)) => pre.push(v),
            _ => pre,
        }
    }
}

/// Every definition of the catalog can be written as a fresh record.
pub open spec fn catalog_push_ok(c: MeasurementCatalogView, st: GraphStoreView) -> bool {
    &&& !st.has_record("measurement_catalog"@, c.id)
    &&& forall|i: int|
        0 <= i < c.definitions.len() ==> !st.has_record(
            "measurement_definition"@,
            (#[trigger] c.definitions[i]).id,
        )
}

/// The catalog reconstructed from the record with this id: its scalar
/// fields, refilled with every definition the `measurement_definitions`
/// edges from its record identifier resolve to.
pub open spec fn spec_catalog_get(st: GraphStoreView, id: Seq<char>) -> Option<
    MeasurementCatalogView,
> {
    match st.lookup("measurement_catalog"@, id) {
        Some(RecordContentView::CatalogFields { id: cid, name, description }) => {
            let base = MeasurementCatalogView {
                id: cid,
                name,
                description,
                definitions: Seq::<MeasurementDefinitionView>::empty(),
            };
            let resolved = spec_resolved_definitions(
                st,
                st.edge_outs(
                    "measurement_definitions"@,
                    record_ref_text("measurement_catalog"@, cid),
                ),
            );
            Some(base.spec_add_definitions(resolved))
        },
        _ => None,
    }
}

impl MeasurementDefinition {
    pub fn get_db_table_name() -> (r: String)
        ensures
            r@ == "measurement_definition"@,
    {
        "measurement_definition".to_owned()
    }

    pub fn get_db_relate_name() -> (r: String)
        ensures
            r@ == "measurement_definitions"@,
    {
        "measurement_definitions".to_owned()
    }

    /// Write this definition as a new record; the returned record
    /// identifier addresses it. An already-used id is rejected.
    pub fn push(&self, store: &mut GraphStore) -> (r: Result<String, StoreWriteError>)
        ensures
            r is Ok <==> !old(store)@.has_record("measurement_definition"@, self@.id),
            r matches Ok(rid) ==> rid@ == record_ref_text("measurement_definition"@, self@.id)
                && final(store)@.records == old(store)@.records.push(definition_record(self@))
                && final(store)@.edges == old(store)@.edges,
            r is Err ==> *final(store) == *old(store),
    {
        let table = MeasurementDefinition::get_db_table_name();
        match store.create(
            table,
            self.get_id().clone(),
            RecordContent::MeasurementDefinition(self.duplicate()),
        ) {
            Ok(_) => Ok(record_ref("measurement_definition", self.get_id().as_str())),
            Err(e) => Err(e),
        }
    }

    /// Relate a parent record to this definition's record. Must follow a
    /// successful push.
    pub fn relate(&self, store: &mut GraphStore, id_to_relate: String)
        ensures
            final(store)@.edges == old(store)@.edges.push(definition_edge(self@, id_to_relate@)),
            final(store)@.records == old(store)@.records,
    {
        let relation = MeasurementDefinition::get_db_relate_name();
        let table = MeasurementDefinition::get_db_table_name();
        store.relate(relation, id_to_relate, table, self.get_id().clone());
    }

    /// Point lookup by id; absence is not an error.
    pub fn get(store: &GraphStore, id: String) -> (r: Option<MeasurementDefinition>)
        ensures
            match r {
                Some(x) => store@.lookup("measurement_definition"@, id@) == Some(
                    RecordContentView::MeasurementDefinition(x@),
                ),
                None => !(store@.lookup("measurement_definition"@, id@) matches Some(
                    RecordContentView::MeasurementDefinition(_),
                )),
            },
    {
        match store.select("measurement_definition", id.as_str()) {
            Some(RecordContent::MeasurementDefinition(x)) => Some(x.duplicate()),
            _ => None,
        }
    }

    /// Resolve every definition related to `id_in`, in edge order; an edge
    /// to a missing record is silently skipped, not an error.
    pub fn get_from_relation(store: &GraphStore, id_in: String) -> (r: Vec<MeasurementDefinition>)
        ensures
            r@.map_values(|d: MeasurementDefinition| d@) == spec_resolved_definitions(
                store@,
                store@.edge_outs("measurement_definitions"@, id_in@),
            ),
    {
        let ghost f = |d: MeasurementDefinition| d@;
        let outs = store.traverse_out("measurement_definitions", id_in.as_str());
        let ghost ids = outs@.map_values(|x: String| x@);
        let mut acc: Vec<MeasurementDefinition> = Vec::new();
        let n = outs.len();
        let mut i: usize = 0;
        proof {
            assert(ids.take(0) =~= Seq::<Seq<char>>::empty());
            assert(acc@.map_values(f) =~= Seq::<MeasurementDefinitionView>::empty());
        }
        while i < n
            invariant
                i <= n,
                acc@.map_values(f) == spec_resolved_definitions(store@, ids.take(i as int)),
            decreases n - i,
        {
            let ghost pre = acc@;
            match MeasurementDefinition::get(store, outs[i].clone()) {
                Some(d) => {
                    proof {
                        lemma_map_values_push(pre, f, d);
                    }
                    acc.push(d);
                },
                None => {},
            }
            proof {
                assert(ids.take(i + 1 as int).drop_last() =~= ids.take(i as int));
                assert(ids.take(i + 1 as int).last() == ids[i as int]);
            }
            i += 1;
        }
        proof {
            assert(ids.take(n as int) =~= ids);
        }
        acc
    }
}

impl Measurement {
    pub fn get_db_table_name() -> (r: String)
        ensures
            r@ == "measurement"@,
    {
        "measurement".to_owned()
    }

    pub fn get_db_relate_name() -> (r: String)
        ensures
            r@ == "device_measurements"@,
    {
        "device_measurements".to_owned()
    }

    /// Write this measurement as a new record; the returned record
    /// identifier addresses it. An already-used id is rejected.
    pub fn push(&self, store: &mut GraphStore) -> (r: Result<String, StoreWriteError>)
        ensures
            r is Ok <==> !old(store)@.has_record("measurement"@, self@.id),
            r matches Ok(rid) ==> rid@ == record_ref_text("measurement"@, self@.id)
                && final(store)@.records == old(store)@.records.push(measurement_record(self@))
                && final(store)@.edges == old(store)@.edges,
            r is Err ==> *final(store) == *old(store),
    {
        let table = Measurement::get_db_table_name();
        match store.create(
            table,
            self.get_id().clone(),
            RecordContent::Measurement(self.duplicate()),
        ) {
            Ok(_) => Ok(record_ref("measurement", self.get_id().as_str())),
            Err(e) => Err(e),
        }
    }

    /// Relate a parent record to this measurement's record. Must follow a
    /// successful push.
    pub fn relate(&self, store: &mut GraphStore, id_to_relate: String)
        ensures
            final(store)@.edges == old(store)@.edges.push(
                measurement_edge(self@, id_to_relate@),
            ),
            final(store)@.records == old(store)@.records,
    {
        let relation = Measurement::get_db_relate_name();
        let table = Measurement::get_db_table_name();
        store.relate(relation, id_to_relate, table, self.get_id().clone());
    }

    /// Point lookup by id; absence is not an error.
    pub fn get(store: &GraphStore, id: String) -> (r: Option<Measurement>)
        ensures
            match r {
                Some(x) => store@.lookup("measurement"@, id@) == Some(
                    RecordContentView::Measurement(x@),
                ),
                None => !(store@.lookup("measurement"@, id@) matches Some(
                    RecordContentView::Measurement(_),
                )),
            },
    {
        match store.select("measurement", id.as_str()) {
            Some(RecordContent::Measurement(x)) => Some(x.duplicate()),
            _ => None,
        }
    }

    /// Resolve every measurement related to `id_in`, in edge order; an
    /// edge to a missing record is silently skipped, not an error.
    pub fn get_from_relation(store: &GraphStore, id_in: String) -> (r: Vec<Measurement>)
        ensures
            r@.map_values(|m: Measurement| m@) == spec_resolved_measurements(
                store@,
                store@.edge_outs("device_measurements"@, id_in@),
            ),
    {
        let ghost f = |m: Measurement| m@;
        let outs = store.traverse_out("device_measurements", id_in.as_str());
        let ghost ids = outs@.map_values(|x: String| x@);
        let mut acc: Vec<Measurement> = Vec::new();
        let n = outs.len();
        let mut i: usize = 0;
        proof {
            assert(ids.take(0) =~= Seq::<Seq<char>>::empty());
            assert(acc@.map_values(f) =~= Seq::<MeasurementView>::empty());
        }
        while i < n
            invariant
                i <= n,
                acc@.map_values(f) == spec_resolved_measurements(store@, ids.take(i as int)),
            decreases n - i,
        {
            let ghost pre = acc@;
            match Measurement::get(store, outs[i].clone()) {
                Some(m) => {
                    proof {
                        lemma_map_values_push(pre, f, m);
                    }
                    acc.push(m);
                },
                None => {},
            }
            proof {
                assert(ids.take(i + 1 as int).drop_last() =~= ids.take(i as int));
                assert(ids.take(i + 1 as int).last() == ids[i as int]);
            }
            i += 1;
        }
        proof {
            assert(ids.take(n as int) =~= ids);
        }
        acc
    }
}

impl MeasurementCatalog {
    pub fn get_db_table_name() -> (r: String)
        ensures
            r@ == "measurement_catalog"@,
    {
        "measurement_catalog".to_owned()
    }

    pub fn get_db_relate_name() -> (r: String)
        ensures
            r@ == "device_measurement_catalog"@,
    {
        "device_measurement_catalog".to_owned()
    }

    /// Write the catalog: its own scalar record first, then every owned
    /// definition, each written and related to the catalog in turn. A
    /// duplicate key anywhere aborts the cascade; records already written
    /// stay behind (writes are not transactional).
    pub fn push(&self, store: &mut GraphStore) -> (r: Result<String, StoreWriteError>)
        requires
            self@.wf(),
        ensures
            r is Ok <==> catalog_push_ok(self@, old(store)@),
            r matches Ok(rid) ==> rid@ == record_ref_text("measurement_catalog"@, self@.id)
                && final(store)@.records == old(store)@.records + seq![catalog_record(self@)]
                + definition_records(self@.definitions) && final(store)@.edges == old(
                store,
            )@.edges + definition_edges(
                self@.definitions,
                record_ref_text("measurement_catalog"@, self@.id),
            ),
            r is Err ==> old(store)@.records.is_prefix_of(final(store)@.records) && old(
                store,
            )@.edges.is_prefix_of(final(store)@.edges),
    {
        let table = MeasurementCatalog::get_db_table_name();
        let content = RecordContent::CatalogFields {
            id: self.get_id().clone(),
            name: self.get_name().clone(),
            description: self.get_description().clone(),
        };
        match store.create(table, self.get_id().clone(), content) {
            Ok(_) => {},
            Err(e) => {
                proof {
                    assert(store@.records.is_prefix_of(store@.records));
                    assert(store@.edges.is_prefix_of(store@.edges));
                }
                return Err(e);
            },
        }
        let cat_ref = record_ref("measurement_catalog", self.get_id().as_str());
        let ghost refv = record_ref_text("measurement_catalog"@, self@.id);
        let ghost dvs = self@.definitions;
        let defs = self.get_measurement_definitions();
        let n = defs.len();
        let mut i: usize = 0;
        proof {
            assert(store@.records =~= old(store)@.records + seq![catalog_record(self@)]
                + definition_records(dvs.take(0)));
            assert(store@.edges =~= old(store)@.edges + definition_edges(dvs.take(0), refv));
        }
        while i < n
            invariant
                i <= n,
                n == dvs.len(),
                store@.records == old(store)@.records + seq![catalog_record(self@)]
                    + definition_records(dvs.take(i as int)),
                store@.edges == old(store)@.edges + definition_edges(dvs.take(i as int), refv),
                forall|k: int|
                    0 <= k < i ==> !old(store)@.has_record(
                        "measurement_definition"@,
                        (#[trigger] dvs[k]).id,
                    ),
            decreases n - i,
        {
            let ghost pre_records = store@.records;
            let ghost pre_edges = store@.edges;
            let ghost p_def = |r: crate::store::RecordView|
                r.table == "measurement_definition"@ && r.id == dvs[i as int].id;
            match defs[i].push(store) {
                Ok(_) => {},
                Err(e) => {
                    proof {
                        lemma_tables_distinct();
                        assert(has_where(pre_records, p_def));
                        lemma_has_where_append(
                            old(store)@.records,
                            seq![catalog_record(self@)] + definition_records(dvs.take(i as int)),
                            p_def,
                        );
                        lemma_has_where_append(
                            seq![catalog_record(self@)],
                            definition_records(dvs.take(i as int)),
                            p_def,
                        );
                        assert(pre_records =~= old(store)@.records + (seq![
                            catalog_record(self@),
                        ] + definition_records(dvs.take(i as int))));
                        if has_where(seq![catalog_record(self@)], p_def) {
                            assert(p_def(catalog_record(self@)));
                            assert(false);
                        }
                        if has_where(definition_records(dvs.take(i as int)), p_def) {
                            let k = choose|k: int|
                                0 <= k < definition_records(dvs.take(i as int)).len() && p_def(
                                    definition_records(dvs.take(i as int))[k],
                                );
                            assert(definition_records(dvs.take(i as int))[k] == definition_record(
                                dvs[k],
                            ));
                            assert(dvs[k].id == dvs[i as int].id);
                            assert(false);
                        }
                        assert(old(store)@.has_record("measurement_definition"@, dvs[i as int].id));
                        assert(!catalog_push_ok(self@, old(store)@));
                        crate::keyed::lemma_prefix_of_append(
                            old(store)@.records,
                            seq![catalog_record(self@)] + definition_records(dvs.take(i as int)),
                        );
                        crate::keyed::lemma_prefix_of_append(
                            old(store)@.edges,
                            definition_edges(dvs.take(i as int), refv),
                        );
                        assert(old(store)@.edges + definition_edges(dvs.take(i as int), refv)
                            =~= store@.edges);
                    }
                    return Err(e);
                },
            }
            defs[i].relate(store, cat_ref.clone());
            proof {
                lemma_has_where_append(
                    old(store)@.records,
                    seq![catalog_record(self@)] + definition_records(dvs.take(i as int)),
                    p_def,
                );
                assert(pre_records =~= old(store)@.records + (seq![catalog_record(self@)]
                    + definition_records(dvs.take(i as int))));
                assert(!has_where(old(store)@.records, p_def));
                assert(dvs.take(i + 1 as int).drop_last() =~= dvs.take(i as int));
                assert(dvs.take(i + 1 as int).last() == dvs[i as int]);
                assert(definition_records(dvs.take(i + 1 as int)) =~= definition_records(
                    dvs.take(i as int),
                ).push(definition_record(dvs[i as int])));
                assert(store@.records =~= old(store)@.records + seq![catalog_record(self@)]
                    + definition_records(dvs.take(i + 1 as int)));
                assert(definition_edges(dvs.take(i + 1 as int), refv) =~= definition_edges(
                    dvs.take(i as int),
                    refv,
                ).push(definition_edge(dvs[i as int], refv)));
                assert(store@.edges =~= old(store)@.edges + definition_edges(
                    dvs.take(i + 1 as int),
                    refv,
                ));
            }
            i += 1;
        }
        proof {
            assert(dvs.take(n as int) =~= dvs);
        }
        Ok(cat_ref)
    }

    /// Relate a parent record to this catalog's record. Must follow a
    /// successful push.
    pub fn relate(&self, store: &mut GraphStore, id_to_relate: String)
        ensures
            final(store)@.edges == old(store)@.edges.push(
                EdgeView {
                    relation: "device_measurement_catalog"@,
                    from: id_to_relate@,
                    to_table: "measurement_catalog"@,
                    to_id: self@.id,
                },
            ),
            final(store)@.records == old(store)@.records,
    {
        let relation = MeasurementCatalog::get_db_relate_name();
        let table = MeasurementCatalog::get_db_table_name();
        store.relate(relation, id_to_relate, table, self.get_id().clone());
    }

    /// Reconstruct the catalog with this id: its scalar record plus every
    /// definition its relation resolves to. Absence is not an error.
    pub fn get(store: &GraphStore, id: String) -> (r: Option<MeasurementCatalog>)
        ensures
            match r {
                Some(c) => spec_catalog_get(store@, id@) == Some(c@) && c@.wf(),
                None => spec_catalog_get(store@, id@) is None,
            },
    {
        let (cid, name, description) = match store.select("measurement_catalog", id.as_str()) {
            Some(RecordContent::CatalogFields { id: cid, name, description }) => (
                cid.clone(),
                name.clone(),
                description.clone(),
            ),
            _ => {
                return None;
            },
        };
        let mut catalog = MeasurementCatalog::new(cid, name, description);
        let cat_ref = record_ref("measurement_catalog", catalog.get_id().as_str());
        let definitions = MeasurementDefinition::get_from_relation(store, cat_ref);
        catalog.add_measurement_definitions(definitions);
        Some(catalog)
    }

    /// Resolve the catalog related to `id_in`: the far endpoint of the
    /// first `device_measurement_catalog` edge, reconstructed by id. An
    /// edge to a missing record yields absence, not an error.
    pub fn get_from_relation(store: &GraphStore, id_in: String) -> (r: Option<MeasurementCatalog>)
        ensures
            match r {
                Some(c) => {
                    &&& store@.first_edge_out("device_measurement_catalog"@, id_in@)
                        matches Some(cid)
                    &&& spec_catalog_get(
                        store@,
                        store@.first_edge_out("device_measurement_catalog"@, id_in@)->Some_0,
                    ) == Some(c@)
                    &&& c@.wf()
                },
                None => match store@.first_edge_out("device_measurement_catalog"@, id_in@) {
                    None => true,
                    Some(cid) => spec_catalog_get(store@, cid) is None,
                },
            },
    {
        match store.first_out("device_measurement_catalog", id_in.as_str()) {
            None => None,
            Some(cid) => MeasurementCatalog::get(store, cid),
        }
    }
}

} // verus!
