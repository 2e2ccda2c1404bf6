//! Repositories of unit records: units and the unit catalog that cascades
//! its units on push.

use crate::db::{lemma_tables_distinct, unit_catalog_record, unit_record, unit_records};
use crate::keyed::{has_where, lemma_has_where_append};
use crate::model::unit::{Unit, UnitCatalog, UnitCatalogView, UnitView};
use crate::store::{record_ref, record_ref_text, EdgeView, GraphStore, GraphStoreView,
    RecordContent, StoreWriteError};
use vstd::prelude::*;

verus! {

/// The edge relating a unit catalog to one unit.
pub open spec fn unit_edge(v: UnitView, from: Seq<char>) -> EdgeView {
    EdgeView { relation: "units"@, from, to_table: "unit"@, to_id: v.id }
}

/// The edges relating a unit catalog to its units, in order.
pub open spec fn unit_edges_from(us: Seq<UnitView>, from: Seq<char>) -> Seq<EdgeView> {
    us.map_values(|u: UnitView| unit_edge(u, from))
}

/// Every unit of the catalog can be written as a fresh record.
pub open spec fn unit_catalog_push_ok(c: UnitCatalogView, st: GraphStoreView) -> bool {
    &&& !st.has_record("unit_catalog"@, c.id)
    &&& forall|i: int|
        0 <= i < c.units.len() ==> !st.has_record("unit"@, (#[trigger] c.units[i]).id)
}

impl Unit {
    pub fn get_db_table_name() -> (r: String)
        ensures
            r@ == "unit"@,
    {
        "unit".to_owned()
    }

    pub fn get_db_relate_name() -> (r: String)
        ensures
            r@ == "units"@,
    {
        "units".to_owned()
    }

    /// Write this unit as a new record; the returned record identifier
    /// addresses it. An already-used id is rejected.
    pub fn push(&self, store: &mut GraphStore) -> (r: Result<String, StoreWriteError>)
        ensures
            r is Ok <==> !old(store)@.has_record("unit"@, self@.id),
            r matches Ok(rid) ==> rid@ == record_ref_text("unit"@, self@.id)
                && final(store)@.records == old(store)@.records.push(unit_record(self@))
                && final(store)@.edges == old(store)@.edges,
            r is Err ==> *final(store) == *old(store),
    {
        let table = Unit::get_db_table_name();
        match store.create(table, self.get_id().clone(), RecordContent::Unit(self.duplicate())) {
            Ok(_) => Ok(record_ref("unit", self.get_id().as_str())),
            Err(e) => Err(e),
        }
    }

    /// Relate a parent record to this unit's record. Must follow a
    /// successful push.
    pub fn relate(&self, store: &mut GraphStore, id_to_relate: String)
        ensures
            final(store)@.edges == old(store)@.edges.push(unit_edge(self@, id_to_relate@)),
            final(store)@.records == old(store)@.records,
    {
        let relation = Unit::get_db_relate_name();
        let table = Unit::get_db_table_name();
        store.relate(relation, id_to_relate, table, self.get_id().clone());
    }
}

impl UnitCatalog {
    pub fn get_db_table_name() -> (r: String)
        ensures
            r@ == "unit_catalog"@,
    {
        "unit_catalog".to_owned()
    }

    pub fn get_db_relate_name() -> (r: String)
        ensures
            r@ == "device_unit_catalog"@,
    {
        "device_unit_catalog".to_owned()
    }

    /// Write the catalog: its own scalar record first, then every owned
    /// unit, each written and related to the catalog in turn. A duplicate
    /// key anywhere aborts the cascade; records already written stay
    /// behind (writes are not transactional).
    pub fn push(&self, store: &mut GraphStore) -> (r: Result<String, StoreWriteError>)
        requires
            self@.wf(),
        ensures
            r is Ok <==> unit_catalog_push_ok(self@, old(store)@),
            r matches Ok(rid) ==> rid@ == record_ref_text("unit_catalog"@, self@.id)
                && final(store)@.records == old(store)@.records + seq![unit_catalog_record(self@)]
                + unit_records(self@.units) && final(store)@.edges == old(store)@.edges
                + unit_edges_from(self@.units, record_ref_text("unit_catalog"@, self@.id)),
            r is Err ==> old(store)@.records.is_prefix_of(final(store)@.records) && old(
                store,
            )@.edges.is_prefix_of(final(store)@.edges),
    {
        let table = UnitCatalog::get_db_table_name();
        let content = RecordContent::UnitCatalogFields {
            id: self.get_id().clone(),
            name: self.get_name().clone(),
            description: self.get_description().clone(),
        };
        match store.create(table, self.get_id().clone(), content) {
            Ok(_) => {},
            Err(e) => {
                proof {
                    assert(store@.records.is_prefix_of(store@.records));
                    assert(store@.edges.is_prefix_of(store@.edges));
                }
                return Err(e);
            },
        }
        let cat_ref = record_ref("unit_catalog", self.get_id().as_str());
        let ghost refv = record_ref_text("unit_catalog"@, self@.id);
        let ghost uvs = self@.units;
        let units = self.get_units();
        let n = units.len();
        let mut i: usize = 0;
        proof {
            assert(store@.records =~= old(store)@.records + seq![unit_catalog_record(self@)]
                + unit_records(uvs.take(0)));
            assert(store@.edges =~= old(store)@.edges + unit_edges_from(uvs.take(0), refv));
        }
        while i < n
            invariant
                i <= n,
                n == uvs.len(),
                store@.records == old(store)@.records + seq![unit_catalog_record(self@)]
                    + unit_records(uvs.take(i as int)),
                store@.edges == old(store)@.edges + unit_edges_from(uvs.take(i as int), refv),
                forall|k: int|
                    0 <= k < i ==> !old(store)@.has_record("unit"@, (#[trigger] uvs[k]).id),
            decreases n - i,
        {
            let ghost pre_records = store@.records;
            let ghost p_unit = |r: crate::store::RecordView|
                r.table == "unit"@ && r.id == uvs[i as int].id;
            match units[i].push(store) {
                Ok(_) => {},
                Err(e) => {
                    proof {
                        lemma_tables_distinct();
                        assert(has_where(pre_records, p_unit));
                        lemma_has_where_append(
                            old(store)@.records,
                            seq![unit_catalog_record(self@)] + unit_records(uvs.take(i as int)),
                            p_unit,
                        );
                        lemma_has_where_append(
                            seq![unit_catalog_record(self@)],
                            unit_records(uvs.take(i as int)),
                            p_unit,
                        );
                        assert(pre_records =~= old(store)@.records + (seq![
                            unit_catalog_record(self@),
                        ] + unit_records(uvs.take(i as int))));
                        if has_where(seq![unit_catalog_record(self@)], p_unit) {
                            assert(p_unit(unit_catalog_record(self@)));
                            assert(false);
                        }
                        if has_where(unit_records(uvs.take(i as int)), p_unit) {
                            let k = choose|k: int|
                                0 <= k < unit_records(uvs.take(i as int)).len() && p_unit(
                                    unit_records(uvs.take(i as int))[k],
                                );
                            assert(unit_records(uvs.take(i as int))[k] == unit_record(uvs[k]));
                            assert(uvs[k].id == uvs[i as int].id);
                            assert(false);
                        }
                        assert(old(store)@.has_record("unit"@, uvs[i as int].id));
                        assert(!unit_catalog_push_ok(self@, old(store)@));
                        crate::keyed::lemma_prefix_of_append(
                            old(store)@.records,
                            seq![unit_catalog_record(self@)] + unit_records(uvs.take(i as int)),
                        );
                        crate::keyed::lemma_prefix_of_append(
                            old(store)@.edges,
                            unit_edges_from(uvs.take(i as int), refv),
                        );
                        assert(old(store)@.edges + unit_edges_from(uvs.take(i as int), refv)
                            =~= store@.edges);
                    }
                    return Err(e);
                },
            }
            units[i].relate(store, cat_ref.clone());
            proof {
                lemma_has_where_append(
                    old(store)@.records,
                    seq![unit_catalog_record(self@)] + unit_records(uvs.take(i as int)),
                    p_unit,
                );
                assert(pre_records =~= old(store)@.records + (seq![unit_catalog_record(self@)]
                    + unit_records(uvs.take(i as int))));
                assert(!has_where(old(store)@.records, p_unit));
                assert(uvs.take(i + 1 as int).drop_last() =~= uvs.take(i as int));
                assert(uvs.take(i + 1 as int).last() == uvs[i as int]);
                assert(unit_records(uvs.take(i + 1 as int)) =~= unit_records(
                    uvs.take(i as int),
                ).push(unit_record(uvs[i as int])));
                assert(store@.records =~= old(store)@.records + seq![unit_catalog_record(self@)]
                    + unit_records(uvs.take(i + 1 as int)));
                assert(unit_edges_from(uvs.take(i + 1 as int), refv) =~= unit_edges_from(
                    uvs.take(i as int),
                    refv,
                ).push(unit_edge(uvs[i as int], refv)));
                assert(store@.edges =~= old(store)@.edges + unit_edges_from(
                    uvs.take(i + 1 as int),
                    refv,
                ));
            }
            i += 1;
        }
        proof {
            assert(uvs.take(n as int) =~= uvs);
        }
        Ok(cat_ref)
    }

    /// Relate a parent record to this catalog's record. Must follow a
    /// successful push.
    pub fn relate(&self, store: &mut GraphStore, id_to_relate: String)
        ensures
            final(store)@.edges == old(store)@.edges.push(
                EdgeView {
                    relation: "device_unit_catalog"@,
                    from: id_to_relate@,
                    to_table: "unit_catalog"@,
                    to_id: self@.id,
                },
            ),
            final(store)@.records == old(store)@.records,
    {
        let relation = UnitCatalog::get_db_relate_name();
        let table = UnitCatalog::get_db_table_name();
        store.relate(relation, id_to_relate, table, self.get_id().clone());
    }
}

} // verus!
