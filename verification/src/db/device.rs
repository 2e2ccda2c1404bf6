//! Repository of the aggregate root: pushing a whole device model as
//! create-then-relate writes, probing for it, and reconstructing every
//! stored model by relation traversal.

use crate::db::identification::{identification_edge, spec_resolve_identification};
use crate::db::measurement::{catalog_push_ok, measurement_edge, spec_catalog_get,
    spec_resolved_measurements};
use crate::db::unit::{unit_catalog_push_ok, unit_edges_from};
use crate::db::composition::composition_edge;
use crate::db::{catalog_record, composition_records, definition_edges, definition_records,
    device_record, identification_record, lemma_tables_distinct, measurement_records,
    unit_catalog_record, unit_records};
use crate::keyed::{has_where, lemma_has_where_append, lemma_prefix_of_append,
    lemma_prefix_transitive};
use crate::model::device::{spec_measurement_mapping, DeviceModel, DeviceModelView};
use crate::model::measurement::{Measurement, MeasurementCatalog};
use crate::store::{record_ref, record_ref_text, EdgeView, GraphStore, GraphStoreView,
    RecordContent, RecordView, StoreWriteError};
use crate::model::identification::Identification;
use vstd::prelude::*;

verus! {

/// The edge relating a device root to its measurement catalog.
pub open spec fn catalog_device_edge(cat_id: Seq<char>, from: Seq<char>) -> EdgeView {
    EdgeView {
        relation: "device_measurement_catalog"@,
        from,
        to_table: "measurement_catalog"@,
        to_id: cat_id,
    }
}

/// The edge relating a device root to its unit catalog.
pub open spec fn unit_catalog_device_edge(cat_id: Seq<char>, from: Seq<char>) -> EdgeView {
    EdgeView {
        relation: "device_unit_catalog"@,
        from,
        to_table: "unit_catalog"@,
        to_id: cat_id,
    }
}

/// The records a whole aggregate writes, in write order: the device root,
/// the identification, then each present optional part.
pub open spec fn model_push_records(m: DeviceModelView) -> Seq<RecordView> {
    seq![device_record(m.identification.id), identification_record(m.identification)] + (
    match m.measurement_catalog {
        Some(c) => seq![catalog_record(c)] + definition_records(c.definitions),
        None => Seq::<RecordView>::empty(),
    }) + (match m.measurements {
        Some(ms) => measurement_records(ms),
        None => Seq::<RecordView>::empty(),
    }) + (match m.unit_catalog {
        Some(u) => seq![unit_catalog_record(u)] + unit_records(u.units),
        None => Seq::<RecordView>::empty(),
    }) + (match m.composition {
        Some(cs) => composition_records(cs),
        None => Seq::<RecordView>::empty(),
    })
}

/// The edges a whole aggregate writes, in write order.
pub open spec fn model_push_edges(m: DeviceModelView) -> Seq<EdgeView> {
    let dref = record_ref_text("device"@, m.identification.id);
    seq![identification_edge(m.identification, dref)] + (match m.measurement_catalog {
        Some(c) => definition_edges(c.definitions, record_ref_text("measurement_catalog"@, c.id))
            + seq![catalog_device_edge(c.id, dref)],
        None => Seq::<EdgeView>::empty(),
    }) + (match m.measurements {
        Some(ms) => ms.map_values(|x: crate::model::measurement::MeasurementView|
            measurement_edge(x, dref)),
        None => Seq::<EdgeView>::empty(),
    }) + (match m.unit_catalog {
        Some(u) => unit_edges_from(u.units, record_ref_text("unit_catalog"@, u.id)) + seq![
            unit_catalog_device_edge(u.id, dref),
        ],
        None => Seq::<EdgeView>::empty(),
    }) + (match m.composition {
        Some(cs) => cs.map_values(|x: crate::model::composition::CompositionView|
            composition_edge(x, dref)),
        None => Seq::<EdgeView>::empty(),
    })
}

/// Every record the aggregate writes is fresh: the push succeeds exactly
/// on these inputs. Generated composition ids must also be distinct among
/// themselves, since each becomes a record key of one table.
pub open spec fn model_push_ok(m: DeviceModelView, st: GraphStoreView) -> bool {
    &&& !st.has_record("device"@, m.identification.id)
    &&& !st.has_record("identification"@, m.identification.id)
    &&& (m.measurement_catalog matches Some(c) ==> catalog_push_ok(c, st))
    &&& (m.measurements matches Some(ms) ==> forall|i: int|
        0 <= i < ms.len() ==> !st.has_record("measurement"@, (#[trigger] ms[i]).id))
    &&& (m.unit_catalog matches Some(u) ==> unit_catalog_push_ok(u, st))
    &&& (m.composition matches Some(cs) ==> (forall|i: int|
        0 <= i < cs.len() ==> !st.has_record("composition"@, (#[trigger] cs[i]).id)) && (
    forall|i: int, j: int|
        0 <= i < cs.len() && 0 <= j < cs.len() && (#[trigger] cs[i]).id == (#[trigger] cs[j]).id
            ==> i == j))
}

/// The model reconstructed for one device root id: its identification
/// resolved over `device_identification` (a device whose identification
/// does not resolve yields nothing), the measurement catalog and the
/// measurements resolved likewise, each present only when something
/// resolved. The unit catalog and the composition are not reconstructed
/// by this path.
pub open spec fn spec_reconstruct_device(st: GraphStoreView, id: Seq<char>) -> Option<
    DeviceModelView,
> {
    let dref = record_ref_text("device"@, id);
    match spec_resolve_identification(st, dref) {
        None => None,
        Some(ident) => {
            let base = DeviceModelView {
                identification: ident,
                measurement_catalog: None,
                measurements: None,
                unit_catalog: None,
                composition: None,
            };
            let with_cat = match st.first_edge_out("device_measurement_catalog"@, dref) {
                None => base,
                Some(cid) => match spec_catalog_get(st, cid) {
                    Some(c) => DeviceModelView { measurement_catalog: Some(c), ..base },
                    None => base,
                },
            };
            let ms = spec_resolved_measurements(st, st.edge_outs("device_measurements"@, dref));
            if ms.len() == 0 {
                Some(with_cat)
            } else {
                Some(
                    DeviceModelView {
                        measurements: Some(spec_measurement_mapping(ms)),
                        ..with_cat
                    },
                )
            }
        },
    }
}

/// The models reconstructed for a list of device root ids, in order; a
/// device whose identification does not resolve is dropped, not reported.
pub open spec fn spec_get_all(st: GraphStoreView, ids: Seq<Seq<char>>) -> Seq<DeviceModelView>
    decreases ids.len(),
{
    if ids.len() == 0 {
        Seq::<DeviceModelView>::empty()
    } else {
        let pre = spec_get_all(st, ids.drop_last());
        match spec_reconstruct_device(st, ids.last()) {
            Some(d) => pre.push(d),
            None => pre,
        }
    }
}

impl DeviceModel {
    pub fn get_db_table_name() -> (r: String)
        ensures
            r@ == "device"@,
    {
        "device".to_owned()
    }

    /// The record identifier of this model's device root.
    pub fn get_device_table_id(&self) -> (r: String)
        ensures
            r@ == record_ref_text("device"@, self@.identification.id),
    {
        record_ref("device", self.get_device_id().as_str())
    }

    /// Whether a device root record exists for this id. An unwritten id
    /// yields `false`, not an error.
    pub fn is_pushed(store: &GraphStore, device_id: String) -> (r: bool)
        ensures
            r == store@.has_record("device"@, device_id@),
    {
        match store.select("device", device_id.as_str()) {
            Some(_) => true,
            None => false,
        }
    }

    /// Write the whole aggregate: the device root record, then each part
    /// written and related to the root in turn, children before their
    /// edges. Succeeds exactly when every record key is fresh; a duplicate
    /// key aborts the cascade and records already written stay behind
    /// (writes are not transactional).
    #[verifier::rlimit(100)]
    pub fn push(&self, store: &mut GraphStore) -> (r: Result<String, StoreWriteError>)
        requires
            self@.wf(),
        ensures
            r is Ok <==> model_push_ok(self@, old(store)@),
            r matches Ok(rid) ==> rid@ == record_ref_text("device"@, self@.identification.id)
                && final(store)@.records == old(store)@.records + model_push_records(self@)
                && final(store)@.edges == old(store)@.edges + model_push_edges(self@),
            r is Err ==> old(store)@.records.is_prefix_of(final(store)@.records) && old(
                store,
            )@.edges.is_prefix_of(final(store)@.edges),
    {
        let ghost m = self@;
        let ghost g0 = old(store)@.records;
        let ghost e0 = old(store)@.edges;
        let ghost dref = record_ref_text("device"@, m.identification.id);
        proof {
            lemma_tables_distinct();
        }
        // Device root record.
        let table = DeviceModel::get_db_table_name();
        match store.create(table, self.get_device_id().clone(), RecordContent::Device) {
            Ok(_) => {},
            Err(_) => {
                proof {
                    assert(store@.records.is_prefix_of(store@.records));
                    assert(store@.edges.is_prefix_of(store@.edges));
                }
                return Err(StoreWriteError::DuplicateId);
            },
        }
        let device_table_id = self.get_device_table_id();
        // Identification: mandatory, written then related to the root.
        let ghost s1 = store@;
        let ghost rec1 = seq![device_record(m.identification.id)];
        proof {
            assert(s1.records =~= g0 + rec1);
        }
        match self.get_identification().push(store) {
            Ok(_) => {},
            Err(e) => {
                proof {
                    let p = |r: RecordView| r.table == "identification"@ && r.id
                        == m.identification.id;
                    assert(store@.records =~= g0 + rec1);
                    lemma_has_where_append(g0, rec1, p);
                    assert(!p(device_record(m.identification.id)));
                    assert(old(store)@.has_record("identification"@, m.identification.id));
                    lemma_prefix_of_append(g0, rec1);
                    assert(e0.is_prefix_of(store@.edges));
                }
                return Err(e);
            },
        }
        self.get_identification().relate(store, device_table_id.clone());
        let ghost rec2 = seq![device_record(m.identification.id), identification_record(
            m.identification,
        )];
        let ghost edg2 = seq![identification_edge(m.identification, dref)];
        proof {
            assert(store@.records =~= g0 + rec2);
            assert(store@.edges =~= e0 + edg2);
        }
        // Measurement catalog, when present: cascaded, then related.
        match self.get_measurement_catalog() {
            Some(catalog) => {
                let ghost mid = store@;
                let ghost c = m.measurement_catalog->Some_0;
                proof {
                    assert(catalog@ == c);
                    lemma_catalog_ok_unaffected(c, old(store)@, mid, rec2);
                }
                match catalog.push(store) {
                    Ok(_) => {},
                    Err(e) => {
                        proof {
                            assert(!catalog_push_ok(c, mid));
                            assert(!model_push_ok(m, old(store)@));
                            lemma_prefix_of_append(g0, rec2);
                            lemma_prefix_transitive(g0, mid.records, store@.records);
                            lemma_prefix_of_append(e0, edg2);
                            lemma_prefix_transitive(e0, mid.edges, store@.edges);
                        }
                        return Err(e);
                    },
                }
                catalog.relate(store, device_table_id.clone());
            },
            None => {},
        }
        let ghost catg = match m.measurement_catalog {
            Some(c) => seq![catalog_record(c)] + definition_records(c.definitions),
            None => Seq::<RecordView>::empty(),
        };
        let ghost rec3 = rec2 + catg;
        let ghost edg3 = edg2 + (match m.measurement_catalog {
            Some(c) => definition_edges(
                c.definitions,
                record_ref_text("measurement_catalog"@, c.id),
            ) + seq![catalog_device_edge(c.id, dref)],
            None => Seq::<EdgeView>::empty(),
        });
        proof {
            assert(store@.records =~= g0 + rec3);
            assert(store@.edges =~= e0 + edg3);
        }
        // Measurements, when present: each written then related to the root.
        match self.get_measurements() {
            Some(measurements) => {
                let ghost mid = store@;
                let ghost ms = m.measurements->Some_0;
                proof {
                    assert(ms == measurements@.map_values(|x: Measurement| x@));
                    assert forall|i: int| 0 <= i < ms.len() implies mid.has_record(
                        "measurement"@,
                        (#[trigger] ms[i]).id,
                    ) == old(store)@.has_record("measurement"@, ms[i].id) by {
                        let p = |r: RecordView| r.table == "measurement"@ && r.id == ms[i].id;
                        assert(mid.records =~= g0 + (rec2 + catg));
                        lemma_has_where_append(g0, rec2 + catg, p);
                        lemma_has_where_append(rec2, catg, p);
                        if has_where(rec2, p) {
                            let k = choose|k: int| 0 <= k < rec2.len() && p(rec2[k]);
                            assert(false);
                        }
                        if has_where(catg, p) {
                            lemma_no_measurement_in_catalog_group(m, catg, p);
                        }
                    }
                }
                match push_measurements_list(measurements, store, &device_table_id) {
                    Ok(_) => {},
                    Err(e) => {
                        proof {
                            let bad = choose|i: int|
                                0 <= i < measurements@.len() && mid.has_record(
                                    "measurement"@,
                                    ((measurements@[i])@).id,
                                );
                            assert(ms[bad] == (measurements@[bad])@);
                            assert(old(store)@.has_record("measurement"@, ms[bad].id));
                            assert(!model_push_ok(m, old(store)@));
                            lemma_prefix_of_append(g0, rec3);
                            lemma_prefix_transitive(g0, mid.records, store@.records);
                            lemma_prefix_of_append(e0, edg3);
                            lemma_prefix_transitive(e0, mid.edges, store@.edges);
                        }
                        return Err(e);
                    },
                }
            },
            None => {},
        }
        let ghost msg = match m.measurements {
            Some(ms) => measurement_records(ms),
            None => Seq::<RecordView>::empty(),
        };
        let ghost rec4 = rec3 + msg;
        let ghost edg4 = edg3 + (match m.measurements {
            Some(ms) => ms.map_values(
                |x: crate::model::measurement::MeasurementView| measurement_edge(x, dref),
            ),
            None => Seq::<EdgeView>::empty(),
        });
        proof {
            assert(store@.records =~= g0 + rec4);
            assert(store@.edges =~= e0 + edg4);
        }
        // Unit catalog, when present: cascaded, then related.
        match self.get_unit_catalog() {
            Some(unit_catalog) => {
                let ghost mid = store@;
                let ghost u = m.unit_catalog->Some_0;
                proof {
                    assert(unit_catalog@ == u);
                    lemma_unit_catalog_ok_unaffected(u, old(store)@, mid, rec4);
                }
                match unit_catalog.push(store) {
                    Ok(_) => {},
                    Err(e) => {
                        proof {
                            assert(!unit_catalog_push_ok(u, mid));
                            assert(!model_push_ok(m, old(store)@));
                            lemma_prefix_of_append(g0, rec4);
                            lemma_prefix_transitive(g0, mid.records, store@.records);
                            lemma_prefix_of_append(e0, edg4);
                            lemma_prefix_transitive(e0, mid.edges, store@.edges);
                        }
                        return Err(e);
                    },
                }
                unit_catalog.relate(store, device_table_id.clone());
            },
            None => {},
        }
        let ghost ucatg = match m.unit_catalog {
            Some(u) => seq![unit_catalog_record(u)] + unit_records(u.units),
            None => Seq::<RecordView>::empty(),
        };
        let ghost rec5 = rec4 + ucatg;
        let ghost edg5 = edg4 + (match m.unit_catalog {
            Some(u) => unit_edges_from(u.units, record_ref_text("unit_catalog"@, u.id)) + seq![
                unit_catalog_device_edge(u.id, dref),
            ],
            None => Seq::<EdgeView>::empty(),
        });
        proof {
            assert(store@.records =~= g0 + rec5);
            assert(store@.edges =~= e0 + edg5);
        }
        // Composition entries, when present: each written then related.
        match self.get_device_composition() {
            Some(compositions) => {
                let ghost mid = store@;
                let ghost cs = m.composition->Some_0;
                proof {
                    assert(cs == compositions@.map_values(
                        |x: crate::model::composition::Composition| x@,
                    ));
                    assert forall|i: int| 0 <= i < cs.len() implies mid.has_record(
                        "composition"@,
                        (#[trigger] cs[i]).id,
                    ) == old(store)@.has_record("composition"@, cs[i].id) by {
                        let p = |r: RecordView| r.table == "composition"@ && r.id == cs[i].id;
                        assert(mid.records =~= g0 + (((rec2 + catg) + msg) + ucatg));
                        lemma_has_where_append(g0, ((rec2 + catg) + msg) + ucatg, p);
                        lemma_has_where_append((rec2 + catg) + msg, ucatg, p);
                        lemma_has_where_append(rec2 + catg, msg, p);
                        lemma_has_where_append(rec2, catg, p);
                        if has_where(rec2, p) {
                            let k = choose|k: int| 0 <= k < rec2.len() && p(rec2[k]);
                            assert(false);
                        }
                        if has_where(catg, p) {
                            lemma_no_measurement_in_catalog_group(m, catg, p);
                        }
                        if has_where(msg, p) {
                            match m.measurements {
                                Some(mss) => {
                                    let k = choose|k: int|
                                        0 <= k < measurement_records(mss).len() && p(
                                            measurement_records(mss)[k],
                                        );
                                    assert(measurement_records(mss)[k]
                                        == crate::db::measurement_record(mss[k]));
                                    assert(false);
                                },
                                None => {
                                    let k = choose|k: int| 0 <= k < msg.len() && p(msg[k]);
                                    assert(false);
                                },
                            }
                        }
                        if has_where(ucatg, p) {
                            match m.unit_catalog {
                                Some(u) => {
                                    lemma_has_where_append(
                                        seq![unit_catalog_record(u)],
                                        unit_records(u.units),
                                        p,
                                    );
                                    if has_where(seq![unit_catalog_record(u)], p) {
                                        assert(p(unit_catalog_record(u)));
                                        assert(false);
                                    }
                                    if has_where(unit_records(u.units), p) {
                                        let k = choose|k: int|
                                            0 <= k < unit_records(u.units).len() && p(
                                                unit_records(u.units)[k],
                                            );
                                        assert(unit_records(u.units)[k] == crate::db::unit_record(
                                            u.units[k],
                                        ));
                                        assert(false);
                                    }
                                },
                                None => {
                                    let k = choose|k: int| 0 <= k < ucatg.len() && p(ucatg[k]);
                                    assert(false);
                                },
                            }
                        }
                    }
                }
                match push_compositions_list(compositions, store, &device_table_id) {
                    Ok(_) => {},
                    Err(e) => {
                        proof {
                            if forall|i: int, j: int|
                                0 <= i < compositions@.len() && 0 <= j < compositions@.len() && ((
                                #[trigger] compositions@[i])@).id == ((
                                #[trigger] compositions@[j])@).id ==> i == j {
                                let bad = choose|i: int|
                                    0 <= i < compositions@.len() && mid.has_record(
                                        "composition"@,
                                        ((compositions@[i])@).id,
                                    );
                                assert(cs[bad] == (compositions@[bad])@);
                                assert(old(store)@.has_record("composition"@, cs[bad].id));
                            } else {
                                let (bi, bj) = choose|bi: int, bj: int|
                                    0 <= bi < compositions@.len() && 0 <= bj
                                        < compositions@.len() && ((compositions@[bi])@).id == ((
                                    compositions@[bj])@).id && bi != bj;
                                assert(cs[bi].id == cs[bj].id && bi != bj);
                            }
                            assert(!model_push_ok(m, old(store)@));
                            lemma_prefix_of_append(g0, rec5);
                            lemma_prefix_transitive(g0, mid.records, store@.records);
                            lemma_prefix_of_append(e0, edg5);
                            lemma_prefix_transitive(e0, mid.edges, store@.edges);
                        }
                        return Err(e);
                    },
                }
            },
            None => {},
        }
        proof {
            assert(store@.records =~= g0 + model_push_records(m));
            assert(store@.edges =~= e0 + model_push_edges(m));
            let p_id = |r: RecordView| r.table == "identification"@ && r.id
                == m.identification.id;
            assert(!s1.has_record("identification"@, m.identification.id));
            lemma_has_where_append(g0, rec1, p_id);
            assert(!p_id(device_record(m.identification.id)));
            assert(!old(store)@.has_record("identification"@, m.identification.id));
            assert(model_push_ok(m, old(store)@));
        }
        Ok(device_table_id)
    }

    /// Reconstruct every stored device model: list the device roots, then
    /// resolve each over its relations. A device whose identification
    /// cannot be resolved is dropped from the result, not reported. The
    /// unit catalog and the composition are not reconstructed by this path.
    pub fn get_all(store: &GraphStore) -> (r: Vec<DeviceModel>)
        ensures
            r@.map_values(|d: DeviceModel| d@) == spec_get_all(
                store@,
                store@.table_ids("device"@),
            ),
            forall|k: int| 0 <= k < r@.len() ==> (#[trigger] r@[k])@.wf(),
    {
        let ghost f = |d: DeviceModel| d@;
        let device_ids = store.select_table_ids("device");
        let ghost ids = device_ids@.map_values(|x: String| x@);
        let mut devices: Vec<DeviceModel> = Vec::new();
        let n = device_ids.len();
        let mut i: usize = 0;
        proof {
            assert(ids.take(0) =~= Seq::<Seq<char>>::empty());
            assert(devices@.map_values(f) =~= Seq::<DeviceModelView>::empty());
        }
        while i < n
            invariant
                i <= n,
                n == ids.len(),
                devices@.map_values(f) == spec_get_all(store@, ids.take(i as int)),
                forall|k: int| 0 <= k < devices@.len() ==> (#[trigger] devices@[k])@.wf(),
            decreases n - i,
        {
            let device_ref = record_ref("device", device_ids[i].as_str());
            let identification = Identification::get_from_relation(store, device_ref.clone());
            let measurement_catalog = MeasurementCatalog::get_from_relation(
                store,
                device_ref.clone(),
            );
            let measurements = Measurement::get_from_relation(store, device_ref);
            match identification {
                Some(identification) => {
                    let mut device = DeviceModel::new(
                        identification.get_id().clone(),
                        identification.get_name().clone(),
                        *identification.get_type(),
                    );
                    match measurement_catalog {
                        Some(catalog) => {
                            device.set_measurement_catalog(catalog);
                        },
                        None => {},
                    }
                    if measurements.len() > 0 {
                        device.set_measurements(measurements);
                    }
                    let ghost pre = devices@;
                    proof {
                        assert(spec_reconstruct_device(store@, ids[i as int]) == Some(device@));
                        crate::keyed::lemma_map_values_push(pre, f, device);
                    }
                    devices.push(device);
                },
                None => {
                    proof {
                        assert(spec_reconstruct_device(store@, ids[i as int]) is None);
                    }
                },
            }
            proof {
                assert(ids.take(i + 1 as int).drop_last() =~= ids.take(i as int));
                assert(ids.take(i + 1 as int).last() == ids[i as int]);
            }
            i += 1;
        }
        proof {
            assert(ids.take(n as int) =~= ids);
        }
        devices
    }
}

/// Push then reload is the identity on an aggregate that carries only its
/// identification: writing such a model into an empty store and
/// reconstructing every stored model yields exactly that one model, every
/// optional part still absent. Together with the contracts of `push` and
/// `get_all` this pins the round trip of the minimal aggregate.
pub proof fn lemma_push_reload_identification(m: DeviceModelView)
    requires
        m.wf(),
        m.measurement_catalog is None,
        m.measurements is None,
        m.unit_catalog is None,
        m.composition is None,
    ensures
        ({
            let st = GraphStoreView {
                records: model_push_records(m),
                edges: model_push_edges(m),
            };
            spec_get_all(st, st.table_ids("device"@)) == seq![m]
        }),
{
    let st = GraphStoreView { records: model_push_records(m), edges: model_push_edges(m) };
    lemma_tables_distinct();
    reveal_strlit("device_identification");
    reveal_strlit("device_measurement_catalog");
    reveal_strlit("device_measurements");
    assert(("device_identification"@).len() == 21);
    assert(("device_measurement_catalog"@).len() == 26);
    assert(("device_measurements"@).len() == 19);
    let id = m.identification.id;
    let dref = record_ref_text("device"@, id);
    let dev_rec = device_record(id);
    let ident_rec = identification_record(m.identification);
    let ident_edg = identification_edge(m.identification, dref);
    assert(st.records =~= seq![dev_rec, ident_rec]);
    assert(st.edges =~= seq![ident_edg]);

    // The device table lists exactly this one root id.
    let st1 = GraphStoreView { records: st.records.drop_last(), ..st };
    let st0 = GraphStoreView { records: st1.records.drop_last(), ..st1 };
    assert(st.records.last() == ident_rec);
    assert(st1.records =~= seq![dev_rec]);
    assert(st0.records =~= Seq::<RecordView>::empty());
    assert(st0.table_ids("device"@) =~= Seq::<Seq<char>>::empty());
    assert(st1.table_ids("device"@) =~= seq![id]);
    assert(st.table_ids("device"@) =~= seq![id]);

    // The identification resolves over its relation.
    let p_edge = |e: EdgeView| e.relation == "device_identification"@ && e.from == dref;
    assert(p_edge(st.edges[0]));
    crate::keyed::lemma_first_index_where_is(st.edges, p_edge, 0);
    assert(st.first_edge_out("device_identification"@, dref) == Some(id));
    let p_rec = |r: RecordView| r.table == "identification"@ && r.id == id;
    assert(p_rec(st.records[1]));
    assert(!p_rec(st.records[0]));
    crate::keyed::lemma_first_index_where_is(st.records, p_rec, 1);
    assert(st.has_record("identification"@, id));
    assert(st.lookup("identification"@, id) == Some(
        crate::store::RecordContentView::Identification(m.identification),
    ));
    assert(spec_resolve_identification(st, dref) == Some(m.identification));

    // No measurement catalog edge leaves the root.
    let p_cat = |e: EdgeView| e.relation == "device_measurement_catalog"@ && e.from == dref;
    crate::keyed::lemma_first_index_where(st.edges, p_cat);
    if crate::keyed::first_index_where(st.edges, p_cat) >= 0 {
        assert(p_cat(st.edges[0]));
        assert(false);
    }
    assert(st.first_edge_out("device_measurement_catalog"@, dref) is None);

    // No measurement edge leaves the root.
    let ste = GraphStoreView { edges: st.edges.drop_last(), ..st };
    assert(ste.edges =~= Seq::<EdgeView>::empty());
    assert(ste.edge_outs("device_measurements"@, dref) =~= Seq::<Seq<char>>::empty());
    assert(st.edges.last().relation != "device_measurements"@);
    assert(st.edge_outs("device_measurements"@, dref) =~= Seq::<Seq<char>>::empty());
    assert(spec_resolved_measurements(st, st.edge_outs("device_measurements"@, dref)).len()
        == 0);

    // The reconstruction is exactly the pushed model.
    let base = DeviceModelView {
        identification: m.identification,
        measurement_catalog: None,
        measurements: None,
        unit_catalog: None,
        composition: None,
    };
    assert(spec_reconstruct_device(st, id) == Some(base));
    assert(base == m);
    assert(st.table_ids("device"@).drop_last() =~= Seq::<Seq<char>>::empty());
    assert(spec_get_all(st, Seq::<Seq<char>>::empty()) =~= Seq::<DeviceModelView>::empty());
    assert(st.table_ids("device"@).last() == id);
    assert(spec_get_all(st, st.table_ids("device"@)) =~= seq![m]);
}

/// Which table ids a store lists depends on its records alone.
proof fn lemma_table_ids_only_records(a: GraphStoreView, b: GraphStoreView, table: Seq<char>)
    requires
        a.records == b.records,
    ensures
        a.table_ids(table) == b.table_ids(table),
    decreases a.records.len(),
{
    if a.records.len() > 0 {
        lemma_table_ids_only_records(
            GraphStoreView { records: a.records.drop_last(), ..a },
            GraphStoreView { records: b.records.drop_last(), ..b },
            table,
        );
    }
}

/// Records of other tables do not change what a table lists.
proof fn lemma_table_ids_append_other(
    head: Seq<RecordView>,
    tail: Seq<RecordView>,
    table: Seq<char>,
)
    requires
        forall|k: int| 0 <= k < tail.len() ==> (#[trigger] tail[k]).table != table,
    ensures
        (GraphStoreView { records: head + tail, edges: Seq::<EdgeView>::empty() }).table_ids(
            table,
        ) == (GraphStoreView { records: head, edges: Seq::<EdgeView>::empty() }).table_ids(table),
    decreases tail.len(),
{
    if tail.len() > 0 {
        let whole = GraphStoreView { records: head + tail, edges: Seq::<EdgeView>::empty() };
        assert((head + tail).drop_last() =~= head + tail.drop_last());
        lemma_table_ids_only_records(
            GraphStoreView { records: whole.records.drop_last(), ..whole },
            GraphStoreView {
                records: head + tail.drop_last(),
                edges: Seq::<EdgeView>::empty(),
            },
            table,
        );
        lemma_table_ids_append_other(head, tail.drop_last(), table);
        assert((head + tail).last() == tail.last());
    }
}

/// Which far endpoints a traversal lists depends on the edges alone.
proof fn lemma_edge_outs_only_edges(
    a: GraphStoreView,
    b: GraphStoreView,
    relation: Seq<char>,
    from: Seq<char>,
)
    requires
        a.edges == b.edges,
    ensures
        a.edge_outs(relation, from) == b.edge_outs(relation, from),
    decreases a.edges.len(),
{
    if a.edges.len() > 0 {
        lemma_edge_outs_only_edges(
            GraphStoreView { edges: a.edges.drop_last(), ..a },
            GraphStoreView { edges: b.edges.drop_last(), ..b },
            relation,
            from,
        );
    }
}

/// Edges of another relation or another near endpoint do not change what
/// a traversal lists.
proof fn lemma_edge_outs_append_other(
    head: Seq<EdgeView>,
    tail: Seq<EdgeView>,
    relation: Seq<char>,
    from: Seq<char>,
)
    requires
        forall|k: int|
            0 <= k < tail.len() ==> (#[trigger] tail[k]).relation != relation || tail[k].from
                != from,
    ensures
        (GraphStoreView { records: Seq::<RecordView>::empty(), edges: head + tail }).edge_outs(
            relation,
            from,
        ) == (GraphStoreView { records: Seq::<RecordView>::empty(), edges: head }).edge_outs(
            relation,
            from,
        ),
    decreases tail.len(),
{
    if tail.len() > 0 {
        let whole = GraphStoreView { records: Seq::<RecordView>::empty(), edges: head + tail };
        assert((head + tail).drop_last() =~= head + tail.drop_last());
        lemma_edge_outs_only_edges(
            GraphStoreView { edges: whole.edges.drop_last(), ..whole },
            GraphStoreView {
                records: Seq::<RecordView>::empty(),
                edges: head + tail.drop_last(),
            },
            relation,
            from,
        );
        lemma_edge_outs_append_other(head, tail.drop_last(), relation, from);
        assert((head + tail).last() == tail.last());
    }
}

/// Appending a catalog's definition edges appends exactly the definition
/// ids to what the traversal from the catalog lists.
proof fn lemma_edge_outs_definition_edges(
    head: Seq<EdgeView>,
    ds: Seq<crate::model::measurement::MeasurementDefinitionView>,
    from: Seq<char>,
)
    ensures
        (GraphStoreView {
            records: Seq::<RecordView>::empty(),
            edges: head + definition_edges(ds, from),
        }).edge_outs("measurement_definitions"@, from) == (GraphStoreView {
            records: Seq::<RecordView>::empty(),
            edges: head,
        }).edge_outs("measurement_definitions"@, from) + ds.map_values(
            |d: crate::model::measurement::MeasurementDefinitionView| d.id,
        ),
    decreases ds.len(),
{
    let ids = |d: crate::model::measurement::MeasurementDefinitionView| d.id;
    if ds.len() == 0 {
        assert(head + definition_edges(ds, from) =~= head);
        assert((GraphStoreView {
            records: Seq::<RecordView>::empty(),
            edges: head,
        }).edge_outs("measurement_definitions"@, from) + ds.map_values(ids) =~= (GraphStoreView {
            records: Seq::<RecordView>::empty(),
            edges: head,
        }).edge_outs("measurement_definitions"@, from));
    } else {
        let whole = GraphStoreView {
            records: Seq::<RecordView>::empty(),
            edges: head + definition_edges(ds, from),
        };
        assert(whole.edges.last() == definition_edges(ds, from)[ds.len() - 1]);
        assert(whole.edges.last().relation == "measurement_definitions"@);
        assert(whole.edges.last().from == from);
        assert(whole.edges.last().to_id == ds.last().id);
        assert((head + definition_edges(ds, from)).drop_last() =~= head + definition_edges(
            ds.drop_last(),
            from,
        ));
        lemma_edge_outs_only_edges(
            GraphStoreView { edges: whole.edges.drop_last(), ..whole },
            GraphStoreView {
                records: Seq::<RecordView>::empty(),
                edges: head + definition_edges(ds.drop_last(), from),
            },
            "measurement_definitions"@,
            from,
        );
        lemma_edge_outs_definition_edges(head, ds.drop_last(), from);
        assert((GraphStoreView {
            records: Seq::<RecordView>::empty(),
            edges: head,
        }).edge_outs("measurement_definitions"@, from) + ds.map_values(ids) =~= ((GraphStoreView {
            records: Seq::<RecordView>::empty(),
            edges: head,
        }).edge_outs("measurement_definitions"@, from) + ds.drop_last().map_values(ids)).push(
            ds.last().id,
        ));
    }
}

/// A list of definition ids that all resolve resolves to the definitions
/// themselves, in order.
proof fn lemma_resolved_definitions_all(
    st: GraphStoreView,
    ds: Seq<crate::model::measurement::MeasurementDefinitionView>,
)
    requires
        forall|i: int|
            0 <= i < ds.len() ==> st.lookup("measurement_definition"@, (#[trigger] ds[i]).id)
                == Some(
                crate::store::RecordContentView::MeasurementDefinition(ds[i]),
            ),
    ensures
        crate::db::measurement::spec_resolved_definitions(
            st,
            ds.map_values(|d: crate::model::measurement::MeasurementDefinitionView| d.id),
        ) == ds,
    decreases ds.len(),
{
    let ids = |d: crate::model::measurement::MeasurementDefinitionView| d.id;
    if ds.len() == 0 {
        assert(crate::db::measurement::spec_resolved_definitions(st, ds.map_values(ids)) =~= ds);
    } else {
        assert(ds.map_values(ids).drop_last() =~= ds.drop_last().map_values(ids));
        assert(ds.map_values(ids).last() == ds.last().id);
        lemma_resolved_definitions_all(st, ds.drop_last());
        assert(crate::db::measurement::spec_resolved_definitions(st, ds.map_values(ids))
            =~= ds.drop_last().push(ds.last()));
        assert(ds.drop_last().push(ds.last()) =~= ds);
    }
}

/// Push then reload preserves a measurement catalog: writing a model that
/// carries its identification and a measurement catalog into an empty
/// store and reconstructing every stored model yields that one model,
/// with the same catalog holding the same definitions, in reverse order
/// (reinsertion keyed by id runs through the resolved batch from its
/// last element).
pub proof fn lemma_push_reload_catalog(m: DeviceModelView)
    requires
        m.wf(),
        m.measurement_catalog is Some,
        m.measurements is None,
        m.unit_catalog is None,
        m.composition is None,
    ensures
        ({
            let st = GraphStoreView {
                records: model_push_records(m),
                edges: model_push_edges(m),
            };
            let c = m.measurement_catalog->Some_0;
            spec_get_all(st, st.table_ids("device"@)) == seq![
                DeviceModelView {
                    measurement_catalog: Some(
                        crate::model::measurement::MeasurementCatalogView {
                            id: c.id,
                            name: c.name,
                            description: c.description,
                            definitions: c.definitions.reverse(),
                        },
                    ),
                    ..m
                },
            ]
        }),
{
    let st = GraphStoreView { records: model_push_records(m), edges: model_push_edges(m) };
    let c = m.measurement_catalog->Some_0;
    let ds = c.definitions;
    let n = ds.len() as int;
    let id = m.identification.id;
    let dref = record_ref_text("device"@, id);
    let cref = record_ref_text("measurement_catalog"@, c.id);
    let ids_of = |d: crate::model::measurement::MeasurementDefinitionView| d.id;
    lemma_tables_distinct();
    reveal_strlit("device_identification");
    reveal_strlit("device_measurement_catalog");
    reveal_strlit("device_measurements");
    reveal_strlit("measurement_definitions");
    assert(("device_identification"@).len() == 21);
    assert(("device_measurement_catalog"@).len() == 26);
    assert(("device_measurements"@).len() == 19);
    assert(("measurement_definitions"@).len() == 23);

    let head3 = seq![device_record(id), identification_record(m.identification),
        catalog_record(c)];
    assert(st.records =~= head3 + definition_records(ds));
    let ehead = seq![identification_edge(m.identification, dref)];
    let cat_edge = catalog_device_edge(c.id, dref);
    assert(st.edges =~= ehead + definition_edges(ds, cref) + seq![cat_edge]);

    // The device table lists exactly this one root id.
    assert forall|k: int|
        0 <= k < (st.records.skip(1)).len() implies (#[trigger] st.records.skip(1)[k]).table
        != "device"@ by {
        if k >= 2 {
            assert(st.records.skip(1)[k] == definition_records(ds)[k - 2]);
        }
    }
    assert(st.records =~= seq![device_record(id)] + st.records.skip(1));
    lemma_table_ids_only_records(
        st,
        GraphStoreView {
            records: seq![device_record(id)] + st.records.skip(1),
            edges: Seq::<EdgeView>::empty(),
        },
        "device"@,
    );
    lemma_table_ids_append_other(seq![device_record(id)], st.records.skip(1), "device"@);
    let st_dev = GraphStoreView {
        records: seq![device_record(id)],
        edges: Seq::<EdgeView>::empty(),
    };
    assert(st_dev.records.drop_last() =~= Seq::<RecordView>::empty());
    assert((GraphStoreView { records: Seq::<RecordView>::empty(), ..st_dev }).table_ids("device"@)
        =~= Seq::<Seq<char>>::empty());
    assert(st_dev.table_ids("device"@) =~= seq![id]);
    assert(st.table_ids("device"@) =~= seq![id]);

    // The identification resolves over its relation.
    let p_edge = |e: EdgeView| e.relation == "device_identification"@ && e.from == dref;
    assert(p_edge(st.edges[0]));
    crate::keyed::lemma_first_index_where_is(st.edges, p_edge, 0);
    assert(st.first_edge_out("device_identification"@, dref) == Some(id));
    let p_ident = |r: RecordView| r.table == "identification"@ && r.id == id;
    assert(p_ident(st.records[1]));
    assert(!p_ident(st.records[0]));
    crate::keyed::lemma_first_index_where_is(st.records, p_ident, 1);
    assert(st.lookup("identification"@, id) == Some(
        crate::store::RecordContentView::Identification(m.identification),
    ));
    assert(spec_resolve_identification(st, dref) == Some(m.identification));

    // The catalog edge is found, and the catalog record resolves.
    let p_cedge = |e: EdgeView| e.relation == "device_measurement_catalog"@ && e.from == dref;
    assert(p_cedge(st.edges[1 + n]));
    assert forall|k: int| 0 <= k < 1 + n implies !p_cedge(st.edges[k]) by {
        if k >= 1 {
            assert(st.edges[k] == definition_edges(ds, cref)[k - 1]);
        }
    }
    crate::keyed::lemma_first_index_where_is(st.edges, p_cedge, 1 + n);
    assert(st.first_edge_out("device_measurement_catalog"@, dref) == Some(c.id));
    let p_cat = |r: RecordView| r.table == "measurement_catalog"@ && r.id == c.id;
    assert(p_cat(st.records[2]));
    assert(!p_cat(st.records[0]) && !p_cat(st.records[1]));
    crate::keyed::lemma_first_index_where_is(st.records, p_cat, 2);
    assert(st.lookup("measurement_catalog"@, c.id) == Some(
        crate::store::RecordContentView::CatalogFields {
            id: c.id,
            name: c.name,
            description: c.description,
        },
    ));

    // The traversal from the catalog lists the definition ids in order.
    lemma_edge_outs_only_edges(
        st,
        GraphStoreView {
            records: Seq::<RecordView>::empty(),
            edges: (ehead + definition_edges(ds, cref)) + seq![cat_edge],
        },
        "measurement_definitions"@,
        cref,
    );
    lemma_edge_outs_append_other(
        ehead + definition_edges(ds, cref),
        seq![cat_edge],
        "measurement_definitions"@,
        cref,
    );
    lemma_edge_outs_definition_edges(ehead, ds, cref);
    let st_eh = GraphStoreView { records: Seq::<RecordView>::empty(), edges: ehead };
    assert(st_eh.edges.drop_last() =~= Seq::<EdgeView>::empty());
    assert((GraphStoreView { edges: Seq::<EdgeView>::empty(), ..st_eh }).edge_outs(
        "measurement_definitions"@,
        cref,
    ) =~= Seq::<Seq<char>>::empty());
    assert(st_eh.edge_outs("measurement_definitions"@, cref) =~= Seq::<Seq<char>>::empty());
    assert(st.edge_outs("measurement_definitions"@, cref) =~= ds.map_values(ids_of));

    // Every definition record resolves to its definition.
    assert forall|i: int| 0 <= i < n implies st.lookup(
        "measurement_definition"@,
        (#[trigger] ds[i]).id,
    ) == Some(crate::store::RecordContentView::MeasurementDefinition(ds[i])) by {
        let p = |r: RecordView| r.table == "measurement_definition"@ && r.id == ds[i].id;
        assert(st.records[3 + i] == definition_records(ds)[i]);
        assert(p(st.records[3 + i]));
        assert forall|k: int| 0 <= k < 3 + i implies !p(st.records[k]) by {
            if k >= 3 {
                assert(st.records[k] == definition_records(ds)[k - 3]);
                assert(definition_records(ds)[k - 3].id == ds[k - 3].id);
            }
        }
        crate::keyed::lemma_first_index_where_is(st.records, p, 3 + i);
    }
    lemma_resolved_definitions_all(st, ds);

    // The reconstructed catalog holds the same definitions, reversed.
    let base_cat = crate::model::measurement::MeasurementCatalogView {
        id: c.id,
        name: c.name,
        description: c.description,
        definitions: Seq::<crate::model::measurement::MeasurementDefinitionView>::empty(),
    };
    crate::model::measurement::lemma_add_definitions_fresh(base_cat, ds);
    assert(base_cat.spec_add_definitions(ds).definitions =~= ds.reverse());
    let rebuilt_cat = crate::model::measurement::MeasurementCatalogView {
        id: c.id,
        name: c.name,
        description: c.description,
        definitions: ds.reverse(),
    };
    assert(spec_catalog_get(st, c.id) == Some(base_cat.spec_add_definitions(ds)));
    assert(base_cat.spec_add_definitions(ds) == rebuilt_cat);

    // No measurement edge leaves the root.
    let p_ms = |e: EdgeView| e.relation == "device_measurements"@ && e.from == dref;
    lemma_edge_outs_only_edges(
        st,
        GraphStoreView {
            records: Seq::<RecordView>::empty(),
            edges: Seq::<EdgeView>::empty() + st.edges,
        },
        "device_measurements"@,
        dref,
    );
    assert forall|k: int| 0 <= k < st.edges.len() implies (#[trigger] st.edges[k]).relation
        != "device_measurements"@ || st.edges[k].from != dref by {
        if 1 <= k < 1 + n {
            assert(st.edges[k] == definition_edges(ds, cref)[k - 1]);
        }
        if k == 1 + n {
            assert(st.edges[k] == cat_edge);
        }
    }
    lemma_edge_outs_append_other(
        Seq::<EdgeView>::empty(),
        st.edges,
        "device_measurements"@,
        dref,
    );
    assert((GraphStoreView {
        records: Seq::<RecordView>::empty(),
        edges: Seq::<EdgeView>::empty(),
    }).edge_outs("device_measurements"@, dref) =~= Seq::<Seq<char>>::empty());
    assert(Seq::<EdgeView>::empty() + st.edges =~= st.edges);
    assert(st.edge_outs("device_measurements"@, dref) =~= Seq::<Seq<char>>::empty());
    assert(spec_resolved_measurements(st, st.edge_outs("device_measurements"@, dref)).len()
        == 0);

    // The reconstruction is the pushed model with the rebuilt catalog.
    let target = DeviceModelView { measurement_catalog: Some(rebuilt_cat), ..m };
    assert(spec_reconstruct_device(st, id) == Some(target));
    assert(st.table_ids("device"@).drop_last() =~= Seq::<Seq<char>>::empty());
    assert(spec_get_all(st, Seq::<Seq<char>>::empty()) =~= Seq::<DeviceModelView>::empty());
    assert(st.table_ids("device"@).last() == id);
    assert(spec_get_all(st, st.table_ids("device"@)) =~= seq![target]);
}

/// Nothing in the measurement catalog's record group satisfies a
/// predicate that only holds away from the two catalog tables.
proof fn lemma_no_measurement_in_catalog_group(
    m: DeviceModelView,
    catg: Seq<RecordView>,
    p: spec_fn(RecordView) -> bool,
)
    requires
        catg == (match m.measurement_catalog {
            Some(c) => seq![catalog_record(c)] + definition_records(c.definitions),
            None => Seq::<RecordView>::empty(),
        }),
        forall|r: RecordView|
            #[trigger] p(r) ==> r.table != "measurement_catalog"@ && r.table
                != "measurement_definition"@,
    ensures
        !has_where(catg, p),
{
    if has_where(catg, p) {
        match m.measurement_catalog {
            Some(c) => {
                lemma_has_where_append(
                    seq![catalog_record(c)],
                    definition_records(c.definitions),
                    p,
                );
                if has_where(seq![catalog_record(c)], p) {
                    assert(p(catalog_record(c)));
                    assert(false);
                }
                if has_where(definition_records(c.definitions), p) {
                    let k = choose|k: int|
                        0 <= k < definition_records(c.definitions).len() && p(
                            definition_records(c.definitions)[k],
                        );
                    assert(definition_records(c.definitions)[k] == crate::db::definition_record(
                        c.definitions[k],
                    ));
                    assert(false);
                }
            },
            None => {
                let k = choose|k: int| 0 <= k < catg.len() && p(catg[k]);
                assert(false);
            },
        }
    }
}

/// Write each measurement and relate it to `from`, in order. Succeeds
/// exactly when every measurement id is fresh, provided the ids are
/// unique among themselves.
fn push_measurements_list(list: &Vec<Measurement>, store: &mut GraphStore, from: &String) -> (r:
    Result<(), StoreWriteError>)
    requires
        crate::model::device::measurement_ids_unique(
            list@.map_values(|x: Measurement| x@),
        ),
    ensures
        r is Ok <==> (forall|i: int|
            0 <= i < list@.len() ==> !old(store)@.has_record(
                "measurement"@,
                ((#[trigger] list@[i])@).id,
            )),
        r is Ok ==> final(store)@.records == old(store)@.records + measurement_records(
            list@.map_values(|x: Measurement| x@),
        ) && final(store)@.edges == old(store)@.edges + list@.map_values(
            |x: Measurement| x@,
        ).map_values(
            |x: crate::model::measurement::MeasurementView| measurement_edge(x, from@),
        ),
        r is Err ==> old(store)@.records.is_prefix_of(final(store)@.records) && old(
            store,
        )@.edges.is_prefix_of(final(store)@.edges),
{
    let ghost ms = list@.map_values(|x: Measurement| x@);
    let ghost g0 = old(store)@.records;
    let ghost e0 = old(store)@.edges;
    let ghost edge_of = |x: crate::model::measurement::MeasurementView|
        measurement_edge(x, from@);
    proof {
        assert(forall|i: int| 0 <= i < list@.len() ==> (#[trigger] list@[i])@ == ms[i]);
    }
    let n = list.len();
    let mut i: usize = 0;
    proof {
        assert(measurement_records(ms.take(0)) =~= Seq::<RecordView>::empty());
        assert(ms.take(0).map_values(edge_of) =~= Seq::<EdgeView>::empty());
        assert(store@.records =~= g0 + measurement_records(ms.take(0)));
        assert(store@.edges =~= e0 + ms.take(0).map_values(edge_of));
    }
    while i < n
        invariant
            i <= n,
            n == ms.len(),
            store@.records == g0 + measurement_records(ms.take(i as int)),
            store@.edges == e0 + ms.take(i as int).map_values(edge_of),
            forall|k: int|
                0 <= k < i ==> !old(store)@.has_record("measurement"@, (#[trigger] ms[k]).id),
        decreases n - i,
    {
        let ghost pre_records = store@.records;
        let ghost p = |r: RecordView| r.table == "measurement"@ && r.id == ms[i as int].id;
        match list[i].push(store) {
            Ok(_) => {},
            Err(e) => {
                proof {
                    assert(has_where(pre_records, p));
                    lemma_has_where_append(g0, measurement_records(ms.take(i as int)), p);
                    if has_where(measurement_records(ms.take(i as int)), p) {
                        let k = choose|k: int|
                            0 <= k < measurement_records(ms.take(i as int)).len() && p(
                                measurement_records(ms.take(i as int))[k],
                            );
                        assert(ms[k].id == ms[i as int].id);
                        assert(false);
                    }
                    assert(old(store)@.has_record("measurement"@, ms[i as int].id));
                    lemma_prefix_of_append(g0, measurement_records(ms.take(i as int)));
                    lemma_prefix_of_append(e0, ms.take(i as int).map_values(edge_of));
                }
                return Err(e);
            },
        }
        list[i].relate(store, from.clone());
        proof {
            lemma_has_where_append(g0, measurement_records(ms.take(i as int)), p);
            assert(!has_where(g0, p));
            assert(ms.take(i + 1 as int).drop_last() =~= ms.take(i as int));
            assert(ms.take(i + 1 as int).last() == ms[i as int]);
            assert(measurement_records(ms.take(i + 1 as int)) =~= measurement_records(
                ms.take(i as int),
            ).push(crate::db::measurement_record(ms[i as int])));
            assert(store@.records =~= g0 + measurement_records(ms.take(i + 1 as int)));
            assert(ms.take(i + 1 as int).map_values(edge_of) =~= ms.take(i as int).map_values(
                edge_of,
            ).push(measurement_edge(ms[i as int], from@)));
            assert(store@.edges =~= e0 + ms.take(i + 1 as int).map_values(edge_of));
        }
        i += 1;
    }
    proof {
        assert(ms.take(n as int) =~= ms);
    }
    Ok(())
}

/// Write each composition entry and relate it to `from`, in order.
/// Succeeds exactly when every entry id is fresh and the entry ids are
/// distinct among themselves.
fn push_compositions_list(
    list: &Vec<crate::model::composition::Composition>,
    store: &mut GraphStore,
    from: &String,
) -> (r: Result<(), StoreWriteError>)
    ensures
        r is Ok <==> ((forall|i: int|
            0 <= i < list@.len() ==> !old(store)@.has_record(
                "composition"@,
                ((#[trigger] list@[i])@).id,
            )) && (forall|i: int, j: int|
            0 <= i < list@.len() && 0 <= j < list@.len() && ((#[trigger] list@[i])@).id == ((
            #[trigger] list@[j])@).id ==> i == j)),
        r is Ok ==> final(store)@.records == old(store)@.records + composition_records(
            list@.map_values(|x: crate::model::composition::Composition| x@),
        ) && final(store)@.edges == old(store)@.edges + list@.map_values(
            |x: crate::model::composition::Composition| x@,
        ).map_values(
            |x: crate::model::composition::CompositionView| composition_edge(x, from@),
        ),
        r is Err ==> old(store)@.records.is_prefix_of(final(store)@.records) && old(
            store,
        )@.edges.is_prefix_of(final(store)@.edges),
{
    let ghost cs = list@.map_values(|x: crate::model::composition::Composition| x@);
    let ghost g0 = old(store)@.records;
    let ghost e0 = old(store)@.edges;
    let ghost edge_of = |x: crate::model::composition::CompositionView|
        composition_edge(x, from@);
    proof {
        assert(forall|i: int| 0 <= i < list@.len() ==> (#[trigger] list@[i])@ == cs[i]);
    }
    let n = list.len();
    let mut i: usize = 0;
    proof {
        assert(composition_records(cs.take(0)) =~= Seq::<RecordView>::empty());
        assert(cs.take(0).map_values(edge_of) =~= Seq::<EdgeView>::empty());
        assert(store@.records =~= g0 + composition_records(cs.take(0)));
        assert(store@.edges =~= e0 + cs.take(0).map_values(edge_of));
    }
    while i < n
        invariant
            i <= n,
            n == cs.len(),
            store@.records == g0 + composition_records(cs.take(i as int)),
            store@.edges == e0 + cs.take(i as int).map_values(edge_of),
            forall|k: int|
                0 <= k < i ==> !old(store)@.has_record("composition"@, (#[trigger] cs[k]).id),
            forall|k1: int, k2: int|
                0 <= k1 < i && 0 <= k2 < i && (#[trigger] cs[k1]).id == (#[trigger] cs[k2]).id
                    ==> k1 == k2,
        decreases n - i,
    {
        let ghost pre_records = store@.records;
        let ghost p = |r: RecordView| r.table == "composition"@ && r.id == cs[i as int].id;
        match list[i].push(store) {
            Ok(_) => {},
            Err(e) => {
                proof {
                    assert(has_where(pre_records, p));
                    lemma_has_where_append(g0, composition_records(cs.take(i as int)), p);
                    if has_where(composition_records(cs.take(i as int)), p) {
                        let k = choose|k: int|
                            0 <= k < composition_records(cs.take(i as int)).len() && p(
                                composition_records(cs.take(i as int))[k],
                            );
                        assert(cs[k].id == cs[i as int].id && k != i);
                    } else {
                        assert(old(store)@.has_record("composition"@, cs[i as int].id));
                    }
                    lemma_prefix_of_append(g0, composition_records(cs.take(i as int)));
                    lemma_prefix_of_append(e0, cs.take(i as int).map_values(edge_of));
                }
                return Err(e);
            },
        }
        list[i].relate(store, from.clone());
        proof {
            lemma_has_where_append(g0, composition_records(cs.take(i as int)), p);
            assert(!has_where(g0, p));
            assert(!has_where(composition_records(cs.take(i as int)), p));
            assert forall|k: int| 0 <= k < i implies cs[k].id != cs[i as int].id by {
                assert(composition_records(cs.take(i as int))[k] == crate::db::composition_record(
                    cs[k],
                ));
                assert(!p(composition_records(cs.take(i as int))[k]));
            }
            assert(cs.take(i + 1 as int).drop_last() =~= cs.take(i as int));
            assert(cs.take(i + 1 as int).last() == cs[i as int]);
            assert(composition_records(cs.take(i + 1 as int)) =~= composition_records(
                cs.take(i as int),
            ).push(crate::db::composition_record(cs[i as int])));
            assert(store@.records =~= g0 + composition_records(cs.take(i + 1 as int)));
            assert(cs.take(i + 1 as int).map_values(edge_of) =~= cs.take(i as int).map_values(
                edge_of,
            ).push(composition_edge(cs[i as int], from@)));
            assert(store@.edges =~= e0 + cs.take(i + 1 as int).map_values(edge_of));
        }
        i += 1;
    }
    proof {
        assert(cs.take(n as int) =~= cs);
    }
    Ok(())
}

/// Freshness of a catalog's records is unaffected by records of other
/// tables already written ahead of it.
proof fn lemma_catalog_ok_unaffected(
    c: crate::model::measurement::MeasurementCatalogView,
    st: GraphStoreView,
    mid: GraphStoreView,
    ext: Seq<RecordView>,
)
    requires
        mid.records == st.records + ext,
        forall|k: int|
            0 <= k < ext.len() ==> (#[trigger] ext[k]).table != "measurement_catalog"@ && ext[
                k
            ].table != "measurement_definition"@,
    ensures
        catalog_push_ok(c, mid) == catalog_push_ok(c, st),
{
    let p_cat = |r: RecordView| r.table == "measurement_catalog"@ && r.id == c.id;
    lemma_has_where_append(st.records, ext, p_cat);
    if has_where(ext, p_cat) {
        let k = choose|k: int| 0 <= k < ext.len() && p_cat(ext[k]);
        assert(false);
    }
    assert forall|i: int| 0 <= i < c.definitions.len() implies mid.has_record(
        "measurement_definition"@,
        (#[trigger] c.definitions[i]).id,
    ) == st.has_record("measurement_definition"@, c.definitions[i].id) by {
        let p = |r: RecordView| r.table == "measurement_definition"@ && r.id
            == c.definitions[i].id;
        lemma_has_where_append(st.records, ext, p);
        if has_where(ext, p) {
            let k = choose|k: int| 0 <= k < ext.len() && p(ext[k]);
            assert(false);
        }
    }
}

/// Freshness of a unit catalog's records is unaffected by records of
/// other tables already written ahead of it.
proof fn lemma_unit_catalog_ok_unaffected(
    u: crate::model::unit::UnitCatalogView,
    st: GraphStoreView,
    mid: GraphStoreView,
    ext: Seq<RecordView>,
)
    requires
        mid.records == st.records + ext,
        forall|k: int|
            0 <= k < ext.len() ==> (#[trigger] ext[k]).table != "unit_catalog"@ && ext[k].table
                != "unit"@,
    ensures
        unit_catalog_push_ok(u, mid) == unit_catalog_push_ok(u, st),
{
    let p_cat = |r: RecordView| r.table == "unit_catalog"@ && r.id == u.id;
    lemma_has_where_append(st.records, ext, p_cat);
    if has_where(ext, p_cat) {
        let k = choose|k: int| 0 <= k < ext.len() && p_cat(ext[k]);
        assert(false);
    }
    assert forall|i: int| 0 <= i < u.units.len() implies mid.has_record(
        "unit"@,
        (#[trigger] u.units[i]).id,
    ) == st.has_record("unit"@, u.units[i].id) by {
        let p = |r: RecordView| r.table == "unit"@ && r.id == u.units[i].id;
        lemma_has_where_append(st.records, ext, p);
        if has_where(ext, p) {
            let k = choose|k: int| 0 <= k < ext.len() && p(ext[k]);
            assert(false);
        }
    }
}

} // verus!
