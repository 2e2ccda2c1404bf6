//! Repository of identification records: one per device, related to the
//! device root over `device_identification`.

use crate::db::identification_record;
use crate::model::identification::{Identification, IdentificationView};
use crate::store::{record_ref, record_ref_text, EdgeView, GraphStore, GraphStoreView,
    RecordContent, RecordContentView, StoreWriteError};
use vstd::prelude::*;

verus! {

/// The edge relating a device root to its identification.
pub open spec fn identification_edge(v: IdentificationView, from: Seq<char>) -> EdgeView {
    EdgeView {
        relation: "device_identification"@,
        from,
        to_table: "identification"@,
        to_id: v.id,
    }
}

/// The identification an `device_identification` edge from `from` leads
/// to, when the edge exists and its far endpoint resolves.
pub open spec fn spec_resolve_identification(st: GraphStoreView, from: Seq<char>) -> Option<
    IdentificationView,
> {
    match st.first_edge_out("device_identification"@, from) {
        None => None,
        Some(id) => match st.lookup("identification"@, id) {
            Some(RecordContentView::Identification(v)) => Some(v),
            _ => None,
        },
    }
}

impl Identification {
    pub fn get_db_table_name() -> (r: String)
        ensures
            r@ == "identification"@,
    {
        "identification".to_owned()
    }

    pub fn get_db_relate_name() -> (r: String)
        ensures
            r@ == "device_identification"@,
    {
        "device_identification".to_owned()
    }

    /// Write this identification as a new record; the returned record
    /// identifier addresses it. An already-used id is rejected.
    pub fn push(&self, store: &mut GraphStore) -> (r: Result<String, StoreWriteError>)
        ensures
            r is Ok <==> !old(store)@.has_record("identification"@, self@.id),
            r matches Ok(rid) ==> rid@ == record_ref_text("identification"@, self@.id)
                && final(store)@.records == old(store)@.records.push(
                identification_record(self@),
            ) && final(store)@.edges == old(store)@.edges,
            r is Err ==> *final(store) == *old(store),
    {
        let table = Identification::get_db_table_name();
        match store.create(
            table,
            self.get_id().clone(),
            RecordContent::Identification(self.duplicate()),
        ) {
            Ok(_) => Ok(record_ref("identification", self.get_id().as_str())),
            Err(e) => Err(e),
        }
    }

    /// Relate a parent record to this identification's record. Must follow
    /// a successful push.
    pub fn relate(&self, store: &mut GraphStore, id_to_relate: String)
        ensures
            final(store)@.edges == old(store)@.edges.push(
                identification_edge(self@, id_to_relate@),
            ),
            final(store)@.records == old(store)@.records,
    {
        let relation = Identification::get_db_relate_name();
        let table = Identification::get_db_table_name();
        store.relate(relation, id_to_relate, table, self.get_id().clone());
    }

    /// Point lookup by id; absence is not an error.
    pub fn get(store: &GraphStore, id: String) -> (r: Option<Identification>)
        ensures
            match r {
                Some(x) => store@.lookup("identification"@, id@) == Some(
                    RecordContentView::Identification(x@),
                ),
                None => !(store@.lookup("identification"@, id@) matches Some(
                    RecordContentView::Identification(_),
                )),
            },
    {
        match store.select("identification", id.as_str()) {
            Some(RecordContent::Identification(x)) => Some(x.duplicate()),
            _ => None,
        }
    }

    /// Resolve the identification related to `id_in`: the far endpoint of
    /// the first `device_identification` edge, fetched by id. An edge to a
    /// missing record yields absence, not an error.
    pub fn get_from_relation(store: &GraphStore, id_in: String) -> (r: Option<Identification>)
        ensures
            match r {
                Some(x) => spec_resolve_identification(store@, id_in@) == Some(x@),
                None => spec_resolve_identification(store@, id_in@) is None,
            },
    {
        match store.first_out("device_identification", id_in.as_str()) {
            None => None,
            Some(ident_id) => Identification::get(store, ident_id),
        }
    }
}

} // verus!
