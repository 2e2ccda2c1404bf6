//! Repository of composition records: the containment edges of the
//! aggregate, written under their generated entry ids.

use crate::db::composition_record;
use crate::model::composition::{Composition, CompositionView};
use crate::store::{record_ref, record_ref_text, EdgeView, GraphStore, RecordContent,
    StoreWriteError};
use vstd::prelude::*;

verus! {

/// The edge relating a device root to one composition entry.
pub open spec fn composition_edge(v: CompositionView, from: Seq<char>) -> EdgeView {
    EdgeView {
        relation: "device_compositions"@,
        from,
        to_table: "composition"@,
        to_id: v.id,
    }
}

impl Composition {
    pub fn get_db_table_name() -> (r: String)
        ensures
            r@ == "composition"@,
    {
        "composition".to_owned()
    }

    pub fn get_db_relate_name() -> (r: String)
        ensures
            r@ == "device_compositions"@,
    {
        "device_compositions".to_owned()
    }

    /// Write this entry as a new record; the returned record identifier
    /// addresses it. An already-used id is rejected.
    pub fn push(&self, store: &mut GraphStore) -> (r: Result<String, StoreWriteError>)
        ensures
            r is Ok <==> !old(store)@.has_record("composition"@, self@.id),
            r matches Ok(rid) ==> rid@ == record_ref_text("composition"@, self@.id)
                && final(store)@.records == old(store)@.records.push(composition_record(self@))
                && final(store)@.edges == old(store)@.edges,
            r is Err ==> *final(store) == *old(store),
    {
        let table = Composition::get_db_table_name();
        match store.create(
            table,
            self.get_id().clone(),
            RecordContent::Composition(self.duplicate()),
        ) {
            Ok(_) => Ok(record_ref("composition", self.get_id().as_str())),
            Err(e) => Err(e),
        }
    }

    /// Relate a parent record to this entry's record. Must follow a
    /// successful push.
    pub fn relate(&self, store: &mut GraphStore, id_to_relate: String)
        ensures
            final(store)@.edges == old(store)@.edges.push(
                composition_edge(self@, id_to_relate@),
            ),
            final(store)@.records == old(store)@.records,
    {
        let relation = Composition::get_db_relate_name();
        let table = Composition::get_db_table_name();
        store.relate(relation, id_to_relate, table, self.get_id().clone());
    }
}

} // verus!
