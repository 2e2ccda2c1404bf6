//! The graph store as a value: records in tables and directed, typed edges.
//!
//! This is the in-memory model of the property-graph store that the
//! persistence protocol is verified against. The record identifier format
//! and the statement builders at the bottom define the wire protocol that a
//! networked store speaks.

use crate::keyed::{first_index_where, has_where, lemma_first_index_where,
    lemma_first_index_where_is};
use crate::text::str_equal;
use crate::model::composition::{Composition, CompositionView};
use crate::model::identification::{Identification, IdentificationView};
use crate::model::measurement::{Measurement, MeasurementDefinition, MeasurementDefinitionView,
    MeasurementView};
use crate::model::unit::{Unit, UnitView};
use vstd::prelude::*;

verus! {

/// Mathematical value of a [`RecordContent`].
pub enum RecordContentView {
    Device,
    Identification(IdentificationView),
    CatalogFields { id: Seq<char>, name: Seq<char>, description: Seq<char> },
    MeasurementDefinition(MeasurementDefinitionView),
    Measurement(MeasurementView),
    UnitCatalogFields { id: Seq<char>, name: Seq<char>, description: Seq<char> },
    Unit(UnitView),
    Composition(CompositionView),
}

/// What one record of the store holds. The device root record carries no
/// fields beyond its id; the two catalog records carry their scalar fields
/// only, their children being separate records reached over edges.
pub enum RecordContent {
    Device,
    Identification(Identification),
    CatalogFields { id: String, name: String, description: String },
    MeasurementDefinition(MeasurementDefinition),
    Measurement(Measurement),
    UnitCatalogFields { id: String, name: String, description: String },
    Unit(Unit),
    Composition(Composition),
}

impl View for RecordContent {
    type V = RecordContentView;

    open spec fn view(&self) -> RecordContentView {
        match self {
            RecordContent::Device => RecordContentView::Device,
            RecordContent::Identification(x) => RecordContentView::Identification(x@),
            RecordContent::CatalogFields { id, name, description } =>
                RecordContentView::CatalogFields {
                    id: id@,
                    name: name@,
                    description: description@,
                },
            RecordContent::MeasurementDefinition(x) =>
                RecordContentView::MeasurementDefinition(x@),
            RecordContent::Measurement(x) => RecordContentView::Measurement(x@),
            RecordContent::UnitCatalogFields { id, name, description } =>
                RecordContentView::UnitCatalogFields {
                    id: id@,
                    name: name@,
                    description: description@,
                },
            RecordContent::Unit(x) => RecordContentView::Unit(x@),
            RecordContent::Composition(x) => RecordContentView::Composition(x@),
        }
    }
}

/// Mathematical value of one store record.
pub struct RecordView {
    pub table: Seq<char>,
    pub id: Seq<char>,
    pub content: RecordContentView,
}

struct StoreRecord {
    table: String,
    id: String,
    content: RecordContent,
}

impl View for StoreRecord {
    type V = RecordView;

    closed spec fn view(&self) -> RecordView {
        RecordView { table: self.table@, id: self.id@, content: self.content@ }
    }
}

/// Mathematical value of one directed, typed edge.
pub struct EdgeView {
    pub relation: Seq<char>,
    pub from: Seq<char>,
    pub to_table: Seq<char>,
    pub to_id: Seq<char>,
}

struct StoreEdge {
    relation: String,
    from: String,
    to_table: String,
    to_id: String,
}

impl View for StoreEdge {
    type V = EdgeView;

    closed spec fn view(&self) -> EdgeView {
        EdgeView {
            relation: self.relation@,
            from: self.from@,
            to_table: self.to_table@,
            to_id: self.to_id@,
        }
    }
}

/// A write was rejected by the store.
#[derive(Clone, Copy, PartialEq, Eq, Structural, Debug)]
pub enum StoreWriteError {
    /// A record with the same table and id already exists: creation never
    /// replaces, it rejects the duplicate key.
    DuplicateId,
}

/// Mathematical value of the whole store.
pub struct GraphStoreView {
    pub records: Seq<RecordView>,
    pub edges: Seq<EdgeView>,
}

impl GraphStoreView {
    /// A record with this table and id exists.
    pub open spec fn has_record(self, table: Seq<char>, id: Seq<char>) -> bool {
        has_where(self.records, |r: RecordView| r.table == table && r.id == id)
    }

    /// Index of the first record with this table and id, `-1` when absent.
    pub open spec fn record_index(self, table: Seq<char>, id: Seq<char>) -> int {
        first_index_where(self.records, |r: RecordView| r.table == table && r.id == id)
    }

    /// The content of the record with this table and id, when one exists.
    pub open spec fn lookup(self, table: Seq<char>, id: Seq<char>) -> Option<RecordContentView> {
        if self.has_record(table, id) {
            Some(self.records[self.record_index(table, id)].content)
        } else {
            None
        }
    }

    /// The ids of the records of this table, in creation order.
    pub open spec fn table_ids(self, table: Seq<char>) -> Seq<Seq<char>>
        decreases self.records.len(),
    {
        if self.records.len() == 0 {
            Seq::<Seq<char>>::empty()
        } else {
            let pre = (GraphStoreView { records: self.records.drop_last(), ..self }).table_ids(
                table,
            );
            if self.records.last().table == table {
                pre.push(self.records.last().id)
            } else {
                pre
            }
        }
    }

    /// The far-endpoint ids of the edges of this relation leaving `from`,
    /// in creation order.
    pub open spec fn edge_outs(self, relation: Seq<char>, from: Seq<char>) -> Seq<Seq<char>>
        decreases self.edges.len(),
    {
        if self.edges.len() == 0 {
            Seq::<Seq<char>>::empty()
        } else {
            let pre = (GraphStoreView { edges: self.edges.drop_last(), ..self }).edge_outs(
                relation,
                from,
            );
            if self.edges.last().relation == relation && self.edges.last().from == from {
                pre.push(self.edges.last().to_id)
            } else {
                pre
            }
        }
    }

    /// The far-endpoint id of the first edge of this relation leaving
    /// `from`, when one exists.
    pub open spec fn first_edge_out(self, relation: Seq<char>, from: Seq<char>) -> Option<
        Seq<char>,
    > {
        let i = first_index_where(
            self.edges,
            |e: EdgeView| e.relation == relation && e.from == from,
        );
        if 0 <= i < self.edges.len() {
            Some(self.edges[i].to_id)
        } else {
            None
        }
    }
}

/// The store as a value: every record and every edge written so far.
pub struct GraphStore {
    records: Vec<StoreRecord>,
    edges: Vec<StoreEdge>,
}

impl View for GraphStore {
    type V = GraphStoreView;

    closed spec fn view(&self) -> GraphStoreView {
        GraphStoreView {
            records: self.records@.map_values(|r: StoreRecord| r@),
            edges: self.edges@.map_values(|e: StoreEdge| e@),
        }
    }
}

impl GraphStore {
    /// An empty store.
    pub fn new() -> (r: GraphStore)
        ensures
            r@.records == Seq::<RecordView>::empty(),
            r@.edges == Seq::<EdgeView>::empty(),
    {
        let r = GraphStore { records: Vec::new(), edges: Vec::new() };
        proof {
            assert(r@.records =~= Seq::<RecordView>::empty());
            assert(r@.edges =~= Seq::<EdgeView>::empty());
        }
        r
    }

    /// Write a new record. A record under an already-used table and id is
    /// rejected, never replaced.
    pub fn create(&mut self, table: String, id: String, content: RecordContent) -> (r: Result<
        (),
        StoreWriteError,
    >)
        ensures
            r is Ok <==> !old(self)@.has_record(table@, id@),
            r is Ok ==> final(self)@.records == old(self)@.records.push(
                RecordView { table: table@, id: id@, content: content@ },
            ) && final(self)@.edges == old(self)@.edges,
            r is Err ==> *final(self) == *old(self) && r == Err::<(), StoreWriteError>(
                StoreWriteError::DuplicateId,
            ),
    {
        let ghost p = |r: RecordView| r.table == table@ && r.id == id@;
        let n = self.records.len();
        let mut i: usize = 0;
        while i < n
            invariant
                i <= n,
                self == old(self),
                forall|k: int| 0 <= k < i ==> !p(self@.records[k]),
            decreases n - i,
        {
            let same_table = self.records[i].table.eq(&table);
            let same_id = self.records[i].id.eq(&id);
            if same_table && same_id {
                proof {
                    assert(p(self@.records[i as int]));
                }
                return Err(StoreWriteError::DuplicateId);
            }
            i += 1;
        }
        let record = StoreRecord { table, id, content };
        proof {
            assert(!has_where(old(self)@.records, p));
            crate::keyed::lemma_map_values_push(self.records@, |r: StoreRecord| r@, record);
        }
        self.records.push(record);
        Ok(())
    }

    /// Write a directed edge of the given relation. The store accepts any
    /// endpoints; that an edge only follows its target's record is the
    /// protocol's create-then-relate ordering, not a store rule.
    pub fn relate(&mut self, relation: String, from: String, to_table: String, to_id: String)
        ensures
            final(self)@.edges == old(self)@.edges.push(
                EdgeView {
                    relation: relation@,
                    from: from@,
                    to_table: to_table@,
                    to_id: to_id@,
                },
            ),
            final(self)@.records == old(self)@.records,
    {
        let edge = StoreEdge { relation, from, to_table, to_id };
        proof {
            crate::keyed::lemma_map_values_push(self.edges@, |e: StoreEdge| e@, edge);
        }
        self.edges.push(edge);
    }

    /// Point lookup: the content of the record with this table and id.
    /// Absence is not an error.
    pub fn select(&self, table: &str, id: &str) -> (r: Option<&RecordContent>)
        ensures
            match r {
                Some(c) => self@.lookup(table@, id@) == Some(c@),
                None => self@.lookup(table@, id@) is None,
            },
    {
        let ghost p = |r: RecordView| r.table == table@ && r.id == id@;
        let n = self.records.len();
        let mut i: usize = 0;
        while i < n
            invariant
                i <= n,
                forall|k: int| 0 <= k < i ==> !p(self@.records[k]),
            decreases n - i,
        {
            let same_table = str_equal(self.records[i].table.as_str(), table);
            let same_id = str_equal(self.records[i].id.as_str(), id);
            if same_table && same_id {
                proof {
                    assert(p(self@.records[i as int]));
                    lemma_first_index_where_is(self@.records, p, i as int);
                }
                return Some(&self.records[i].content);
            }
            i += 1;
        }
        proof {
            lemma_first_index_where(self@.records, p);
            assert(!has_where(self@.records, p));
        }
        None
    }

    /// The ids of the records of this table, in creation order.
    pub fn select_table_ids(&self, table: &str) -> (r: Vec<String>)
        ensures
            r@.map_values(|x: String| x@) == self@.table_ids(table@),
    {
        let ghost f = |x: String| x@;
        let mut out: Vec<String> = Vec::new();
        let n = self.records.len();
        let mut i: usize = 0;
        proof {
            assert(out@.map_values(f) =~= (GraphStoreView {
                records: self@.records.take(0),
                ..self@
            }).table_ids(table@));
        }
        while i < n
            invariant
                i <= n,
                out@.map_values(f) == (GraphStoreView {
                    records: self@.records.take(i as int),
                    ..self@
                }).table_ids(table@),
            decreases n - i,
        {
            let ghost pre = out@;
            if str_equal(self.records[i].table.as_str(), table) {
                out.push(self.records[i].id.clone());
                proof {
                    crate::keyed::lemma_map_values_push(pre, f, self.records@[i as int].id);
                }
            }
            proof {
                assert(self@.records.take(i + 1 as int).drop_last() =~= self@.records.take(
                    i as int,
                ));
                assert(self@.records.take(i + 1 as int).last() == self@.records[i as int]);
            }
            i += 1;
        }
        proof {
            assert(self@.records.take(n as int) =~= self@.records);
        }
        out
    }

    /// Traversal: the far-endpoint ids of the edges of this relation whose
    /// near endpoint is `from`, in creation order.
    pub fn traverse_out(&self, relation: &str, from: &str) -> (r: Vec<String>)
        ensures
            r@.map_values(|x: String| x@) == self@.edge_outs(relation@, from@),
    {
        let ghost f = |x: String| x@;
        let mut out: Vec<String> = Vec::new();
        let n = self.edges.len();
        let mut i: usize = 0;
        proof {
            assert(out@.map_values(f) =~= (GraphStoreView {
                edges: self@.edges.take(0),
                ..self@
            }).edge_outs(relation@, from@));
        }
        while i < n
            invariant
                i <= n,
                out@.map_values(f) == (GraphStoreView {
                    edges: self@.edges.take(i as int),
                    ..self@
                }).edge_outs(relation@, from@),
            decreases n - i,
        {
            let ghost pre = out@;
            let same_rel = str_equal(self.edges[i].relation.as_str(), relation);
            let same_from = str_equal(self.edges[i].from.as_str(), from);
            if same_rel && same_from {
                out.push(self.edges[i].to_id.clone());
                proof {
                    crate::keyed::lemma_map_values_push(pre, f, self.edges@[i as int].to_id);
                }
            }
            proof {
                assert(self@.edges.take(i + 1 as int).drop_last() =~= self@.edges.take(i as int));
                assert(self@.edges.take(i + 1 as int).last() == self@.edges[i as int]);
            }
            i += 1;
        }
        proof {
            assert(self@.edges.take(n as int) =~= self@.edges);
        }
        out
    }

    /// The far-endpoint id of the first edge of this relation whose near
    /// endpoint is `from`, when one exists.
    pub fn first_out(&self, relation: &str, from: &str) -> (r: Option<String>)
        ensures
            match r {
                Some(id) => self@.first_edge_out(relation@, from@) == Some(id@),
                None => self@.first_edge_out(relation@, from@) is None,
            },
    {
        let ghost p = |e: EdgeView| e.relation == relation@ && e.from == from@;
        let n = self.edges.len();
        let mut i: usize = 0;
        while i < n
            invariant
                i <= n,
                forall|k: int| 0 <= k < i ==> !p(self@.edges[k]),
            decreases n - i,
        {
            let same_rel = str_equal(self.edges[i].relation.as_str(), relation);
            let same_from = str_equal(self.edges[i].from.as_str(), from);
            if same_rel && same_from {
                proof {
                    assert(p(self@.edges[i as int]));
                    lemma_first_index_where_is(self@.edges, p, i as int);
                }
                return Some(self.edges[i].to_id.clone());
            }
            i += 1;
        }
        proof {
            lemma_first_index_where(self@.edges, p);
        }
        None
    }
}

/// The record identifier addressing one record: `table:⟨id⟩`, with the id
/// interpolated verbatim between the brackets.
pub open spec fn record_ref_text(table: Seq<char>, id: Seq<char>) -> Seq<char> {
    table + ":⟨"@ + id + "⟩"@
}

/// The record identifier addressing one record, as owned text.
pub fn record_ref(table: &str, id: &str) -> (r: String)
    ensures
        r@ == record_ref_text(table@, id@),
{
    let mut out = table.to_owned();
    out.append(":⟨");
    out.append(id);
    out.append("⟩");
    out
}

/// The statement relating a parent record to a child record:
/// `RELATE <from> -> <relation> -> <table>:⟨<id>⟩`.
pub fn relate_statement(from: &str, relation: &str, to_table: &str, to_id: &str) -> (r: String)
    ensures
        r@ == "RELATE "@ + from@ + " -> "@ + relation@ + " -> "@ + record_ref_text(
            to_table@,
            to_id@,
        ),
{
    let mut out: String = "RELATE ".to_owned();
    out.append(from);
    out.append(" -> ");
    out.append(relation);
    out.append(" -> ");
    out.append(to_table);
    out.append(":⟨");
    out.append(to_id);
    out.append("⟩");
    out
}

/// The traversal statement selecting the far endpoints of the edges of one
/// relation whose near endpoint is `id_in`:
/// `SELECT out FROM <relation> WHERE in="<id_in>";`.
pub fn traversal_statement(relation: &str, id_in: &str) -> (r: String)
    ensures
        r@ == "SELECT out FROM "@ + relation@ + " WHERE in=\""@ + id_in@ + "\";"@,
{
    let mut out: String = "SELECT out FROM ".to_owned();
    out.append(relation);
    out.append(" WHERE in=\"");
    out.append(id_in);
    out.append("\";");
    out
}

} // verus!
