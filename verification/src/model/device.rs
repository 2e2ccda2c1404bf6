//! The aggregate root: one device's identification plus its optional
//! catalogs, measurements and composition entries.

use crate::keyed::{first_index_where, has_where, lemma_first_index_where,
    lemma_first_index_where_is, lemma_map_values_push, lemma_map_values_update};
use crate::model::composition::{Composition, CompositionView};
use crate::model::identification::{DeviceType, Identification, IdentificationView};
use crate::model::measurement::{Measurement, MeasurementCatalog, MeasurementCatalogView,
    MeasurementView};
use crate::model::unit::{UnitCatalog, UnitCatalogView};
use vstd::prelude::*;

verus! {

/// Mathematical value of a [`DeviceModel`]. An absent optional part means
/// "not loaded / not published", never an error.
pub struct DeviceModelView {
    pub identification: IdentificationView,
    pub measurement_catalog: Option<MeasurementCatalogView>,
    pub measurements: Option<Seq<MeasurementView>>,
    pub unit_catalog: Option<UnitCatalogView>,
    pub composition: Option<Seq<CompositionView>>,
}

/// Insertion keyed by measurement id into a measurement sequence: an entry
/// with the same id is replaced in place, a fresh id is appended.
pub open spec fn spec_insert_measurement(s: Seq<MeasurementView>, m: MeasurementView) -> Seq<
    MeasurementView,
> {
    if has_where(s, |x: MeasurementView| x.id == m.id) {
        s.update(first_index_where(s, |x: MeasurementView| x.id == m.id), m)
    } else {
        s.push(m)
    }
}

/// The mapping, keyed by measurement id, that inserting a batch in order
/// builds up: a later element with the same id wins.
pub open spec fn spec_measurement_mapping(ms: Seq<MeasurementView>) -> Seq<MeasurementView>
    decreases ms.len(),
{
    if ms.len() == 0 {
        Seq::<MeasurementView>::empty()
    } else {
        spec_insert_measurement(spec_measurement_mapping(ms.drop_last()), ms.last())
    }
}

/// Measurement ids are unique keys of the sequence.
pub open spec fn measurement_ids_unique(s: Seq<MeasurementView>) -> bool {
    forall|i: int, j: int| 0 <= i < s.len() && 0 <= j < s.len() && s[i].id == s[j].id ==> i == j
}

/// Keyed insertion keeps measurement ids unique.
pub proof fn lemma_insert_measurement_unique(s: Seq<MeasurementView>, m: MeasurementView)
    requires
        measurement_ids_unique(s),
    ensures
        measurement_ids_unique(spec_insert_measurement(s, m)),
{
    let p = |x: MeasurementView| x.id == m.id;
    let r = spec_insert_measurement(s, m);
    if has_where(s, p) {
        crate::keyed::lemma_first_index_where(s, p);
        let j = first_index_where(s, p);
        assert forall|a: int, b: int|
            0 <= a < r.len() && 0 <= b < r.len() && r[a].id == r[b].id implies a == b by {
            if a == j && b != j {
                assert(s[b].id == m.id);
                assert(s[b].id == s[j].id);
            }
            if b == j && a != j {
                assert(s[a].id == m.id);
                assert(s[a].id == s[j].id);
            }
        }
    } else {
        assert forall|a: int, b: int|
            0 <= a < r.len() && 0 <= b < r.len() && r[a].id == r[b].id implies a == b by {
            if a < s.len() && b == s.len() {
                assert(p(s[a]));
            }
            if b < s.len() && a == s.len() {
                assert(p(s[b]));
            }
        }
    }
}

/// The mapping built from any batch has unique measurement ids.
pub proof fn lemma_measurement_mapping_unique(ms: Seq<MeasurementView>)
    ensures
        measurement_ids_unique(spec_measurement_mapping(ms)),
    decreases ms.len(),
{
    if ms.len() > 0 {
        lemma_measurement_mapping_unique(ms.drop_last());
        lemma_insert_measurement_unique(spec_measurement_mapping(ms.drop_last()), ms.last());
    }
}

impl DeviceModelView {
    /// Measurement ids are unique keys.
    pub open spec fn measurements_wf(self) -> bool {
        self.measurements matches Some(s) ==> forall|i: int, j: int|
            0 <= i < s.len() && 0 <= j < s.len() && s[i].id == s[j].id ==> i == j
    }

    /// Child device ids are unique keys of the composition mapping.
    pub open spec fn composition_wf(self) -> bool {
        self.composition matches Some(s) ==> forall|i: int, j: int|
            0 <= i < s.len() && 0 <= j < s.len() && s[i].device_id == s[j].device_id ==> i == j
    }

    /// Every keyed part of the aggregate has unique keys.
    pub open spec fn wf(self) -> bool {
        &&& self.measurement_catalog matches Some(c) ==> c.wf()
        &&& self.unit_catalog matches Some(c) ==> c.wf()
        &&& self.measurements_wf()
        &&& self.composition_wf()
    }

    /// The composition mapping holds an entry for this child device id.
    pub open spec fn has_composition(self, device_id: Seq<char>) -> bool {
        self.composition matches Some(s) && has_where(
            s,
            |c: CompositionView| c.device_id == device_id,
        )
    }

    /// Insert-if-absent, keyed by child device id: an entry whose child id
    /// is already present is dropped, a fresh child id is appended.
    pub open spec fn spec_add_composition(self, c: CompositionView) -> DeviceModelView {
        match self.composition {
            None => DeviceModelView {
                composition: Some(seq![c]),
                ..self
            },
            Some(s) => {
                if has_where(s, |x: CompositionView| x.device_id == c.device_id) {
                    self
                } else {
                    DeviceModelView { composition: Some(s.push(c)), ..self }
                }
            },
        }
    }
}

/// Composition insert is idempotent on the child device id: once an entry
/// for a child id is present, inserting that child id again changes
/// nothing, so two inserts of the same child id leave exactly one entry.
pub proof fn lemma_composition_insert_idempotent(
    m: DeviceModelView,
    c1: CompositionView,
    c2: CompositionView,
)
    requires
        c1.device_id == c2.device_id,
    ensures
        m.spec_add_composition(c1).spec_add_composition(c2) == m.spec_add_composition(c1),
{
    let m1 = m.spec_add_composition(c1);
    let p = |x: CompositionView| x.device_id == c2.device_id;
    match m.composition {
        None => {
            assert(p(m1.composition->Some_0[0]));
        },
        Some(s) => {
            if has_where(s, |x: CompositionView| x.device_id == c1.device_id) {
                let i = choose|i: int|
                    0 <= i < s.len() && s[i].device_id == c1.device_id;
                assert(p(m1.composition->Some_0[i]));
            } else {
                assert(p(m1.composition->Some_0[s.len() as int]));
            }
        },
    }
    assert(m1.has_composition(c2.device_id));
}

/// The aggregate root of one device's self-description.
pub struct DeviceModel {
    device_identification: Identification,
    measurement_catalog: Option<MeasurementCatalog>,
    measurements: Option<Vec<Measurement>>,
    unit_catalog: Option<UnitCatalog>,
    device_composition: Option<Vec<Composition>>,
}

impl View for DeviceModel {
    type V = DeviceModelView;

    closed spec fn view(&self) -> DeviceModelView {
        DeviceModelView {
            identification: self.device_identification@,
            measurement_catalog: match self.measurement_catalog {
                Some(c) => Some(c@),
                None => None,
            },
            measurements: match self.measurements {
                Some(v) => Some(v@.map_values(|m: Measurement| m@)),
                None => None,
            },
            unit_catalog: match self.unit_catalog {
                Some(c) => Some(c@),
                None => None,
            },
            composition: match self.device_composition {
                Some(v) => Some(v@.map_values(|c: Composition| c@)),
                None => None,
            },
        }
    }
}

impl DeviceModel {
    /// A fresh aggregate holding only its identification; every optional
    /// part starts absent.
    pub fn new(id: String, name: String, device_type: DeviceType) -> (r: DeviceModel)
        ensures
            r@ == (DeviceModelView {
                identification: IdentificationView { id: id@, name: name@, device_type },
                measurement_catalog: None,
                measurements: None,
                unit_catalog: None,
                composition: None,
            }),
            r@.wf(),
    {
        DeviceModel {
            device_identification: Identification::new(id, name, device_type),
            measurement_catalog: None,
            measurements: None,
            unit_catalog: None,
            device_composition: None,
        }
    }

    pub fn get_device_id(&self) -> (r: &String)
        ensures
            r@ == self@.identification.id,
    {
        self.device_identification.get_id()
    }

    pub fn get_identification(&self) -> (r: &Identification)
        ensures
            r@ == self@.identification,
    {
        &self.device_identification
    }

    pub fn get_measurements(&self) -> (r: &Option<Vec<Measurement>>)
        ensures
            match r {
                Some(v) => self@.measurements == Some(v@.map_values(|m: Measurement| m@)),
                None => self@.measurements is None,
            },
    {
        &self.measurements
    }

    pub fn get_measurement_catalog(&self) -> (r: &Option<MeasurementCatalog>)
        ensures
            match r {
                Some(c) => self@.measurement_catalog == Some(c@),
                None => self@.measurement_catalog is None,
            },
    {
        &self.measurement_catalog
    }

    pub fn get_unit_catalog(&self) -> (r: &Option<UnitCatalog>)
        ensures
            match r {
                Some(c) => self@.unit_catalog == Some(c@),
                None => self@.unit_catalog is None,
            },
    {
        &self.unit_catalog
    }

    pub fn get_device_composition(&self) -> (r: &Option<Vec<Composition>>)
        ensures
            match r {
                Some(v) => self@.composition == Some(v@.map_values(|c: Composition| c@)),
                None => self@.composition is None,
            },
    {
        &self.device_composition
    }

    /// Make the measurement catalog present.
    pub fn set_measurement_catalog(&mut self, catalog: MeasurementCatalog)
        ensures
            final(self)@ == (DeviceModelView {
                measurement_catalog: Some(catalog@),
                ..old(self)@
            }),
    {
        self.measurement_catalog = Some(catalog);
    }

    /// Make the unit catalog present.
    pub fn set_unit_catalog(&mut self, catalog: UnitCatalog)
        ensures
            final(self)@ == (DeviceModelView { unit_catalog: Some(catalog@), ..old(self)@ }),
    {
        self.unit_catalog = Some(catalog);
    }

    /// Make the measurements present: the batch is folded into a mapping
    /// keyed by measurement id, a later element with the same id winning.
    pub fn set_measurements(&mut self, measurements: Vec<Measurement>)
        ensures
            final(self)@ == (DeviceModelView {
                measurements: Some(
                    spec_measurement_mapping(measurements@.map_values(|m: Measurement| m@)),
                ),
                ..old(self)@
            }),
            final(self)@.measurements_wf(),
    {
        let ghost f = |m: Measurement| m@;
        let mut acc: Vec<Measurement> = Vec::new();
        let n = measurements.len();
        let mut i: usize = 0;
        proof {
            assert(measurements@.take(0).map_values(f) =~= Seq::<MeasurementView>::empty());
            assert(acc@.map_values(f) =~= Seq::<MeasurementView>::empty());
        }
        while i < n
            invariant
                i <= n,
                acc@.map_values(f) == spec_measurement_mapping(
                    measurements@.take(i as int).map_values(f),
                ),
            decreases n - i,
        {
            let m = measurements[i].duplicate();
            insert_measurement(&mut acc, m);
            proof {
                let pre = measurements@.take(i as int).map_values(f);
                let now = measurements@.take(i + 1 as int).map_values(f);
                assert(measurements@.take(i + 1 as int).drop_last() =~= measurements@.take(
                    i as int,
                ));
                assert(now.drop_last() =~= pre);
                assert(now.last() == m@);
                assert(spec_measurement_mapping(now) == spec_insert_measurement(
                    spec_measurement_mapping(pre),
                    m@,
                ));
            }
            i += 1;
        }
        proof {
            assert(measurements@.take(n as int) =~= measurements@);
            lemma_measurement_mapping_unique(measurements@.map_values(f));
        }
        self.measurements = Some(acc);
    }

    /// Insert one composition entry, keyed by its child device id: if an
    /// entry for that child is already present the new one is dropped.
    pub fn add_device_composition(&mut self, composition: Composition)
        ensures
            final(self)@ == old(self)@.spec_add_composition(composition@),
            old(self)@.composition_wf() ==> final(self)@.composition_wf(),
    {
        let ghost key = composition@.device_id;
        let ghost p = |c: CompositionView| c.device_id == key;
        let found = match &self.device_composition {
            None => false,
            Some(v) => contains_device_id(v, composition.get_device_id()),
        };
        if found {
            return ;
        }
        match self.device_composition.take() {
            None => {
                let mut v: Vec<Composition> = Vec::new();
                v.push(composition);
                proof {
                    assert(v@.map_values(|c: Composition| c@) =~= seq![composition@]);
                }
                self.device_composition = Some(v);
            },
            Some(mut v) => {
                let ghost vs = v@.map_values(|c: Composition| c@);
                proof {
                    lemma_map_values_push(v@, |c: Composition| c@, composition);
                    if old(self)@.composition_wf() {
                        let pushed = vs.push(composition@);
                        assert forall|a: int, b: int|
                            0 <= a < pushed.len() && 0 <= b < pushed.len()
                                && pushed[a].device_id == pushed[b].device_id implies a == b by {
                            if a < vs.len() && b == vs.len() {
                                assert(p(vs[a]));
                            }
                            if b < vs.len() && a == vs.len() {
                                assert(p(vs[b]));
                            }
                        }
                    }
                }
                v.push(composition);
                self.device_composition = Some(v);
            },
        }
    }
}

/// Whether some entry of `v` carries this child device id.
fn contains_device_id(v: &Vec<Composition>, device_id: &String) -> (r: bool)
    ensures
        r == has_where(
            v@.map_values(|c: Composition| c@),
            |c: CompositionView| c.device_id == device_id@,
        ),
{
    let ghost p = |c: CompositionView| c.device_id == device_id@;
    let ghost vs = v@.map_values(|c: Composition| c@);
    let n = v.len();
    let mut i: usize = 0;
    while i < n
        invariant
            i <= n,
            forall|k: int| 0 <= k < i ==> !p(vs[k]),
        decreases n - i,
    {
        let present: &String = v[i].get_device_id();
        if present.eq(device_id) {
            proof {
                assert(p(vs[i as int]));
            }
            return true;
        }
        i += 1;
    }
    false
}

/// Insert one measurement into an id-keyed vector: an entry with the same
/// id is replaced in place, a fresh id is appended.
fn insert_measurement(v: &mut Vec<Measurement>, m: Measurement)
    ensures
        final(v)@.map_values(|x: Measurement| x@) == spec_insert_measurement(
            old(v)@.map_values(|x: Measurement| x@),
            m@,
        ),
{
    let ghost f = |x: Measurement| x@;
    let ghost key = m@.id;
    let ghost p = |x: MeasurementView| x.id == key;
    let n = v.len();
    let mut i: usize = 0;
    while i < n
        invariant
            i <= n,
            v == old(v),
            forall|k: int| 0 <= k < i ==> !p(old(v)@.map_values(f)[k]),
        decreases n - i,
    {
        let present: &String = v[i].get_id();
        if present.eq(m.get_id()) {
            proof {
                assert(p(old(v)@.map_values(f)[i as int]));
                lemma_first_index_where_is(old(v)@.map_values(f), p, i as int);
                lemma_map_values_update(v@, f, i as int, m);
            }
            v.set(i, m);
            return ;
        }
        i += 1;
    }
    proof {
        lemma_first_index_where(old(v)@.map_values(f), p);
        assert(!has_where(old(v)@.map_values(f), p));
        lemma_map_values_push(v@, f, m);
    }
    v.push(m);
}

} // verus!
