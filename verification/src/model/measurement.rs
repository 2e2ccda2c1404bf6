//! Measurement definitions, measurement instances, and the measurement
//! catalog that owns the definitions.

use crate::keyed::{first_index_where, has_where, lemma_first_index_where,
    lemma_first_index_where_is, lemma_map_values_drop_last, lemma_map_values_push,
    lemma_map_values_update};
use vstd::prelude::*;

verus! {

/// Primitive scalar kind of a measured value.
#[derive(Clone, Copy, PartialEq, Eq, Structural, Debug)]
pub enum DataType {
    String,
    Bool,
    U8,
    U16,
    U32,
    U64,
    I8,
    I16,
    I32,
    I64,
    F32,
    F64,
}

/// Mathematical value of a [`MeasurementDefinition`].
pub struct MeasurementDefinitionView {
    pub id: Seq<char>,
    pub name: Seq<char>,
    pub description: Seq<char>,
    pub data_type: DataType,
    pub unit_id: Seq<char>,
}

/// Schema of one measurement kind: what is measured, its scalar kind, and
/// the id of the unit it is expressed in.
pub struct MeasurementDefinition {
    id: String,
    name: String,
    description: String,
    data_type: DataType,
    unit_id: String,
}

impl View for MeasurementDefinition {
    type V = MeasurementDefinitionView;

    closed spec fn view(&self) -> MeasurementDefinitionView {
        MeasurementDefinitionView {
            id: self.id@,
            name: self.name@,
            description: self.description@,
            data_type: self.data_type,
            unit_id: self.unit_id@,
        }
    }
}

impl MeasurementDefinition {
    pub fn new(
        id: String,
        name: String,
        description: String,
        data_type: DataType,
        unit_id: String,
    ) -> (r: MeasurementDefinition)
        ensures
            r@ == (MeasurementDefinitionView {
                id: id@,
                name: name@,
                description: description@,
                data_type,
                unit_id: unit_id@,
            }),
    {
        MeasurementDefinition { id, name, description, data_type, unit_id }
    }

    pub fn get_id(&self) -> (r: &String)
        ensures
            r@ == self@.id,
    {
        &self.id
    }

    pub fn get_name(&self) -> (r: &String)
        ensures
            r@ == self@.name,
    {
        &self.name
    }

    pub fn get_description(&self) -> (r: &String)
        ensures
            r@ == self@.description,
    {
        &self.description
    }

    pub fn get_data_type(&self) -> (r: &DataType)
        ensures
            *r == self@.data_type,
    {
        &self.data_type
    }

    pub fn get_unit_id(&self) -> (r: &String)
        ensures
            r@ == self@.unit_id,
    {
        &self.unit_id
    }

    /// A field-for-field copy of this definition.
    pub fn duplicate(&self) -> (r: MeasurementDefinition)
        ensures
            r@ == self@,
    {
        MeasurementDefinition {
            id: self.id.clone(),
            name: self.name.clone(),
            description: self.description.clone(),
            data_type: self.data_type,
            unit_id: self.unit_id.clone(),
        }
    }
}

/// Mathematical value of a [`Measurement`].
pub struct MeasurementView {
    pub id: Seq<char>,
    pub definition_id: Seq<char>,
}

/// One measurement instance: its own id and a reference to its definition.
pub struct Measurement {
    id: String,
    definition_id: String,
}

impl View for Measurement {
    type V = MeasurementView;

    closed spec fn view(&self) -> MeasurementView {
        MeasurementView { id: self.id@, definition_id: self.definition_id@ }
    }
}

impl Measurement {
    pub fn new(id: String, definition_id: String) -> (r: Measurement)
        ensures
            r@ == (MeasurementView { id: id@, definition_id: definition_id@ }),
    {
        Measurement { id, definition_id }
    }

    pub fn get_id(&self) -> (r: &String)
        ensures
            r@ == self@.id,
    {
        &self.id
    }

    pub fn get_definition_id(&self) -> (r: &String)
        ensures
            r@ == self@.definition_id,
    {
        &self.definition_id
    }

    /// A field-for-field copy of this measurement.
    pub fn duplicate(&self) -> (r: Measurement)
        ensures
            r@ == self@,
    {
        Measurement { id: self.id.clone(), definition_id: self.definition_id.clone() }
    }
}

/// Mathematical value of a [`MeasurementCatalog`]: scalar fields plus the
/// owned definitions in insertion order.
pub struct MeasurementCatalogView {
    pub id: Seq<char>,
    pub name: Seq<char>,
    pub description: Seq<char>,
    pub definitions: Seq<MeasurementDefinitionView>,
}

impl MeasurementCatalogView {
    /// The catalog holds a definition with this id.
    pub open spec fn has_definition(self, id: Seq<char>) -> bool {
        has_where(self.definitions, |d: MeasurementDefinitionView| d.id == id)
    }

    /// Index of the definition with this id, `-1` when absent.
    pub open spec fn definition_index(self, id: Seq<char>) -> int {
        first_index_where(self.definitions, |d: MeasurementDefinitionView| d.id == id)
    }

    /// Definition ids are unique keys of the catalog's mapping.
    pub open spec fn wf(self) -> bool {
        forall|i: int, j: int|
            0 <= i < self.definitions.len() && 0 <= j < self.definitions.len()
                && self.definitions[i].id == self.definitions[j].id ==> i == j
    }

    /// Insertion keyed by definition id: an existing entry with the same id
    /// is replaced in place, a fresh id is appended.
    pub open spec fn spec_add_definition(self, d: MeasurementDefinitionView) -> Self {
        if self.has_definition(d.id) {
            MeasurementCatalogView {
                definitions: self.definitions.update(self.definition_index(d.id), d),
                ..self
            }
        } else {
            MeasurementCatalogView { definitions: self.definitions.push(d), ..self }
        }
    }

    /// Folding a batch in, last element first, as the batch insert does.
    pub open spec fn spec_add_definitions(self, ds: Seq<MeasurementDefinitionView>) -> Self
        decreases ds.len(),
    {
        if ds.len() == 0 {
            self
        } else {
            self.spec_add_definition(ds.last()).spec_add_definitions(ds.drop_last())
        }
    }
}

/// Folding a batch of definitions into a catalog none of whose entries
/// share an id with the batch appends the batch in reverse: the batch's
/// last element is inserted first. The scalar fields stay untouched.
pub proof fn lemma_add_definitions_fresh(
    c: MeasurementCatalogView,
    ds: Seq<MeasurementDefinitionView>,
)
    requires
        forall|i: int, j: int|
            0 <= i < ds.len() && 0 <= j < ds.len() && (#[trigger] ds[i]).id == (
            #[trigger] ds[j]).id ==> i == j,
        forall|i: int, k: int|
            0 <= i < ds.len() && 0 <= k < c.definitions.len() ==> (#[trigger] ds[i]).id != (
            #[trigger] c.definitions[k]).id,
    ensures
        c.spec_add_definitions(ds).definitions == c.definitions + ds.reverse(),
        c.spec_add_definitions(ds).id == c.id,
        c.spec_add_definitions(ds).name == c.name,
        c.spec_add_definitions(ds).description == c.description,
    decreases ds.len(),
{
    if ds.len() == 0 {
        assert(c.definitions + ds.reverse() =~= c.definitions);
    } else {
        let last = ds.last();
        let p = |d: MeasurementDefinitionView| d.id == last.id;
        if has_where(c.definitions, p) {
            let k = choose|k: int| 0 <= k < c.definitions.len() && p(c.definitions[k]);
            assert(ds[ds.len() - 1].id == c.definitions[k].id);
            assert(false);
        }
        let c1 = c.spec_add_definition(last);
        assert(c1.definitions =~= c.definitions.push(last));
        assert forall|i: int, k: int|
            0 <= i < ds.drop_last().len() && 0 <= k < c1.definitions.len() implies (
        #[trigger] ds.drop_last()[i]).id != (#[trigger] c1.definitions[k]).id by {
            assert(ds.drop_last()[i] == ds[i]);
            if k < c.definitions.len() {
                assert(c1.definitions[k] == c.definitions[k]);
            } else {
                assert(c1.definitions[k] == ds[ds.len() - 1]);
            }
        }
        lemma_add_definitions_fresh(c1, ds.drop_last());
        assert(c.definitions + ds.reverse() =~= c.definitions.push(last)
            + ds.drop_last().reverse());
    }
}

/// A catalog of measurement definitions: scalar description plus a mapping,
/// keyed by definition id, of the definitions it owns.
pub struct MeasurementCatalog {
    id: String,
    name: String,
    description: String,
    measurement_definitions: Vec<MeasurementDefinition>,
}

impl View for MeasurementCatalog {
    type V = MeasurementCatalogView;

    closed spec fn view(&self) -> MeasurementCatalogView {
        MeasurementCatalogView {
            id: self.id@,
            name: self.name@,
            description: self.description@,
            definitions: self.measurement_definitions@.map_values(
                |d: MeasurementDefinition| d@,
            ),
        }
    }
}

impl MeasurementCatalog {
    pub fn new(id: String, name: String, description: String) -> (r: MeasurementCatalog)
        ensures
            r@ == (MeasurementCatalogView {
                id: id@,
                name: name@,
                description: description@,
                definitions: Seq::<MeasurementDefinitionView>::empty(),
            }),
            r@.wf(),
    {
        let r = MeasurementCatalog {
            id,
            name,
            description,
            measurement_definitions: Vec::new(),
        };
        proof {
            assert(r@.definitions =~= Seq::<MeasurementDefinitionView>::empty());
        }
        r
    }

    pub fn get_id(&self) -> (r: &String)
        ensures
            r@ == self@.id,
    {
        &self.id
    }

    pub fn get_name(&self) -> (r: &String)
        ensures
            r@ == self@.name,
    {
        &self.name
    }

    pub fn get_description(&self) -> (r: &String)
        ensures
            r@ == self@.description,
    {
        &self.description
    }

    /// The owned definitions, in insertion order.
    pub fn get_measurement_definitions(&self) -> (r: &Vec<MeasurementDefinition>)
        ensures
            r@.map_values(|d: MeasurementDefinition| d@) == self@.definitions,
    {
        &self.measurement_definitions
    }

    /// Build and insert one definition, keyed by `id`: replaces the entry
    /// with the same id if one exists, appends otherwise.
    pub fn add_measurement_definition(
        &mut self,
        id: String,
        name: String,
        description: String,
        data_type: DataType,
        unit_id: String,
    )
        ensures
            final(self)@ == old(self)@.spec_add_definition(
                MeasurementDefinitionView {
                    id: id@,
                    name: name@,
                    description: description@,
                    data_type,
                    unit_id: unit_id@,
                },
            ),
            old(self)@.wf() ==> final(self)@.wf(),
    {
        let definition = MeasurementDefinition::new(id.clone(), name, description, data_type,
            unit_id);
        self.insert_definition(definition);
    }

    /// Insert a batch of definitions, one by one, taking the last element
    /// first. For duplicate ids inside the batch the earliest element wins.
    pub fn add_measurement_definitions(&mut self, definitions: Vec<MeasurementDefinition>)
        ensures
            final(self)@ == old(self)@.spec_add_definitions(
                definitions@.map_values(|d: MeasurementDefinition| d@),
            ),
            old(self)@.wf() ==> final(self)@.wf(),
    {
        let ghost target = old(self)@.spec_add_definitions(
            definitions@.map_values(|d: MeasurementDefinition| d@),
        );
        let mut definitions = definitions;
        loop
            invariant
                self@.spec_add_definitions(
                    definitions@.map_values(|d: MeasurementDefinition| d@),
                ) == target,
                old(self)@.wf() ==> self@.wf(),
            decreases definitions.len(),
        {
            let ghost pre_defs = definitions@;
            let ghost pre_self = self@;
            match definitions.pop() {
                Some(definition) => {
                    let ghost dv = definition@;
                    self.insert_definition(definition);
                    proof {
                        let f = |d: MeasurementDefinition| d@;
                        let vs = pre_defs.map_values(f);
                        lemma_map_values_drop_last(pre_defs, f);
                        assert(definitions@.map_values(f) == vs.drop_last());
                        assert(vs.last() == f(pre_defs.last()));
                        assert(pre_self.spec_add_definitions(vs) == pre_self.spec_add_definition(
                            vs.last(),
                        ).spec_add_definitions(vs.drop_last()));
                        assert(self@ == pre_self.spec_add_definition(dv));
                    }
                },
                None => {
                    proof {
                        assert(definitions@.map_values(|d: MeasurementDefinition| d@)
                            =~= Seq::<MeasurementDefinitionView>::empty());
                    }
                    break ;
                },
            }
        }
    }

    /// Insert one already-built definition, keyed by its id.
    pub fn insert_definition(&mut self, definition: MeasurementDefinition)
        ensures
            final(self)@ == old(self)@.spec_add_definition(definition@),
            old(self)@.wf() ==> final(self)@.wf(),
    {
        let ghost key = definition@.id;
        let ghost p = |d: MeasurementDefinitionView| d.id == key;
        let n = self.measurement_definitions.len();
        let mut i: usize = 0;
        while i < n
            invariant
                i <= n,
                self == old(self),
                forall|k: int| 0 <= k < i ==> !p(self@.definitions[k]),
            decreases n - i,
        {
            let present: &String = self.measurement_definitions[i].get_id();
            if present.eq(definition.get_id()) {
                proof {
                    assert(p(self@.definitions[i as int]));
                    lemma_first_index_where_is(self@.definitions, p, i as int);
                    lemma_map_values_update(
                        self.measurement_definitions@,
                        |d: MeasurementDefinition| d@,
                        i as int,
                        definition,
                    );
                    if old(self)@.wf() {
                        assert(old(self)@.spec_add_definition(definition@).wf());
                    }
                }
                self.measurement_definitions.set(i, definition);
                return ;
            }
            i += 1;
        }
        proof {
            lemma_first_index_where(self@.definitions, p);
            assert(!old(self)@.has_definition(key));
            lemma_map_values_push(
                self.measurement_definitions@,
                |d: MeasurementDefinition| d@,
                definition,
            );
            if old(self)@.wf() {
                let pushed = old(self)@.definitions.push(definition@);
                assert forall|a: int, b: int|
                    0 <= a < pushed.len() && 0 <= b < pushed.len() && pushed[a].id
                        == pushed[b].id implies a == b by {
                    if a < old(self)@.definitions.len() && b == old(self)@.definitions.len() {
                        assert(p(old(self)@.definitions[a]));
                    }
                    if b < old(self)@.definitions.len() && a == old(self)@.definitions.len() {
                        assert(p(old(self)@.definitions[b]));
                    }
                }
            }
        }
        self.measurement_definitions.push(definition);
    }
}

} // verus!
