//! Units of measure and the unit catalog that owns them.

use crate::keyed::{first_index_where, has_where, lemma_first_index_where,
    lemma_first_index_where_is, lemma_map_values_drop_last, lemma_map_values_push,
    lemma_map_values_update};
use vstd::prelude::*;

verus! {

/// Mathematical value of a [`Unit`].
pub struct UnitView {
    pub id: Seq<char>,
    pub name: Seq<char>,
    pub symbol: Seq<char>,
}

/// A unit of measure: id, display name and symbol.
pub struct Unit {
    id: String,
    name: String,
    symbol: String,
}

impl View for Unit {
    type V = UnitView;

    closed spec fn view(&self) -> UnitView {
        UnitView { id: self.id@, name: self.name@, symbol: self.symbol@ }
    }
}

impl Unit {
    pub fn new(id: String, name: String, symbol: String) -> (r: Unit)
        ensures
            r@ == (UnitView { id: id@, name: name@, symbol: symbol@ }),
    {
        Unit { id, name, symbol }
    }

    pub fn get_id(&self) -> (r: &String)
        ensures
            r@ == self@.id,
    {
        &self.id
    }

    pub fn get_name(&self) -> (r: &String)
        ensures
            r@ == self@.name,
    {
        &self.name
    }

    pub fn get_symbol(&self) -> (r: &String)
        ensures
            r@ == self@.symbol,
    {
        &self.symbol
    }

    /// A field-for-field copy of this unit.
    pub fn duplicate(&self) -> (r: Unit)
        ensures
            r@ == self@,
    {
        Unit { id: self.id.clone(), name: self.name.clone(), symbol: self.symbol.clone() }
    }
}

/// Mathematical value of a [`UnitCatalog`]: scalar fields plus the owned
/// units in insertion order.
pub struct UnitCatalogView {
    pub id: Seq<char>,
    pub name: Seq<char>,
    pub description: Seq<char>,
    pub units: Seq<UnitView>,
}

impl UnitCatalogView {
    /// The catalog holds a unit with this id.
    pub open spec fn has_unit(self, id: Seq<char>) -> bool {
        has_where(self.units, |u: UnitView| u.id == id)
    }

    /// Index of the unit with this id, `-1` when absent.
    pub open spec fn unit_index(self, id: Seq<char>) -> int {
        first_index_where(self.units, |u: UnitView| u.id == id)
    }

    /// Unit ids are unique keys of the catalog's mapping.
    pub open spec fn wf(self) -> bool {
        forall|i: int, j: int|
            0 <= i < self.units.len() && 0 <= j < self.units.len() && self.units[i].id
                == self.units[j].id ==> i == j
    }

    /// Insertion keyed by unit id: an existing entry with the same id is
    /// replaced in place, a fresh id is appended.
    pub open spec fn spec_add_unit(self, u: UnitView) -> UnitCatalogView {
        if self.has_unit(u.id) {
            UnitCatalogView { units: self.units.update(self.unit_index(u.id), u), ..self }
        } else {
            UnitCatalogView { units: self.units.push(u), ..self }
        }
    }

    /// Folding a batch in, last element first, as the batch insert does.
    pub open spec fn spec_add_units(self, us: Seq<UnitView>) -> UnitCatalogView
        decreases us.len(),
    {
        if us.len() == 0 {
            self
        } else {
            self.spec_add_unit(us.last()).spec_add_units(us.drop_last())
        }
    }
}

/// A catalog of units: scalar description plus a mapping, keyed by unit id,
/// of the units it owns.
pub struct UnitCatalog {
    id: String,
    name: String,
    description: String,
    units: Vec<Unit>,
}

impl View for UnitCatalog {
    type V = UnitCatalogView;

    closed spec fn view(&self) -> UnitCatalogView {
        UnitCatalogView {
            id: self.id@,
            name: self.name@,
            description: self.description@,
            units: self.units@.map_values(|u: Unit| u@),
        }
    }
}

impl UnitCatalog {
    pub fn new(id: String, name: String, description: String) -> (r: UnitCatalog)
        ensures
            r@ == (UnitCatalogView {
                id: id@,
                name: name@,
                description: description@,
                units: Seq::<UnitView>::empty(),
            }),
            r@.wf(),
    {
        let r = UnitCatalog { id, name, description, units: Vec::new() };
        proof {
            assert(r@.units =~= Seq::<UnitView>::empty());
        }
        r
    }

    pub fn get_id(&self) -> (r: &String)
        ensures
            r@ == self@.id,
    {
        &self.id
    }

    pub fn get_name(&self) -> (r: &String)
        ensures
            r@ == self@.name,
    {
        &self.name
    }

    pub fn get_description(&self) -> (r: &String)
        ensures
            r@ == self@.description,
    {
        &self.description
    }

    /// The owned units, in insertion order.
    pub fn get_units(&self) -> (r: &Vec<Unit>)
        ensures
            r@.map_values(|u: Unit| u@) == self@.units,
    {
        &self.units
    }

    /// Insert one unit, keyed by `id`: replaces the entry with the same id
    /// if one exists, appends otherwise.
    pub fn add_unit_definition(&mut self, id: String, name: String, symbol: String)
        ensures
            final(self)@ == old(self)@.spec_add_unit(
                UnitView { id: id@, name: name@, symbol: symbol@ },
            ),
            old(self)@.wf() ==> final(self)@.wf(),
    {
        let unit = Unit::new(id.clone(), name, symbol);
        self.insert_unit(unit);
    }

    /// Insert a batch of units, one by one, taking the last element first.
    /// For duplicate ids inside the batch the earliest element wins.
    pub fn add_unit_definitions(&mut self, definitions: Vec<Unit>)
        ensures
            final(self)@ == old(self)@.spec_add_units(definitions@.map_values(|u: Unit| u@)),
            old(self)@.wf() ==> final(self)@.wf(),
    {
        let ghost target = old(self)@.spec_add_units(definitions@.map_values(|u: Unit| u@));
        let mut definitions = definitions;
        loop
            invariant
                self@.spec_add_units(definitions@.map_values(|u: Unit| u@)) == target,
                old(self)@.wf() ==> self@.wf(),
            decreases definitions.len(),
        {
            let ghost pre_defs = definitions@;
            let ghost pre_self = self@;
            match definitions.pop() {
                Some(unit) => {
                    let ghost uv = unit@;
                    self.insert_unit(unit);
                    proof {
                        let f = |u: Unit| u@;
                        let vs = pre_defs.map_values(f);
                        lemma_map_values_drop_last(pre_defs, f);
                        assert(definitions@.map_values(f) == vs.drop_last());
                        assert(vs.last() == f(pre_defs.last()));
                        assert(pre_self.spec_add_units(vs) == pre_self.spec_add_unit(
                            vs.last(),
                        ).spec_add_units(vs.drop_last()));
                        assert(self@ == pre_self.spec_add_unit(uv));
                    }
                },
                None => {
                    proof {
                        assert(definitions@.map_values(|u: Unit| u@)
                            =~= Seq::<UnitView>::empty());
                    }
                    break ;
                },
            }
        }
    }

    /// Insert one already-built unit, keyed by its id.
    pub fn insert_unit(&mut self, unit: Unit)
        ensures
            final(self)@ == old(self)@.spec_add_unit(unit@),
            old(self)@.wf() ==> final(self)@.wf(),
    {
        let ghost key = unit@.id;
        let ghost p = |u: UnitView| u.id == key;
        let n = self.units.len();
        let mut i: usize = 0;
        while i < n
            invariant
                n == self.units.len(),
                i <= n,
                forall|k: int| 0 <= k < i ==> !p(self@.units[k]),
                self == old(self),
            decreases n - i,
        {
            let present: &String = self.units[i].get_id();
            if present.eq(unit.get_id()) {
                proof {
                    assert(p(self@.units[i as int]));
                    lemma_first_index_where_is(self@.units, p, i as int);
                    lemma_map_values_update(self.units@, |u: Unit| u@, i as int, unit);
                    if old(self)@.wf() {
                        assert(old(self)@.spec_add_unit(unit@).wf());
                    }
                }
                self.units.set(i, unit);
                return ;
            }
            i += 1;
        }
        proof {
            lemma_first_index_where(self@.units, p);
            assert(!old(self)@.has_unit(key));
            lemma_map_values_push(self.units@, |u: Unit| u@, unit);
            if old(self)@.wf() {
                let pushed = old(self)@.units.push(unit@);
                assert forall|a: int, b: int|
                    0 <= a < pushed.len() && 0 <= b < pushed.len() && pushed[a].id
                        == pushed[b].id implies a == b by {
                    if a < old(self)@.units.len() && b == old(self)@.units.len() {
                        assert(p(old(self)@.units[a]));
                    }
                    if b < old(self)@.units.len() && a == old(self)@.units.len() {
                        assert(p(old(self)@.units[b]));
                    }
                }
            }
        }
        self.units.push(unit);
    }
}

} // verus!
