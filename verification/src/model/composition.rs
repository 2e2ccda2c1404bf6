//! Composition entries: containment of one device inside another.

use vstd::prelude::*;

verus! {

/// The text form of a version-4 UUID: 36 characters, hyphens at the four
/// fixed positions, lowercase hexadecimal digits everywhere else.
pub open spec fn is_uuid_text(s: Seq<char>) -> bool {
    &&& s.len() == 36
    &&& forall|i: int|
        0 <= i < 36 ==> if i == 8 || i == 13 || i == 18 || i == 23 {
            s[i] == '-'
        } else {
            ('0' <= s[i] && s[i] <= '9') || ('a' <= s[i] && s[i] <= 'f')
        }
}

/// Relies on `uuid::Uuid::new_v4` and its `Display` form: a fresh random
/// version-4 UUID, printed as the 36-character hyphenated lowercase text.
/// The value is random, so nothing relates two calls.
#[verifier::external_body]
pub(crate) fn fresh_uuid_text() -> (r: String)
    ensures
        is_uuid_text(r@),
{
    uuid::Uuid::new_v4().to_string()
}

/// Mathematical value of a [`Composition`].
pub struct CompositionView {
    pub id: Seq<char>,
    pub device_id: Seq<char>,
}

/// One containment edge of the aggregate: a generated entry id and the id
/// of the contained child device.
pub struct Composition {
    id: String,
    device_id: String,
}

impl View for Composition {
    type V = CompositionView;

    closed spec fn view(&self) -> CompositionView {
        CompositionView { id: self.id@, device_id: self.device_id@ }
    }
}

impl Composition {
    /// A new entry for the given child device, under a generated id.
    pub fn new(device_id: String) -> (r: Composition)
        ensures
            r@.device_id == device_id@,
            is_uuid_text(r@.id),
    {
        Composition { id: fresh_uuid_text(), device_id }
    }

    /// Rebuild an entry that already has its id, as when one is read back
    /// from a serialized form.
    pub fn with_id(id: String, device_id: String) -> (r: Composition)
        ensures
            r@ == (CompositionView { id: id@, device_id: device_id@ }),
    {
        Composition { id, device_id }
    }

    pub fn get_id(&self) -> (r: &String)
        ensures
            r@ == self@.id,
    {
        &self.id
    }

    pub fn get_device_id(&self) -> (r: &String)
        ensures
            r@ == self@.device_id,
    {
        &self.device_id
    }

    /// A field-for-field copy of this entry.
    pub fn duplicate(&self) -> (r: Composition)
        ensures
            r@ == self@,
    {
        Composition { id: self.id.clone(), device_id: self.device_id.clone() }
    }
}

} // verus!
