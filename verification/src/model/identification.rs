//! Identity of one device: id, display name and device type.

use vstd::prelude::*;

verus! {

/// The kind of device an identification describes.
#[derive(Clone, Copy, PartialEq, Eq, Structural, Debug)]
pub enum DeviceType {
    Sensor,
    Gateway,
}

/// Mathematical value of an [`Identification`].
pub struct IdentificationView {
    pub id: Seq<char>,
    pub name: Seq<char>,
    pub device_type: DeviceType,
}

/// Identity record of a device. Exactly one exists per device and it is
/// immutable after construction.
pub struct Identification {
    id: String,
    name: String,
    device_type: DeviceType,
}

impl View for Identification {
    type V = IdentificationView;

    closed spec fn view(&self) -> IdentificationView {
        IdentificationView { id: self.id@, name: self.name@, device_type: self.device_type }
    }
}

impl Identification {
    pub fn new(id: String, name: String, device_type: DeviceType) -> (r: Identification)
        ensures
            r@ == (IdentificationView { id: id@, name: name@, device_type }),
    {
        Identification { id, name, device_type }
    }

    pub fn get_id(&self) -> (r: &String)
        ensures
            r@ == self@.id,
    {
        &self.id
    }

    pub fn get_name(&self) -> (r: &String)
        ensures
            r@ == self@.name,
    {
        &self.name
    }

    pub fn get_type(&self) -> (r: &DeviceType)
        ensures
            *r == self@.device_type,
    {
        &self.device_type
    }

    /// A field-for-field copy of this identification.
    pub fn duplicate(&self) -> (r: Identification)
        ensures
            r@ == self@,
    {
        Identification {
            id: self.id.clone(),
            name: self.name.clone(),
            device_type: self.device_type,
        }
    }
}

} // verus!
