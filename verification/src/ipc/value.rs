//! The generic telemetry value published under the `measurement-value`
//! facet, and the fixed readings this device family publishes.

use crate::model::composition::{fresh_uuid_text, is_uuid_text};
use vstd::prelude::*;

verus! {

/// Mathematical value of a [`DataValue`].
pub enum DataValueView {
    String(Seq<char>),
    Bool(bool),
    U8(u8),
    U16(u16),
    U32(u32),
    U64(u64),
    I8(i8),
    I16(i16),
    I32(i32),
    I64(i64),
    F32(u32),
    F64(u64),
}

/// A tagged primitive value. The two floating-point kinds carry the raw
/// IEEE-754 bit pattern of the value; the transport layer converts to and
/// from the machine float.
pub enum DataValue {
    String(String),
    Bool(bool),
    U8(u8),
    U16(u16),
    U32(u32),
    U64(u64),
    I8(i8),
    I16(i16),
    I32(i32),
    I64(i64),
    F32(u32),
    F64(u64),
}

impl View for DataValue {
    type V = DataValueView;

    open spec fn view(&self) -> DataValueView {
        match self {
            DataValue::String(s) => DataValueView::String(s@),
            DataValue::Bool(v) => DataValueView::Bool(*v),
            DataValue::U8(v) => DataValueView::U8(*v),
            DataValue::U16(v) => DataValueView::U16(*v),
            DataValue::U32(v) => DataValueView::U32(*v),
            DataValue::U64(v) => DataValueView::U64(*v),
            DataValue::I8(v) => DataValueView::I8(*v),
            DataValue::I16(v) => DataValueView::I16(*v),
            DataValue::I32(v) => DataValueView::I32(*v),
            DataValue::I64(v) => DataValueView::I64(*v),
            DataValue::F32(v) => DataValueView::F32(*v),
            DataValue::F64(v) => DataValueView::F64(*v),
        }
    }
}

/// Trustworthiness of one reading. `Good` is the accepted normal case
/// (the wire form writes it as the plain positive tag).
#[derive(Clone, Copy, PartialEq, Eq, Structural, Debug)]
pub enum Quality {
    Good,
    Bad,
    Missing,
}

/// Mathematical value of a [`MeasurementValue`].
pub struct MeasurementValueView {
    pub id: Seq<char>,
    pub definition_id: Seq<char>,
    pub data_value: DataValueView,
    pub timestamp: u128,
    pub quality: Quality,
}

/// One telemetry reading: its own id, the definition it instantiates, the
/// value, when it was taken, and its quality.
pub struct MeasurementValue {
    id: String,
    definition_id: String,
    data_value: DataValue,
    timestamp: u128,
    quality: Quality,
}

impl View for MeasurementValue {
    type V = MeasurementValueView;

    closed spec fn view(&self) -> MeasurementValueView {
        MeasurementValueView {
            id: self.id@,
            definition_id: self.definition_id@,
            data_value: self.data_value@,
            timestamp: self.timestamp,
            quality: self.quality,
        }
    }
}

impl MeasurementValue {
    pub fn new(
        id: String,
        definition_id: String,
        data_value: DataValue,
        timestamp: u128,
        quality: Quality,
    ) -> (r: MeasurementValue)
        ensures
            r@ == (MeasurementValueView {
                id: id@,
                definition_id: definition_id@,
                data_value: data_value@,
                timestamp,
                quality,
            }),
    {
        MeasurementValue { id, definition_id, data_value, timestamp, quality }
    }

    pub fn get_id(&self) -> (r: &String)
        ensures
            r@ == self@.id,
    {
        &self.id
    }

    pub fn get_definition_id(&self) -> (r: &String)
        ensures
            r@ == self@.definition_id,
    {
        &self.definition_id
    }

    pub fn get_data_value(&self) -> (r: &DataValue)
        ensures
            r@ == self@.data_value,
    {
        &self.data_value
    }

    pub fn get_timestamp(&self) -> (r: &u128)
        ensures
            *r == self@.timestamp,
    {
        &self.timestamp
    }

    pub fn get_quality(&self) -> (r: &Quality)
        ensures
            *r == self@.quality,
    {
        &self.quality
    }

    /// A humidity reading under a generated id: good quality, the fixed
    /// humidity definition.
    pub fn new_humidity(value: u8, timestamp: u128) -> (r: MeasurementValue)
        ensures
            is_uuid_text(r@.id),
            r@.definition_id == "def:meas:humidity"@,
            r@.data_value == DataValueView::U8(value),
            r@.timestamp == timestamp,
            r@.quality == Quality::Good,
    {
        MeasurementValue::new(
            fresh_reading_id(),
            "def:meas:humidity".to_owned(),
            DataValue::U8(value),
            timestamp,
            Quality::Good,
        )
    }

    /// A sound reading under a generated id: good quality, the fixed
    /// sound definition.
    pub fn new_sound(value: u8, timestamp: u128) -> (r: MeasurementValue)
        ensures
            is_uuid_text(r@.id),
            r@.definition_id == "def:meas:sound"@,
            r@.data_value == DataValueView::U8(value),
            r@.timestamp == timestamp,
            r@.quality == Quality::Good,
    {
        MeasurementValue::new(
            fresh_reading_id(),
            "def:meas:sound".to_owned(),
            DataValue::U8(value),
            timestamp,
            Quality::Good,
        )
    }

    /// A temperature reading under a generated id: good quality, the
    /// fixed temperature definition.
    pub fn new_temperature(value: i16, timestamp: u128) -> (r: MeasurementValue)
        ensures
            is_uuid_text(r@.id),
            r@.definition_id == "def:meas:temp"@,
            r@.data_value == DataValueView::I16(value),
            r@.timestamp == timestamp,
            r@.quality == Quality::Good,
    {
        MeasurementValue::new(
            fresh_reading_id(),
            "def:meas:temp".to_owned(),
            DataValue::I16(value),
            timestamp,
            Quality::Good,
        )
    }
}

/// A generated id for one reading: the text of a fresh UUID. Nothing
/// relates two generated ids.
fn fresh_reading_id() -> (r: String)
    ensures
        is_uuid_text(r@),
{
    fresh_uuid_text()
}

} // verus!
