//! The presence and telemetry message layer over the bus: the message
//! schemas, the envelope handed to downstream processing, and the
//! per-message decision a subscription callback makes on each inbound
//! sample: parse the address, check the payload, extract the device id.

pub mod hello;
pub mod value;
pub mod who_are_you;

use crate::ipc::hello::Hello;
use crate::ipc::who_are_you::WhoAreYou;
use crate::model::device::DeviceModel;
use crate::uri::{spec_parse_uri, Uri};
use tokio::sync::mpsc::Sender;
use vstd::prelude::*;

verus! {

/// `tokio::sync::mpsc::Sender` carried through the envelopes so a
/// subscription handler can move work onto an asynchronous channel; the
/// library only stores and hands the value back.
#[verifier::external_type_specification]
#[verifier::external_body]
#[verifier::reject_recursive_types(T)]
pub struct ExSender<T>(Sender<T>);

/// Why one inbound message was rejected. The subscription itself stays
/// live for later messages.
#[derive(Clone, Copy, PartialEq, Eq, Structural, Debug)]
pub enum IpcError {
    /// The sample's address does not follow the grammar.
    UriError,
    /// The body does not deserialize against the expected schema.
    PayloadError,
    /// The parsed address carries no device-id segment.
    DeviceError,
}

impl IpcError {
    /// The error as the text a subscription handler reports.
    pub fn message(&self) -> (r: String)
        ensures
            self is UriError ==> r@ == "Uri error"@,
            self is PayloadError ==> r@ == "Payload error"@,
            self is DeviceError ==> r@ == "Device error"@,
    {
        match self {
            IpcError::UriError => "Uri error".to_owned(),
            IpcError::PayloadError => "Payload error".to_owned(),
            IpcError::DeviceError => "Device error".to_owned(),
        }
    }
}

/// A delivered liveness announcement: who sent it, the message, and the
/// channel to hand downstream work to.
#[verifier::reject_recursive_types(T)]
pub struct IpcHelloMessage<T> {
    pub device_id: String,
    pub hello: Hello,
    pub sender_channel: Sender<T>,
}

/// A delivered self-description reply.
#[verifier::reject_recursive_types(T)]
pub struct IpcWhoIAmMessage<T> {
    pub device_id: String,
    pub model: DeviceModel,
    pub sender_channel: Sender<T>,
}

/// A delivered discovery request.
#[verifier::reject_recursive_types(T)]
pub struct IpcWhoAreYouMessage<T> {
    pub sender_id: String,
    pub who_are_you: WhoAreYou,
    pub sender_channel: Sender<T>,
}

/// The decision made on one inbound sample, checked in order: an address
/// that does not parse is a `UriError`; then a body that did not
/// deserialize is a `PayloadError`; then an address without a device-id
/// segment is a `DeviceError`; otherwise the sending device's id.
pub open spec fn spec_accept(key: Seq<char>, payload_ok: bool) -> Result<Seq<char>, IpcError> {
    match spec_parse_uri(key) {
        None => Err(IpcError::UriError),
        Some(u) => {
            if !payload_ok {
                Err(IpcError::PayloadError)
            } else {
                match u.device {
                    Some(d) => Ok(d.id),
                    None => Err(IpcError::DeviceError),
                }
            }
        },
    }
}

/// Accept or reject one inbound `hello` sample. `payload` carries the
/// already-deserialized body, or nothing when it did not deserialize.
pub fn accept_hello<T>(key_expr: &str, payload: Option<Hello>, sender_channel: Sender<T>) -> (r:
    Result<IpcHelloMessage<T>, IpcError>)
    ensures
        match spec_accept(key_expr@, payload is Some) {
            Ok(id) => r matches Ok(msg) && msg.device_id@ == id && (payload matches Some(h)
                && msg.hello == h),
            Err(e) => r matches Err(got) && got == e,
        },
{
    let uri = match Uri::from_str(key_expr) {
        Ok(u) => u,
        Err(_) => {
            return Err(IpcError::UriError);
        },
    };
    let hello = match payload {
        Some(h) => h,
        None => {
            return Err(IpcError::PayloadError);
        },
    };
    let device_id = match uri.get_device() {
        Some(d) => d.get_id().clone(),
        None => {
            return Err(IpcError::DeviceError);
        },
    };
    Ok(IpcHelloMessage { device_id, hello, sender_channel })
}

/// Accept or reject one inbound `who-i-am` sample.
pub fn accept_who_i_am<T>(
    key_expr: &str,
    payload: Option<DeviceModel>,
    sender_channel: Sender<T>,
) -> (r: Result<IpcWhoIAmMessage<T>, IpcError>)
    ensures
        match spec_accept(key_expr@, payload is Some) {
            Ok(id) => r matches Ok(msg) && msg.device_id@ == id && (payload matches Some(m)
                && msg.model == m),
            Err(e) => r matches Err(got) && got == e,
        },
{
    let uri = match Uri::from_str(key_expr) {
        Ok(u) => u,
        Err(_) => {
            return Err(IpcError::UriError);
        },
    };
    let model = match payload {
        Some(m) => m,
        None => {
            return Err(IpcError::PayloadError);
        },
    };
    let device_id = match uri.get_device() {
        Some(d) => d.get_id().clone(),
        None => {
            return Err(IpcError::DeviceError);
        },
    };
    Ok(IpcWhoIAmMessage { device_id, model, sender_channel })
}

/// Accept or reject one inbound `who-are-you` sample.
pub fn accept_who_are_you<T>(
    key_expr: &str,
    payload: Option<WhoAreYou>,
    sender_channel: Sender<T>,
) -> (r: Result<IpcWhoAreYouMessage<T>, IpcError>)
    ensures
        match spec_accept(key_expr@, payload is Some) {
            Ok(id) => r matches Ok(msg) && msg.sender_id@ == id && (payload matches Some(w)
                && msg.who_are_you == w),
            Err(e) => r matches Err(got) && got == e,
        },
{
    let uri = match Uri::from_str(key_expr) {
        Ok(u) => u,
        Err(_) => {
            return Err(IpcError::UriError);
        },
    };
    let who_are_you = match payload {
        Some(w) => w,
        None => {
            return Err(IpcError::PayloadError);
        },
    };
    let sender_id = match uri.get_device() {
        Some(d) => d.get_id().clone(),
        None => {
            return Err(IpcError::DeviceError);
        },
    };
    Ok(IpcWhoAreYouMessage { sender_id, who_are_you, sender_channel })
}

} // verus!
