//! Control-point library for UPnP/DLNA device control: SSDP discovery,
//! device/service description resolution, SOAP action invocation, and GENA
//! eventing. This crate holds the wire-format logic (HTTP header blocks, XML,
//! SOAP envelopes, DIDL-Lite metadata, LastChange event payloads) together
//! with the contracts that pin its behaviour down; network transport lives
//! with the caller.

pub mod description;
pub mod didl;
pub mod discovery;
pub mod escape;
pub mod eventing;
pub mod parser;
pub mod renderer;
pub mod roundtrip;
pub mod server;
pub mod soap;
pub mod xmltok;
pub mod strutil;
pub mod types;

use vstd::prelude::*;

verus! {

/// The error taxonomy of the control point.
#[derive(Debug, Clone, PartialEq, Eq)]
pub enum UpnpError {
    /// An action was invoked before a device was resolved.
    NotConnected,
    /// No service with the requested service id exists on the device.
    ServiceNotFound,
    /// The service has an authoritative action list and the action is absent.
    ActionNotFound,
    /// A network fetch failed (description or SCPD retrieval).
    FetchError,
    /// A control or eventing request failed in transport.
    TransportError,
    /// The description XML lacks a root device element or cannot be parsed.
    MalformedDescription,
    /// The device reported a SOAP-level fault, with the UPnP error code and
    /// description extracted from the fault body when present.
    SoapFault { error_code: Option<u32>, description: Option<String> },
}

} // verus!
