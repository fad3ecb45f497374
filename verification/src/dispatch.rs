//! Stateless decisions for the two vendor control requests.
//!
//! Every invocation is evaluated solely from the incoming request's fields:
//! a discovery request selects one of the statically pre-encoded descriptor
//! set buffers through the 1-based vendor-code convention, or is rejected;
//! an alternate-enumeration command is always rejected (the feature is a
//! known stub); anything else is left to other handlers in the pipeline.

use vstd::prelude::*;

verus! {

/// The type of a control request, as carried in bmRequestType.
#[derive(Clone, Copy)]
pub enum RequestKind {
    /// A USB standard request.
    Standard,
    /// A request intended for a USB class.
    Class,
    /// A vendor-specific request.
    Vendor,
    /// Reserved.
    Reserved,
}

/// The recipient of a control request, as carried in bmRequestType.
#[derive(Clone, Copy)]
pub enum RequestRecipient {
    /// The entire device.
    Device,
    /// An interface.
    Interface,
    /// An endpoint.
    Endpoint,
    /// None of the above.
    Other,
    /// Reserved.
    Reserved,
}

/// The fields of a parsed control request that the two handlers read.
pub struct ControlRequest {
    /// Type of the request.
    pub request_type: RequestKind,
    /// Recipient of the request.
    pub recipient: RequestRecipient,
    /// Request code (bRequest); for a discovery request this is the vendor code.
    pub request: u8,
    /// Request value (wValue).
    pub value: u16,
    /// Request index (wIndex).
    pub index: u16,
}

impl ControlRequest {
    /// Whether this is a discovery (descriptor retrieval) request: vendor
    /// scoped, device recipient, with the fixed descriptor wIndex code.
    pub open spec fn is_descriptor_request(self) -> bool {
        &&& self.request_type is Vendor
        &&& self.recipient is Device
        &&& self.index == crate::os_20::DescriptorIndex::Descriptor.code_spec()
    }

    /// Whether this is an alternate-enumeration command: vendor scoped,
    /// device recipient, with the fixed set-alternate-enumeration wIndex code.
    pub open spec fn is_set_alt_enumeration_request(self) -> bool {
        &&& self.request_type is Vendor
        &&& self.recipient is Device
        &&& self.index == crate::os_20::DescriptorIndex::SetAltEnumeration.code_spec()
    }
}

/// The outcome of the IN-transfer handler.
#[derive(Debug, PartialEq, Eq, Structural)]
pub enum InDecision {
    /// Answer the transfer with the pre-encoded descriptor set buffer at this
    /// 0-based index.
    AcceptSet(usize),
    /// Reject the transfer.
    Reject,
    /// Leave the request to other handlers in the pipeline.
    Ignore,
}

/// The outcome of the OUT-transfer handler.
#[derive(Debug, PartialEq, Eq, Structural)]
pub enum OutDecision {
    /// Reject the transfer.
    Reject,
    /// Leave the request to other handlers in the pipeline.
    Ignore,
}

/// Decides a control IN transfer, given how many descriptor set buffers are
/// available. A discovery request whose vendor code selects an existing
/// buffer is answered with that buffer; one whose code is zero or out of
/// range is rejected; any other request is ignored.
pub fn control_in_decision(req: &ControlRequest, num_sets: usize) -> (r: InDecision)
    ensures
        !req.is_descriptor_request() ==> r is Ignore,
        req.is_descriptor_request() && 1 <= req.request <= num_sets ==> r
            == InDecision::AcceptSet((req.request - 1) as usize),
        req.is_descriptor_request() && !(1 <= req.request <= num_sets) ==> r is Reject,
{
    let vendor = matches!(req.request_type, RequestKind::Vendor);
    let device = matches!(req.recipient, RequestRecipient::Device);
    let descriptor_index = crate::os_20::DescriptorIndex::Descriptor.code();
    if vendor && device && req.index == descriptor_index {
        match crate::os_20::Capabilities::vendor_code_to_descriptor_set(req.request) {
            Some(i) => {
                if i < num_sets {
                    InDecision::AcceptSet(i)
                } else {
                    InDecision::Reject
                }
            },
            None => InDecision::Reject,
        }
    } else {
        InDecision::Ignore
    }
}

/// Decides a control OUT transfer. Alternate enumeration is not implemented,
/// so every alternate-enumeration command is rejected, observably; any other
/// request is ignored.
pub fn control_out_decision(req: &ControlRequest) -> (r: OutDecision)
    ensures
        req.is_set_alt_enumeration_request() ==> r is Reject,
        !req.is_set_alt_enumeration_request() ==> r is Ignore,
{
    let vendor = matches!(req.request_type, RequestKind::Vendor);
    let device = matches!(req.recipient, RequestRecipient::Device);
    let alt_enum_index = crate::os_20::DescriptorIndex::SetAltEnumeration.code();
    if vendor && device && req.index == alt_enum_index {
        OutDecision::Reject
    } else {
        OutDecision::Ignore
    }
}

} // verus!
