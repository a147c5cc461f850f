//! Events and addresses of the notification pipeline.

use vstd::prelude::*;

verus! {

/// The kernel-side address a routing-netlink socket binds to: a local
/// port id and the multicast-group subscription mask. This listener
/// always binds with local id 0, letting the kernel assign one.
#[derive(Clone, Copy, PartialEq, Eq, Structural, Debug)]
pub struct KernelSocketAddress {
    pub port_id: u32,
    pub groups: u32,
}

impl KernelSocketAddress {
    /// The address a multicast listener binds: local id 0 and the
    /// given subscription mask.
    pub fn listener(mask: u32) -> (a: KernelSocketAddress)
        ensures
            a.port_id == 0,
            a.groups == mask,
    {
        KernelSocketAddress { port_id: 0, groups: mask }
    }
}

/// One inbound notification: the payload as the transport framed it,
/// opaque to this pipeline, plus the sender's socket address.
#[derive(Debug)]
pub struct InboundEvent {
    pub payload: Vec<u8>,
    pub sender: KernelSocketAddress,
}

/// The mathematical value of an inbound event.
pub struct EventModel {
    pub payload: Seq<u8>,
    pub sender: KernelSocketAddress,
}

impl View for InboundEvent {
    type V = EventModel;

    open spec fn view(&self) -> EventModel {
        EventModel { payload: self.payload@, sender: self.sender }
    }
}

} // verus!
