use vstd::prelude::*;

use crate::name::Name;
use crate::wire::{Authority, Data, DataView};

verus! {

/// The verb of a routed request.
#[derive(Clone, Copy, Debug, PartialEq, Eq, Structural)]
pub enum Verb {
    Get,
    Put,
    Post,
    Delete,
}

/// An inbound request, with its payload decoded: `payload_size` is the length
/// in bytes of the serialised payload, which is what a mailbox is charged.
#[derive(Debug)]
pub struct RequestMessage {
    pub src: Authority,
    pub dst: Authority,
    pub verb: Verb,
    pub data: Data,
    pub payload_size: u64,
    pub message_id: Name,
}

pub struct RequestView {
    pub src: Authority,
    pub dst: Authority,
    pub verb: Verb,
    pub data: DataView,
    pub payload_size: u64,
    pub message_id: Name,
}

impl View for RequestMessage {
    type V = RequestView;

    open spec fn view(&self) -> RequestView {
        RequestView {
            src: self.src,
            dst: self.dst,
            verb: self.verb,
            data: self.data@,
            payload_size: self.payload_size,
            message_id: self.message_id,
        }
    }
}

impl RequestMessage {
    /// A copy with the same view.
    pub fn duplicate(&self) -> (r: RequestMessage)
        ensures
            r@ == self@,
    {
        RequestMessage {
            src: self.src,
            dst: self.dst,
            verb: self.verb,
            data: self.data.duplicate(),
            payload_size: self.payload_size,
            message_id: self.message_id,
        }
    }
}

/// A request or response that the manager hands to the routing layer to send.
#[derive(Debug)]
pub enum Outgoing {
    Put { src: Authority, dst: Authority, data: Data, message_id: Name },
    Post { src: Authority, dst: Authority, data: Data, message_id: Name },
    /// A failure answer to `request`, with an empty error payload.
    PostFailure { src: Authority, dst: Authority, request: RequestMessage, message_id: Name },
}

pub enum OutgoingView {
    Put { src: Authority, dst: Authority, data: DataView, message_id: Name },
    Post { src: Authority, dst: Authority, data: DataView, message_id: Name },
    PostFailure { src: Authority, dst: Authority, request: RequestView, message_id: Name },
}

impl View for Outgoing {
    type V = OutgoingView;

    open spec fn view(&self) -> OutgoingView {
        match self {
            Outgoing::Put { src, dst, data, message_id } => OutgoingView::Put {
                src: *src,
                dst: *dst,
                data: data@,
                message_id: *message_id,
            },
            Outgoing::Post { src, dst, data, message_id } => OutgoingView::Post {
                src: *src,
                dst: *dst,
                data: data@,
                message_id: *message_id,
            },
            Outgoing::PostFailure { src, dst, request, message_id } => OutgoingView::PostFailure {
                src: *src,
                dst: *dst,
                request: request@,
                message_id: *message_id,
            },
        }
    }
}

/// The views of a sequence of outgoing requests.
pub open spec fn outgoing_views(s: Seq<Outgoing>) -> Seq<OutgoingView> {
    s.map_values(|o: Outgoing| o@)
}

} // verus!
