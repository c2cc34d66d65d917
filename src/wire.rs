use vstd::prelude::*;

use crate::name::{Name, PublicKey};

verus! {

/// A request's source or destination: a client session or a group that
/// manages one name.
#[derive(Clone, Copy, Debug)]
pub enum Authority {
    ClientManager(Name),
    NaeManager(Name),
    NodeManager(Name),
    ManagedNode(Name),
    Client { client_key: PublicKey, proxy_node_name: Name },
}

impl Authority {
    /// The name this authority is addressed by.
    pub open spec fn name_of(self) -> Name {
        match self {
            Authority::ClientManager(n) => n,
            Authority::NaeManager(n) => n,
            Authority::NodeManager(n) => n,
            Authority::ManagedNode(n) => n,
            Authority::Client { proxy_node_name, .. } => proxy_node_name,
        }
    }

    pub fn get_name(&self) -> (r: Name)
        ensures
            r == self.name_of(),
    {
        match self {
            Authority::ClientManager(n) => *n,
            Authority::NaeManager(n) => *n,
            Authority::NodeManager(n) => *n,
            Authority::ManagedNode(n) => *n,
            Authority::Client { proxy_node_name, .. } => *proxy_node_name,
        }
    }

    /// Whether this authority denotes a client session.
    pub fn is_client(&self) -> (r: bool)
        ensures
            r == (*self is Client),
    {
        match self {
            Authority::Client { .. } => true,
            _ => false,
        }
    }

    /// Whether two authorities are the same.
    pub fn same(&self, other: &Authority) -> (r: bool)
        ensures
            r == (*self == *other),
    {
        match (self, other) {
            (Authority::ClientManager(a), Authority::ClientManager(b)) => a.same(b),
            (Authority::NaeManager(a), Authority::NaeManager(b)) => a.same(b),
            (Authority::NodeManager(a), Authority::NodeManager(b)) => a.same(b),
            (Authority::ManagedNode(a), Authority::ManagedNode(b)) => a.same(b),
            (
                Authority::Client { client_key: k1, proxy_node_name: p1 },
                Authority::Client { client_key: k2, proxy_node_name: p2 },
            ) => k1.same(k2) && p1.same(p2),
            _ => false,
        }
    }
}

/// The notification that announces a message to its recipient.
///
/// `encoded` is the header in its signed, serialised form, which this library
/// carries without reading. `name` is its content address as the messaging
/// codec computes it, or `None` where it could not be computed.
#[derive(Debug)]
pub struct Header {
    pub sender: Name,
    pub name: Option<Name>,
    pub encoded: Vec<u8>,
}

pub struct HeaderView {
    pub sender: Name,
    pub name: Option<Name>,
    pub encoded: Seq<u8>,
}

impl View for Header {
    type V = HeaderView;

    open spec fn view(&self) -> HeaderView {
        HeaderView { sender: self.sender, name: self.name, encoded: self.encoded@ }
    }
}

impl Header {
    /// A copy with the same view.
    pub fn duplicate(&self) -> (r: Header)
        ensures
            r@ == self@,
    {
        let encoded = self.encoded.clone();
        assert(encoded@ =~= self.encoded@);
        Header { sender: self.sender, name: self.name, encoded }
    }
}

/// A full message: its header and its recipient.
///
/// `encoded` is the whole message in its signed, serialised form, body
/// included, which this library carries without reading. `name` is its
/// content address as the messaging codec computes it, or `None` where it
/// could not be computed.
#[derive(Debug)]
pub struct Message {
    pub header: Header,
    pub recipient: Name,
    pub name: Option<Name>,
    pub encoded: Vec<u8>,
}

pub struct MessageView {
    pub header: HeaderView,
    pub recipient: Name,
    pub name: Option<Name>,
    pub encoded: Seq<u8>,
}

impl View for Message {
    type V = MessageView;

    open spec fn view(&self) -> MessageView {
        MessageView { header: self.header@, recipient: self.recipient, name: self.name, encoded: self.encoded@ }
    }
}

impl Message {
    /// A copy with the same view.
    pub fn duplicate(&self) -> (r: Message)
        ensures
            r@ == self@,
    {
        let encoded = self.encoded.clone();
        assert(encoded@ =~= self.encoded@);
        Message { header: self.header.duplicate(), recipient: self.recipient, name: self.name, encoded }
    }
}

/// The payload of a messaging request: exactly one of these.
#[derive(Debug)]
pub enum Wrapper {
    Online,
    PutMessage(Message),
    PutHeader(Header),
    GetMessage(Header),
    OutboxHas(Vec<Name>),
    OutboxHasResponse(Vec<Header>),
    GetOutboxHeaders,
    GetOutboxHeadersResponse(Vec<Header>),
    DeleteMessage(Name),
    DeleteHeader(Name),
}

pub enum WrapperView {
    Online,
    PutMessage(MessageView),
    PutHeader(HeaderView),
    GetMessage(HeaderView),
    OutboxHas(Seq<Name>),
    OutboxHasResponse(Seq<HeaderView>),
    GetOutboxHeaders,
    GetOutboxHeadersResponse(Seq<HeaderView>),
    DeleteMessage(Name),
    DeleteHeader(Name),
}

/// The views of a sequence of headers.
pub open spec fn header_views(s: Seq<Header>) -> Seq<HeaderView> {
    s.map_values(|h: Header| h@)
}

impl View for Wrapper {
    type V = WrapperView;

    open spec fn view(&self) -> WrapperView {
        match self {
            Wrapper::Online => WrapperView::Online,
            Wrapper::PutMessage(m) => WrapperView::PutMessage(m@),
            Wrapper::PutHeader(h) => WrapperView::PutHeader(h@),
            Wrapper::GetMessage(h) => WrapperView::GetMessage(h@),
            Wrapper::OutboxHas(v) => WrapperView::OutboxHas(v@),
            Wrapper::OutboxHasResponse(v) => WrapperView::OutboxHasResponse(header_views(v@)),
            Wrapper::GetOutboxHeaders => WrapperView::GetOutboxHeaders,
            Wrapper::GetOutboxHeadersResponse(v) => WrapperView::GetOutboxHeadersResponse(
                header_views(v@),
            ),
            Wrapper::DeleteMessage(n) => WrapperView::DeleteMessage(*n),
            Wrapper::DeleteHeader(n) => WrapperView::DeleteHeader(*n),
        }
    }
}

/// Copies of a list of headers with the same views.
pub fn duplicate_headers(v: &Vec<Header>) -> (r: Vec<Header>)
    ensures
        header_views(r@) == header_views(v@),
{
    let mut r: Vec<Header> = Vec::new();
    let mut i: usize = 0;
    while i < v.len()
        invariant
            i <= v@.len(),
            r@.len() == i,
            forall|j: int| 0 <= j < i ==> (#[trigger] r@[j])@ == v@[j]@,
        decreases v@.len() - i,
    {
        r.push(v[i].duplicate());
        i = i + 1;
    }
    assert(header_views(r@) =~= header_views(v@));
    r
}

impl Wrapper {
    /// A copy with the same view.
    pub fn duplicate(&self) -> (r: Wrapper)
        ensures
            r@ == self@,
    {
        match self {
            Wrapper::Online => Wrapper::Online,
            Wrapper::PutMessage(m) => Wrapper::PutMessage(m.duplicate()),
            Wrapper::PutHeader(h) => Wrapper::PutHeader(h.duplicate()),
            Wrapper::GetMessage(h) => Wrapper::GetMessage(h.duplicate()),
            Wrapper::OutboxHas(v) => {
                let c = v.clone();
                assert(c@ =~= v@);
                Wrapper::OutboxHas(c)
            },
            Wrapper::OutboxHasResponse(v) => Wrapper::OutboxHasResponse(duplicate_headers(v)),
            Wrapper::GetOutboxHeaders => Wrapper::GetOutboxHeaders,
            Wrapper::GetOutboxHeadersResponse(v) => Wrapper::GetOutboxHeadersResponse(
                duplicate_headers(v),
            ),
            Wrapper::DeleteMessage(n) => Wrapper::DeleteMessage(*n),
            Wrapper::DeleteHeader(n) => Wrapper::DeleteHeader(*n),
        }
    }
}

/// A named payload: the content address it travels under and the wrapper.
#[derive(Debug)]
pub struct Data {
    pub name: Name,
    pub wrapper: Wrapper,
}

pub struct DataView {
    pub name: Name,
    pub wrapper: WrapperView,
}

impl View for Data {
    type V = DataView;

    open spec fn view(&self) -> DataView {
        DataView { name: self.name, wrapper: self.wrapper@ }
    }
}

impl Data {
    /// A copy with the same view.
    pub fn duplicate(&self) -> (r: Data)
        ensures
            r@ == self@,
    {
        Data { name: self.name, wrapper: self.wrapper.duplicate() }
    }
}

} // verus!
