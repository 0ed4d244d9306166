//! Network addresses.
//!
//! Multiaddresses are libp2p's own. What the exporter reads of one is the sequence of its
//! components, which [`components`] names.

use crate::peer::PeerId;
use libp2p::multiaddr::Protocol;
use libp2p::Multiaddr;
use vstd::prelude::*;

verus! {

/// An IP address, as the number that its bytes write in network order.
#[derive(Debug, Clone, Copy, PartialEq, Eq)]
pub enum IpAddress {
    V4(u32),
    V6(u128),
}

/// An IP address and a port.
#[derive(Debug, Clone, Copy, PartialEq, Eq)]
pub struct SocketAddress {
    pub ip: IpAddress,
    pub port: u16,
}

/// One component of a multiaddress.
#[derive(Debug, PartialEq, Eq)]
pub enum Component {
    Ip4(u32),
    Ip6(u128),
    Tcp(u16),
    Udp(u16),
    Quic,
    QuicV1,
    P2p(PeerId),
    /// Any other component, as the text that it is written as.
    Other(String),
}

/// A [`Component`] as contracts speak of it.
pub enum ComponentView {
    Ip4(u32),
    Ip6(u128),
    Tcp(u16),
    Udp(u16),
    Quic,
    QuicV1,
    P2p(Seq<u8>),
    Other(Seq<char>),
}

impl View for Component {
    type V = ComponentView;

    open spec fn view(&self) -> ComponentView {
        match *self {
            Component::Ip4(ip) => ComponentView::Ip4(ip),
            Component::Ip6(ip) => ComponentView::Ip6(ip),
            Component::Tcp(port) => ComponentView::Tcp(port),
            Component::Udp(port) => ComponentView::Udp(port),
            Component::Quic => ComponentView::Quic,
            Component::QuicV1 => ComponentView::QuicV1,
            Component::P2p(peer) => ComponentView::P2p(peer@),
            Component::Other(text) => ComponentView::Other(text@),
        }
    }
}

/// A component of an address to listen on.
#[derive(Debug, Clone, Copy, PartialEq, Eq)]
pub enum ListenComponent {
    Ip4(u32),
    Ip6(u128),
    Tcp(u16),
    Udp(u16),
    Quic,
    QuicV1,
}

impl View for ListenComponent {
    type V = ComponentView;

    open spec fn view(&self) -> ComponentView {
        match *self {
            ListenComponent::Ip4(ip) => ComponentView::Ip4(ip),
            ListenComponent::Ip6(ip) => ComponentView::Ip6(ip),
            ListenComponent::Tcp(port) => ComponentView::Tcp(port),
            ListenComponent::Udp(port) => ComponentView::Udp(port),
            ListenComponent::Quic => ComponentView::Quic,
            ListenComponent::QuicV1 => ComponentView::QuicV1,
        }
    }
}

/// libp2p's multiaddress.
#[verifier::external_type_specification]
#[verifier::external_body]
pub struct ExMultiaddr(libp2p::Multiaddr);

/// libp2p's error for a text that is not a multiaddress.
#[verifier::external_type_specification]
#[verifier::external_body]
pub struct ExMultiaddrError(libp2p::multiaddr::Error);

/// The components that a multiaddress holds, in order.
pub uninterp spec fn components(address: Multiaddr) -> Seq<ComponentView>;

/// Calls `Multiaddr::iter` and takes the first item: the first component, if there is one.
#[verifier::external_body]
pub(crate) fn first_component(address: &Multiaddr) -> (res: Option<Component>)
    ensures
        match res {
            Some(component) => components(*address).len() > 0 && component@ == components(
                *address,
            )[0],
            None => components(*address).len() == 0,
        },
{
    address.iter().next().map(|protocol| match protocol {
        Protocol::Ip4(ip) => Component::Ip4(ip.into()),
        Protocol::Ip6(ip) => Component::Ip6(ip.into()),
        Protocol::Tcp(port) => Component::Tcp(port),
        Protocol::Udp(port) => Component::Udp(port),
        Protocol::Quic => Component::Quic,
        Protocol::QuicV1 => Component::QuicV1,
        Protocol::P2p(peer) => Component::P2p(PeerId { bytes: peer.to_bytes() }),
        other => Component::Other(other.to_string()),
    })
}

/// Calls `Multiaddr::pop`: takes the last component off, if there is one.
#[verifier::external_body]
pub(crate) fn pop_component(address: &mut Multiaddr) -> (res: Option<Component>)
    ensures
        match res {
            Some(component) => components(*old(address)).len() > 0 && component@ == components(
                *old(address),
            ).last() && components(*final(address)) == components(*old(address)).drop_last(),
            None => components(*old(address)).len() == 0 && components(*final(address)).len()
                == 0,
        },
{
    address.pop().map(|protocol| match protocol {
        Protocol::Ip4(ip) => Component::Ip4(ip.into()),
        Protocol::Ip6(ip) => Component::Ip6(ip.into()),
        Protocol::Tcp(port) => Component::Tcp(port),
        Protocol::Udp(port) => Component::Udp(port),
        Protocol::Quic => Component::Quic,
        Protocol::QuicV1 => Component::QuicV1,
        Protocol::P2p(peer) => Component::P2p(PeerId { bytes: peer.to_bytes() }),
        other => Component::Other(other.to_string()),
    })
}

/// Calls `Multiaddr::clone`: the same multiaddress once more.
#[verifier::external_body]
pub(crate) fn same_address(address: &Multiaddr) -> (res: Multiaddr)
    ensures
        res == *address,
{
    address.clone()
}

/// Calls `Multiaddr::empty`: a multiaddress without components.
#[verifier::external_body]
pub(crate) fn empty_address() -> (res: Multiaddr)
    ensures
        components(res) == Seq::<ComponentView>::empty(),
{
    Multiaddr::empty()
}

/// Calls `Multiaddr::with`: the address, with a component added at its end.
#[verifier::external_body]
pub(crate) fn with_component(address: Multiaddr, component: ListenComponent) -> (res: Multiaddr)
    ensures
        components(res) == components(address).push(component@),
{
    address.with(match component {
        ListenComponent::Ip4(ip) => Protocol::Ip4(ip.into()),
        ListenComponent::Ip6(ip) => Protocol::Ip6(ip.into()),
        ListenComponent::Tcp(port) => Protocol::Tcp(port),
        ListenComponent::Udp(port) => Protocol::Udp(port),
        ListenComponent::Quic => Protocol::Quic,
        ListenComponent::QuicV1 => Protocol::QuicV1,
    })
}

/// The components of the texts for listening on every IPv4 interface, at a port that the system
/// picks.
pub open spec fn any_interface(text: Seq<char>) -> Option<Seq<ComponentView>> {
    if text == "/ip4/0.0.0.0/tcp/0"@ {
        Some(seq![ComponentView::Ip4(0), ComponentView::Tcp(0)])
    } else if text == "/ip4/0.0.0.0/udp/0/quic"@ {
        Some(seq![ComponentView::Ip4(0), ComponentView::Udp(0), ComponentView::Quic])
    } else if text == "/ip4/0.0.0.0/udp/0/quic-v1"@ {
        Some(seq![ComponentView::Ip4(0), ComponentView::Udp(0), ComponentView::QuicV1])
    } else {
        None
    }
}

/// Calls `Multiaddr::from_str`: reads a multiaddress from its text, which is one of those of
/// [`any_interface`].
#[verifier::external_body]
pub(crate) fn parse_address(text: &str) -> (res: Result<Multiaddr, libp2p::multiaddr::Error>)
    requires
        any_interface(text@) is Some,
    ensures
        match res {
            Ok(address) => any_interface(text@) == Some(components(address)),
            Err(_) => any_interface(text@) is None,
        },
{
    text.parse()
}

/// The IP address that a multiaddress starts with, if it starts with one.
pub open spec fn leading_ip(parts: Seq<ComponentView>) -> Option<IpAddress> {
    if parts.len() == 0 {
        None
    } else {
        match parts[0] {
            ComponentView::Ip4(ip) => Some(IpAddress::V4(ip)),
            ComponentView::Ip6(ip) => Some(IpAddress::V6(ip)),
            _ => None,
        }
    }
}

/// Reads the IP address that a multiaddress starts with.
pub fn leading_ip_address(address: &Multiaddr) -> (res: Option<IpAddress>)
    ensures
        res == leading_ip(components(*address)),
{
    match first_component(address) {
        Some(Component::Ip4(ip)) => Some(IpAddress::V4(ip)),
        Some(Component::Ip6(ip)) => Some(IpAddress::V6(ip)),
        _ => None,
    }
}

} // verus!
