//! The frame filter: from a captured frame to the datagram it carries, if it
//! carries one for the protocol's port.

use crate::wire::Ipv4Address;
use etherparse::{NetSlice, SlicedPacket, TransportSlice};
use vstd::prelude::*;

verus! {

/// The UDP port that the cabinets send their datagrams to.
pub const PORT: u16 = 50200;

/// What a captured frame starts with.
#[derive(Clone, Copy, Debug, PartialEq, Eq, Structural)]
pub enum Link {
    /// An Ethernet II header.
    Ethernet,
    /// An IP header, with no link layer in front of it.
    RawIp,
}

/// The addresses of an IPv4 packet.
#[derive(Clone, Copy, Debug, PartialEq, Eq, Structural)]
pub struct Ipv4Layer {
    pub source: Ipv4Address,
    pub destination: Ipv4Address,
}

/// The ports and the payload of a UDP datagram.
#[derive(Clone, Debug, PartialEq, Eq)]
pub struct UdpLayer {
    pub source_port: u16,
    pub destination_port: u16,
    pub payload: Vec<u8>,
}

/// The model of a [`UdpLayer`].
pub struct UdpLayerView {
    pub source_port: u16,
    pub destination_port: u16,
    pub payload: Seq<u8>,
}

impl View for UdpLayer {
    type V = UdpLayerView;

    open spec fn view(&self) -> UdpLayerView {
        UdpLayerView {
            source_port: self.source_port,
            destination_port: self.destination_port,
            payload: self.payload@,
        }
    }
}

/// What slicing a frame found of the layers that the filter looks at. A
/// network layer other than IPv4 and a transport layer other than UDP are
/// both recorded as absent.
#[derive(Clone, Debug, PartialEq, Eq)]
pub struct Layers {
    pub ipv4: Option<Ipv4Layer>,
    pub udp: Option<UdpLayer>,
}

/// The model of a [`Layers`].
pub struct LayersView {
    pub ipv4: Option<Ipv4Layer>,
    pub udp: Option<UdpLayerView>,
}

impl View for Layers {
    type V = LayersView;

    open spec fn view(&self) -> LayersView {
        LayersView {
            ipv4: self.ipv4,
            udp: match self.udp {
                Some(u) => Some(u@),
                None => None,
            },
        }
    }
}

/// The model of what slicing returned: the layers, or the slicer's message.
pub open spec fn sliced_view(r: Result<Layers, String>) -> Result<LayersView, Seq<char>> {
    match r {
        Ok(l) => Ok(l@),
        Err(e) => Err(e@),
    }
}

/// What slicing finds in a frame that starts with an Ethernet II header, or
/// its complaint about a frame that is cut short or malformed.
pub uninterp spec fn ethernet_layers(data: Seq<u8>) -> Result<LayersView, Seq<char>>;

/// What slicing finds in a frame that starts with an IP header, or its
/// complaint about a frame that is cut short or malformed.
pub uninterp spec fn ip_layers(data: Seq<u8>) -> Result<LayersView, Seq<char>>;

/// `etherparse::SlicedPacket::from_ethernet`, with what the filter reads
/// copied out of the slices: the addresses where the network layer is IPv4,
/// the ports and the payload where the transport layer is UDP. An error is
/// handed on as its text. The result depends on the frame's bytes alone.
#[verifier::external_body]
fn slice_ethernet(data: &[u8]) -> (r: Result<Layers, String>)
    ensures
        sliced_view(r) == ethernet_layers(data@),
{
    match SlicedPacket::from_ethernet(data) {
        Ok(p) => Ok(Layers {
            ipv4: match p.net {
                Some(NetSlice::Ipv4(s)) => Some(Ipv4Layer { source: Ipv4Address { bits: s.header().source_addr().into() }, destination: Ipv4Address { bits: s.header().destination_addr().into() } }),
                _ => None,
            },
            udp: match p.transport {
                Some(TransportSlice::Udp(u)) => Some(UdpLayer { source_port: u.source_port(), destination_port: u.destination_port(), payload: u.payload().to_vec() }),
                _ => None,
            },
        }),
        Err(e) => Err(e.to_string()),
    }
}

/// `etherparse::SlicedPacket::from_ip`, with what the filter reads copied out
/// of the slices: the addresses where the network layer is IPv4, the ports
/// and the payload where the transport layer is UDP. An error is handed on as
/// its text. The result depends on the frame's bytes alone.
#[verifier::external_body]
fn slice_ip(data: &[u8]) -> (r: Result<Layers, String>)
    ensures
        sliced_view(r) == ip_layers(data@),
{
    match SlicedPacket::from_ip(data) {
        Ok(p) => Ok(Layers {
            ipv4: match p.net {
                Some(NetSlice::Ipv4(s)) => Some(Ipv4Layer { source: Ipv4Address { bits: s.header().source_addr().into() }, destination: Ipv4Address { bits: s.header().destination_addr().into() } }),
                _ => None,
            },
            udp: match p.transport {
                Some(TransportSlice::Udp(u)) => Some(UdpLayer { source_port: u.source_port(), destination_port: u.destination_port(), payload: u.payload().to_vec() }),
                _ => None,
            },
        }),
        Err(e) => Err(e.to_string()),
    }
}

/// One end of a datagram.
#[derive(Clone, Copy, Debug, PartialEq, Eq, Structural)]
pub struct Endpoint {
    pub address: Ipv4Address,
    pub port: u16,
}

/// A datagram that passed the filter. The endpoints are context for whoever
/// reports on the payload; the decoding does not read them.
#[derive(Clone, Debug, PartialEq, Eq)]
pub struct Datagram {
    pub source: Endpoint,
    pub destination: Endpoint,
    pub payload: Vec<u8>,
}

/// The model of a [`Datagram`].
pub struct DatagramView {
    pub source: Endpoint,
    pub destination: Endpoint,
    pub payload: Seq<u8>,
}

impl View for Datagram {
    type V = DatagramView;

    open spec fn view(&self) -> DatagramView {
        DatagramView { source: self.source, destination: self.destination, payload: self.payload@ }
    }
}

/// What the filter makes of a frame.
#[derive(Clone, Debug, PartialEq, Eq)]
pub enum Selection {
    /// The frame is background traffic. Nothing is reported.
    Skip,
    /// The frame carries a datagram for the protocol's port.
    Deliver(Datagram),
}

/// The model of a [`Selection`].
pub enum SelectionView {
    Skip,
    Deliver(DatagramView),
}

impl View for Selection {
    type V = SelectionView;

    open spec fn view(&self) -> SelectionView {
        match self {
            Selection::Skip => SelectionView::Skip,
            Selection::Deliver(d) => SelectionView::Deliver(d@),
        }
    }
}

/// The filter's rule: a frame is delivered where it holds an IPv4 packet
/// with a UDP datagram to `port`, and skipped in every other case.
pub open spec fn selected(layers: LayersView, port: u16) -> SelectionView {
    match (layers.ipv4, layers.udp) {
        (Some(ip), Some(udp)) => if udp.destination_port == port {
            SelectionView::Deliver(
                DatagramView {
                    source: Endpoint { address: ip.source, port: udp.source_port },
                    destination: Endpoint { address: ip.destination, port: udp.destination_port },
                    payload: udp.payload,
                },
            )
        } else {
            SelectionView::Skip
        },
        _ => SelectionView::Skip,
    }
}

/// Applies the filter's rule to the layers found in a frame.
pub fn select(layers: Layers, port: u16) -> (r: Selection)
    ensures
        r@ == selected(layers@, port),
{
    let ip = match layers.ipv4 {
        Some(ip) => ip,
        None => {
            return Selection::Skip;
        },
    };
    match layers.udp {
        Some(udp) => {
            if udp.destination_port != port {
                return Selection::Skip;
            }
            Selection::Deliver(
                Datagram {
                    source: Endpoint { address: ip.source, port: udp.source_port },
                    destination: Endpoint { address: ip.destination, port: udp.destination_port },
                    payload: udp.payload,
                },
            )
        },
        None => Selection::Skip,
    }
}

/// A frame whose link or network framing is malformed or cut short.
#[derive(Clone, Debug, PartialEq, Eq)]
pub struct FrameError {
    /// The slicer's account of what is wrong.
    pub reason: String,
}

/// What slicing finds in a frame of the given link type.
pub open spec fn layers_of(link: Link, data: Seq<u8>) -> Result<LayersView, Seq<char>> {
    match link {
        Link::Ethernet => ethernet_layers(data),
        Link::RawIp => ip_layers(data),
    }
}

/// What the filter makes of what slicing found.
pub open spec fn filtered(sliced: Result<LayersView, Seq<char>>, port: u16) -> Result<
    SelectionView,
    Seq<char>,
> {
    match sliced {
        Ok(layers) => Ok(selected(layers, port)),
        Err(reason) => Err(reason),
    }
}

/// Slices a captured frame and applies the filter's rule to it. A frame that
/// cannot be sliced is an error for the caller to report; it is not a skip.
pub fn filter_frame(data: &[u8], link: Link, port: u16) -> (r: Result<Selection, FrameError>)
    ensures
        match filtered(layers_of(link, data@), port) {
            Ok(s) => r matches Ok(x) && x@ == s,
            Err(reason) => r matches Err(e) && e.reason@ == reason,
        },
{
    let sliced = match link {
        Link::Ethernet => slice_ethernet(data),
        Link::RawIp => slice_ip(data),
    };
    match sliced {
        Ok(layers) => Ok(select(layers, port)),
        Err(reason) => Err(FrameError { reason }),
    }
}

/// A frame that slices into an IPv4 packet with a UDP datagram to a port
/// other than `port` is skipped, whatever else it holds.
pub proof fn lemma_other_port_is_skipped(data: Seq<u8>, link: Link, port: u16)
    requires
        layers_of(link, data) matches Ok(layers) && layers.ipv4 is Some && (layers.udp matches Some(
            udp,
        ) && udp.destination_port != port),
    ensures
        filtered(layers_of(link, data), port) == Ok::<SelectionView, Seq<char>>(
            SelectionView::Skip,
        ),
{
}

/// Nothing is delivered but a UDP datagram to `port` inside an IPv4 packet,
/// and what is delivered is that datagram's payload, unchanged.
pub proof fn lemma_delivery(layers: LayersView, port: u16)
    ensures
        selected(layers, port) matches SelectionView::Deliver(d) ==> {
            &&& layers.ipv4 matches Some(ip)
            &&& layers.udp matches Some(udp)
            &&& udp.destination_port == port
            &&& d.destination.port == port
            &&& d.payload == udp.payload
            &&& d.source.address == ip.source
            &&& d.destination.address == ip.destination
        },
{
}

} // verus!
