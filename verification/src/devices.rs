//! Capture interfaces: how one is described in a listing, and which one is
//! chosen when the operator names none.

use ipnetwork::IpNetwork;
use vstd::arithmetic::power2::{lemma_pow2_strictly_increases, pow2};
use vstd::prelude::*;
use vstd::string::StringExecFns;

verus! {

/// An IP address of either family, as one number: the first octet is the
/// most significant byte.
#[derive(Clone, Copy, Debug, PartialEq, Eq, Structural)]
pub enum IpAddress {
    V4(u32),
    V6(u128),
}

impl IpAddress {
    /// The number of bits in an address of this family.
    pub open spec fn width(self) -> nat {
        match self {
            IpAddress::V4(_) => 32,
            IpAddress::V6(_) => 128,
        }
    }

    /// The address as a number.
    pub open spec fn bits(self) -> nat {
        match self {
            IpAddress::V4(b) => b as nat,
            IpAddress::V6(b) => b as nat,
        }
    }

    /// `self` is the netmask of a `prefix`-bit network: `prefix` one bits
    /// followed by zero bits.
    pub open spec fn is_netmask(self, prefix: nat) -> bool {
        &&& prefix <= self.width()
        &&& self.bits() == pow2(self.width()) - pow2((self.width() - prefix) as nat)
    }
}

/// A netmask stands for one prefix only.
pub proof fn lemma_netmask_has_one_prefix(mask: IpAddress, p: nat, q: nat)
    requires
        mask.is_netmask(p),
        mask.is_netmask(q),
    ensures
        p == q,
{
    let w = mask.width();
    if p < q {
        lemma_pow2_strictly_increases((w - q) as nat, (w - p) as nat);
    } else if q < p {
        lemma_pow2_strictly_increases((w - p) as nat, (w - q) as nat);
    }
}

/// An address of an interface, with its netmask where the interface has one.
#[derive(Clone, Copy, Debug, PartialEq, Eq, Structural)]
pub struct Address {
    pub addr: IpAddress,
    pub netmask: Option<IpAddress>,
}

/// An address together with the number of leading bits that name its network.
#[derive(Clone, Copy, Debug, PartialEq, Eq, Structural)]
pub struct Network {
    pub addr: IpAddress,
    pub prefix: u8,
}

impl Network {
    /// `self` is the network that `address` lies in: the same address, with
    /// the prefix that its netmask stands for, or zero where it has no
    /// netmask. The prefix is never longer than the address.
    pub open spec fn is_network_of(self, address: Address) -> bool {
        &&& self.addr == address.addr
        &&& match address.netmask {
            Some(mask) => mask.is_netmask(self.prefix as nat) && self.prefix
                <= address.addr.width(),
            None => self.prefix == 0,
        }
    }
}

/// `ipnetwork::IpNetwork::with_netmask`, the addresses handed over as
/// `std` addresses and the network handed back as its address and prefix. It
/// succeeds where the mask is some number of one bits followed by zero bits
/// and that number is no more than the width of `addr`; the prefix is that
/// number.
#[verifier::external_body]
fn network_with_netmask(addr: IpAddress, mask: IpAddress) -> (r: Option<Network>)
    ensures
        match r {
            Some(n) => n.is_network_of(Address { addr, netmask: Some(mask) }),
            None => forall|p: nat| mask.is_netmask(p) ==> p > addr.width(),
        },
{
    let netaddr = match addr {
        IpAddress::V4(b) => b.to_be_bytes().into(),
        IpAddress::V6(b) => b.to_be_bytes().into(),
    };
    let netmask = match mask {
        IpAddress::V4(b) => b.to_be_bytes().into(),
        IpAddress::V6(b) => b.to_be_bytes().into(),
    };
    match IpNetwork::with_netmask(netaddr, netmask) {
        Ok(n) => Some(Network { addr, prefix: n.prefix() }),
        Err(_) => None,
    }
}

/// A netmask that is not a run of one bits followed by zero bits, or that
/// stands for more bits than its address has.
#[derive(Clone, Copy, Debug, PartialEq, Eq, Structural)]
pub struct InvalidNetmask;

impl Address {
    /// Some network is the network of `self`: its netmask, if it has one, is
    /// a netmask.
    pub open spec fn has_network(self) -> bool {
        exists|n: Network| n.is_network_of(self)
    }

    /// The network that the address lies in.
    pub fn network(&self) -> (r: Result<Network, InvalidNetmask>)
        ensures
            match r {
                Ok(n) => n.is_network_of(*self),
                Err(_) => !self.has_network(),
            },
    {
        match self.netmask {
            Some(mask) => match network_with_netmask(self.addr, mask) {
                Some(n) => Ok(n),
                None => {
                    assert forall|n: Network| !n.is_network_of(*self) by {
                        if mask.is_netmask(n.prefix as nat) {
                        }
                    }
                    Err(InvalidNetmask)
                },
            },
            None => Ok(Network { addr: self.addr, prefix: 0 }),
        }
    }
}

/// A capture interface as the capture source reports it.
#[derive(Clone, Debug, PartialEq, Eq)]
pub struct Interface {
    pub name: String,
    pub desc: Option<String>,
    pub addresses: Vec<Address>,
}

/// A capture interface as a listing shows it.
#[derive(Clone, Debug, PartialEq, Eq)]
pub struct Device {
    pub name: String,
    /// The interface's description, empty where it has none.
    pub desc: String,
    /// The network of each of the interface's addresses, in their order.
    pub addrs: Vec<Network>,
}

impl Device {
    /// `self` is the listing entry of `interface`.
    pub open spec fn describes(self, interface: Interface) -> bool {
        &&& self.name@ == interface.name@
        &&& self.desc@ == match interface.desc {
            Some(d) => d@,
            None => Seq::<char>::empty(),
        }
        &&& self.addrs@.len() == interface.addresses@.len()
        &&& forall|k: int|
            0 <= k < self.addrs@.len() ==> (#[trigger] self.addrs@[k]).is_network_of(
                interface.addresses@[k],
            )
    }

    /// The listing entry of an interface. There is none where one of its
    /// netmasks is invalid.
    pub fn describe(interface: Interface) -> (r: Result<Device, InvalidNetmask>)
        ensures
            match r {
                Ok(d) => d.describes(interface),
                Err(_) => exists|k: int|
                    0 <= k < interface.addresses@.len()
                        && !(#[trigger] interface.addresses@[k]).has_network(),
            },
    {
        let mut addrs: Vec<Network> = Vec::new();
        let mut k: usize = 0;
        while k < interface.addresses.len()
            invariant
                k <= interface.addresses@.len(),
                addrs@.len() == k,
                forall|j: int|
                    0 <= j < k ==> (#[trigger] addrs@[j]).is_network_of(interface.addresses@[j]),
            decreases interface.addresses@.len() - k,
        {
            match interface.addresses[k].network() {
                Ok(n) => addrs.push(n),
                Err(e) => {
                    return Err(e);
                },
            }
            k = k + 1;
        }
        let desc = match interface.desc {
            Some(d) => d,
            None => String::new(),
        };
        Ok(Device { name: interface.name, desc, addrs })
    }
}

/// The items of a listing cell, one after the other with `", "` between
/// neighbours.
pub open spec fn comma_joined(items: Seq<Seq<char>>) -> Seq<char>
    decreases items.len(),
{
    if items.len() == 0 {
        Seq::empty()
    } else if items.len() == 1 {
        items[0]
    } else {
        comma_joined(items.drop_last()) + seq![',', ' '] + items.last()
    }
}

/// The texts of `value`, as a sequence of models.
pub open spec fn texts(value: Seq<String>) -> Seq<Seq<char>> {
    Seq::new(value.len(), |i: int| value[i]@)
}

/// Joins rendered values into one listing cell, with `", "` between them.
pub fn comma_split(value: &[String]) -> (r: String)
    ensures
        r@ == comma_joined(texts(value@)),
{
    let mut out = String::new();
    let mut i: usize = 0;
    while i < value.len()
        invariant
            i <= value@.len(),
            out@ == comma_joined(texts(value@).take(i as int)),
        decreases value@.len() - i,
    {
        let ghost before = texts(value@).take(i as int);
        let ghost after = texts(value@).take(i + 1);
        assert(after.drop_last() == before);
        assert(after.last() == value@[i as int]@);
        if i > 0 {
            proof {
                reveal_strlit(", ");
            }
            assert(", "@ == seq![',', ' ']);
            out.append(", ");
        }
        out.append(value[i].as_str());
        i = i + 1;
    }
    assert(texts(value@).take(value@.len() as int) == texts(value@));
    out
}

/// The network that the cabinets share: 192.168.139.0.
pub const CABINET_NETWORK: u32 = 0xC0A8_8B00;

/// The netmask of the cabinets' network: 255.255.255.0.
pub const CABINET_NETMASK: u32 = 0xFFFF_FF00;

impl Address {
    /// `self` is an address on the cabinets' network: an IPv4 address whose
    /// first three octets are those of the network, with the network's own
    /// netmask.
    pub open spec fn on_cabinet_network(self) -> bool {
        &&& self.addr matches IpAddress::V4(bits) && bits / 0x100 == 0xC0A8_8B00u32 / 0x100
        &&& self.netmask == Some(IpAddress::V4(0xFFFF_FF00u32))
    }

    /// Whether the address is on the cabinets' network.
    pub fn is_on_cabinet_network(&self) -> (r: bool)
        ensures
            r == self.on_cabinet_network(),
    {
        let inside = match self.addr {
            IpAddress::V4(bits) => bits / 0x100 == CABINET_NETWORK / 0x100,
            IpAddress::V6(_) => false,
        };
        let masked = match self.netmask {
            Some(IpAddress::V4(mask)) => mask == CABINET_NETMASK,
            _ => false,
        };
        inside && masked
    }
}

impl Interface {
    /// One of the interface's addresses is on the cabinets' network.
    pub open spec fn reaches_cabinets(self) -> bool {
        exists|k: int|
            0 <= k < self.addresses@.len() && (#[trigger] self.addresses@[k]).on_cabinet_network()
    }

    /// Whether one of the interface's addresses is on the cabinets' network.
    pub fn is_reaching_cabinets(&self) -> (r: bool)
        ensures
            r == self.reaches_cabinets(),
    {
        let mut k: usize = 0;
        while k < self.addresses.len()
            invariant
                k <= self.addresses@.len(),
                forall|j: int| 0 <= j < k ==> !(#[trigger] self.addresses@[j]).on_cabinet_network(),
            decreases self.addresses@.len() - k,
        {
            if self.addresses[k].is_on_cabinet_network() {
                return true;
            }
            k = k + 1;
        }
        false
    }
}

/// Chooses the interface to capture on when the operator names none: the
/// first one, in the order given, with an address on the cabinets' network.
pub fn pick_interface(interfaces: &[Interface]) -> (r: Option<usize>)
    ensures
        match r {
            Some(i) => {
                &&& i < interfaces@.len()
                &&& interfaces@[i as int].reaches_cabinets()
                &&& forall|j: int| 0 <= j < i ==> !(#[trigger] interfaces@[j]).reaches_cabinets()
            },
            None => forall|j: int|
                0 <= j < interfaces@.len() ==> !(#[trigger] interfaces@[j]).reaches_cabinets(),
        },
{
    let mut i: usize = 0;
    while i < interfaces.len()
        invariant
            i <= interfaces@.len(),
            forall|j: int| 0 <= j < i ==> !(#[trigger] interfaces@[j]).reaches_cabinets(),
        decreases interfaces@.len() - i,
    {
        if interfaces[i].is_reaching_cabinets() {
            return Some(i);
        }
        i = i + 1;
    }
    None
}

} // verus!
