use vstd::prelude::*;

use crate::error::{Error, Result};

verus! {

/// The length of an IPv4 header without options.
pub const IPV4_HEADER_LEN: usize = 20;

/// A four-octet IPv4 address.
#[derive(Debug, Eq, Clone, Copy)]
pub struct Ipv4Address(pub [u8; 4]);

impl PartialEq for Ipv4Address {
    fn eq(&self, other: &Ipv4Address) -> (equal: bool) {
        let equal = self.0[0] == other.0[0] && self.0[1] == other.0[1] && self.0[2] == other.0[2]
            && self.0[3] == other.0[3];
        assert(equal ==> self.0 =~= other.0);
        equal
    }
}

impl vstd::std_specs::cmp::PartialEqSpecImpl for Ipv4Address {
    open spec fn obeys_eq_spec() -> bool {
        true
    }

    open spec fn eq_spec(&self, other: &Ipv4Address) -> bool {
        *self == *other
    }
}

impl Ipv4Address {
    /// Whether this is the address `0.0.0.0`.
    pub open spec fn unspecified(self) -> bool {
        self.0@ == seq![0u8, 0u8, 0u8, 0u8]
    }

    /// Query whether the address is `0.0.0.0`.
    pub fn is_unspecified(&self) -> (yes: bool)
        ensures
            yes == self.unspecified(),
    {
        let yes = self.0[0] == 0 && self.0[1] == 0 && self.0[2] == 0 && self.0[3] == 0;
        assert(yes ==> self.0@ =~= seq![0u8, 0u8, 0u8, 0u8]);
        yes
    }
}

/// An internetworking address.
#[derive(Debug, Eq, Clone, Copy)]
pub enum IpAddress {
    /// An address of no particular family: a placeholder for one to be chosen later.
    Unspecified,
    /// An IPv4 address.
    Ipv4(Ipv4Address),
}

impl PartialEq for IpAddress {
    fn eq(&self, other: &IpAddress) -> (equal: bool) {
        match (self, other) {
            (IpAddress::Unspecified, IpAddress::Unspecified) => true,
            (IpAddress::Ipv4(this), IpAddress::Ipv4(that)) => *this == *that,
            _ => false,
        }
    }
}

impl vstd::std_specs::cmp::PartialEqSpecImpl for IpAddress {
    open spec fn obeys_eq_spec() -> bool {
        true
    }

    open spec fn eq_spec(&self, other: &IpAddress) -> bool {
        *self == *other
    }
}

impl Default for IpAddress {
    fn default() -> (addr: IpAddress)
        ensures
            addr == IpAddress::Unspecified,
    {
        IpAddress::Unspecified
    }
}

impl IpAddress {
    /// Create an IPv4 address from its four octets.
    pub fn v4(a0: u8, a1: u8, a2: u8, a3: u8) -> (addr: IpAddress)
        ensures
            addr == IpAddress::Ipv4(Ipv4Address([a0, a1, a2, a3])),
    {
        IpAddress::Ipv4(Ipv4Address([a0, a1, a2, a3]))
    }

    /// Whether the address names no host.
    pub open spec fn unspecified(self) -> bool {
        match self {
            IpAddress::Unspecified => true,
            IpAddress::Ipv4(addr) => addr.unspecified(),
        }
    }

    /// Query whether the address names no host: it has no family, or is the all-zero
    /// address of its family.
    pub fn is_unspecified(&self) -> (yes: bool)
        ensures
            yes == self.unspecified(),
    {
        match *self {
            IpAddress::Unspecified => true,
            IpAddress::Ipv4(addr) => addr.is_unspecified(),
        }
    }

    /// The unspecified address of the same family.
    pub open spec fn wildcard(self) -> IpAddress {
        match self {
            IpAddress::Unspecified => IpAddress::Unspecified,
            IpAddress::Ipv4(_) => IpAddress::Ipv4(Ipv4Address([0u8, 0u8, 0u8, 0u8])),
        }
    }

    /// Return the unspecified address of the same family.
    pub fn to_unspecified(&self) -> (addr: IpAddress)
        ensures
            addr == self.wildcard(),
    {
        match *self {
            IpAddress::Unspecified => IpAddress::Unspecified,
            IpAddress::Ipv4(_) => IpAddress::v4(0, 0, 0, 0),
        }
    }
}

/// An address and a port: one end of a connection.
#[derive(Debug, PartialEq, Eq, Clone, Copy)]
pub struct IpEndpoint {
    pub addr: IpAddress,
    pub port: u16,
}

impl IpEndpoint {
    /// The endpoint with no address and no port.
    pub open spec fn none() -> IpEndpoint {
        IpEndpoint { addr: IpAddress::Unspecified, port: 0 }
    }

    /// Create an endpoint from an address and a port.
    pub fn new(addr: IpAddress, port: u16) -> (endpoint: IpEndpoint)
        ensures
            endpoint == (IpEndpoint { addr, port }),
    {
        IpEndpoint { addr, port }
    }

    /// Whether both the address and the port are given.
    pub open spec fn specified(self) -> bool {
        !self.addr.unspecified() && self.port != 0
    }

    /// Query whether the endpoint has a specified address and port.
    pub fn is_specified(&self) -> (yes: bool)
        ensures
            yes == self.specified(),
    {
        !self.addr.is_unspecified() && self.port != 0
    }
}

impl Default for IpEndpoint {
    fn default() -> (endpoint: IpEndpoint)
        ensures
            endpoint == IpEndpoint::none(),
    {
        IpEndpoint { addr: IpAddress::Unspecified, port: 0 }
    }
}

impl From<u16> for IpEndpoint {
    fn from(port: u16) -> (endpoint: IpEndpoint) {
        IpEndpoint { addr: IpAddress::Unspecified, port }
    }
}

impl vstd::std_specs::convert::FromSpecImpl<u16> for IpEndpoint {
    open spec fn obeys_from_spec() -> bool {
        true
    }

    open spec fn from_spec(port: u16) -> IpEndpoint {
        IpEndpoint { addr: IpAddress::Unspecified, port }
    }
}

impl From<(IpAddress, u16)> for IpEndpoint {
    fn from(pair: (IpAddress, u16)) -> (endpoint: IpEndpoint) {
        IpEndpoint { addr: pair.0, port: pair.1 }
    }
}

impl vstd::std_specs::convert::FromSpecImpl<(IpAddress, u16)> for IpEndpoint {
    open spec fn obeys_from_spec() -> bool {
        true
    }

    open spec fn from_spec(pair: (IpAddress, u16)) -> IpEndpoint {
        IpEndpoint { addr: pair.0, port: pair.1 }
    }
}

/// The protocol carried in an IP packet.
#[derive(Debug, PartialEq, Eq, Clone, Copy, Structural)]
pub enum IpProtocol {
    Icmp,
    Tcp,
    Udp,
    Unknown(u8),
}

/// A high-level representation of an IPv4 packet header.
#[derive(Debug, PartialEq, Eq, Clone, Copy)]
pub struct Ipv4Repr {
    pub src_addr: Ipv4Address,
    pub dst_addr: Ipv4Address,
    pub protocol: IpProtocol,
    pub payload_len: usize,
}

/// A high-level representation of an IP packet header, of any family.
#[derive(Debug, PartialEq, Eq, Clone, Copy)]
pub enum IpRepr {
    /// A header whose family and source address are still open.
    Unspecified {
        src_addr: IpAddress,
        dst_addr: IpAddress,
        protocol: IpProtocol,
        payload_len: usize,
    },
    /// An IPv4 header.
    Ipv4(Ipv4Repr),
}

/// The first IPv4 address of a sequence, if it holds any.
pub open spec fn first_ipv4(addrs: Seq<IpAddress>) -> Option<Ipv4Address>
    decreases addrs.len(),
{
    if addrs.len() == 0 {
        None
    } else {
        match addrs[0] {
            IpAddress::Ipv4(addr) => Some(addr),
            IpAddress::Unspecified => first_ipv4(addrs.skip(1)),
        }
    }
}

/// Find the first IPv4 address of a slice.
fn find_ipv4(addrs: &[IpAddress]) -> (found: Option<Ipv4Address>)
    ensures
        found == first_ipv4(addrs@),
{
    let mut i: usize = 0;
    assert(addrs@.skip(0) =~= addrs@);
    while i < addrs.len()
        invariant
            i <= addrs@.len(),
            first_ipv4(addrs@) == first_ipv4(addrs@.skip(i as int)),
        decreases addrs@.len() - i,
    {
        match addrs[i] {
            IpAddress::Ipv4(addr) => {
                return Some(addr);
            },
            IpAddress::Unspecified => {
                assert(addrs@.skip(i as int).skip(1) =~= addrs@.skip(i + 1));
                i = i + 1;
            },
        }
    }
    None
}

impl IpRepr {
    /// The source address.
    pub open spec fn src(self) -> IpAddress {
        match self {
            IpRepr::Unspecified { src_addr, .. } => src_addr,
            IpRepr::Ipv4(repr) => IpAddress::Ipv4(repr.src_addr),
        }
    }

    /// The destination address.
    pub open spec fn dst(self) -> IpAddress {
        match self {
            IpRepr::Unspecified { dst_addr, .. } => dst_addr,
            IpRepr::Ipv4(repr) => IpAddress::Ipv4(repr.dst_addr),
        }
    }

    /// The same header around a payload of another length.
    pub open spec fn with_payload_len(self, len: usize) -> IpRepr {
        match self {
            IpRepr::Unspecified { src_addr, dst_addr, protocol, .. } => IpRepr::Unspecified {
                src_addr,
                dst_addr,
                protocol,
                payload_len: len,
            },
            IpRepr::Ipv4(repr) => IpRepr::Ipv4(Ipv4Repr { payload_len: len, ..repr }),
        }
    }

    /// Return the source address.
    pub fn src_addr(&self) -> (addr: IpAddress)
        ensures
            addr == self.src(),
    {
        match *self {
            IpRepr::Unspecified { src_addr, .. } => src_addr,
            IpRepr::Ipv4(repr) => IpAddress::Ipv4(repr.src_addr),
        }
    }

    /// Return the destination address.
    pub fn dst_addr(&self) -> (addr: IpAddress)
        ensures
            addr == self.dst(),
    {
        match *self {
            IpRepr::Unspecified { dst_addr, .. } => dst_addr,
            IpRepr::Ipv4(repr) => IpAddress::Ipv4(repr.dst_addr),
        }
    }

    /// Return the protocol.
    pub fn protocol(&self) -> (found: IpProtocol)
        ensures
            found == (match *self {
                IpRepr::Unspecified { protocol, .. } => protocol,
                IpRepr::Ipv4(repr) => repr.protocol,
            }),
    {
        match *self {
            IpRepr::Unspecified { protocol, .. } => protocol,
            IpRepr::Ipv4(repr) => repr.protocol,
        }
    }

    /// Return the payload length.
    pub fn payload_len(&self) -> (len: usize)
        ensures
            *self == self.with_payload_len(len),
    {
        match *self {
            IpRepr::Unspecified { payload_len, .. } => payload_len,
            IpRepr::Ipv4(repr) => repr.payload_len,
        }
    }

    /// Set the payload length.
    pub fn set_payload_len(&mut self, len: usize)
        ensures
            *final(self) == old(self).with_payload_len(len),
    {
        *self = match *self {
            IpRepr::Unspecified { src_addr, dst_addr, protocol, .. } => IpRepr::Unspecified {
                src_addr,
                dst_addr,
                protocol,
                payload_len: len,
            },
            IpRepr::Ipv4(repr) => IpRepr::Ipv4(
                Ipv4Repr {
                    src_addr: repr.src_addr,
                    dst_addr: repr.dst_addr,
                    protocol: repr.protocol,
                    payload_len: len,
                },
            ),
        };
    }

    /// Return the length of the emitted header. Only a header with a family has one.
    pub fn buffer_len(&self) -> (len: usize)
        requires
            self is Ipv4,
        ensures
            len == IPV4_HEADER_LEN,
    {
        IPV4_HEADER_LEN
    }

    /// What [`lower`](IpRepr::lower) makes of a header whose destination has a family.
    pub open spec fn lowered(self, fallback: Seq<IpAddress>) -> Result<IpRepr> {
        match self {
            IpRepr::Unspecified { src_addr, dst_addr, protocol, payload_len } => {
                let src = match src_addr {
                    IpAddress::Ipv4(src) => Some(src),
                    IpAddress::Unspecified => first_ipv4(fallback),
                };
                match src {
                    Some(src) => Ok(
                        IpRepr::Ipv4(
                            Ipv4Repr {
                                src_addr: src,
                                dst_addr: dst_addr->Ipv4_0,
                                protocol,
                                payload_len,
                            },
                        ),
                    ),
                    None => Err(Error::Unaddressable),
                }
            },
            IpRepr::Ipv4(repr) => if repr.src_addr.unspecified() {
                match first_ipv4(fallback) {
                    Some(src) => Ok(IpRepr::Ipv4(Ipv4Repr { src_addr: src, ..repr })),
                    None => Err(Error::Unaddressable),
                }
            } else {
                Ok(self)
            },
        }
    }

    /// Turn the header into one of a definite family.
    ///
    /// A source address that is missing is taken from the fallback addresses; the result is
    /// `Err(Error::Unaddressable)` if none of them fits. The destination must have a family.
    pub fn lower(&self, fallback_src_addrs: &[IpAddress]) -> (lowered: Result<IpRepr>)
        requires
            !(self.dst() is Unspecified),
        ensures
            lowered == self.lowered(fallback_src_addrs@),
    {
        match *self {
            IpRepr::Unspecified { src_addr, dst_addr, protocol, payload_len } => {
                let src = match src_addr {
                    IpAddress::Ipv4(src) => Some(src),
                    IpAddress::Unspecified => find_ipv4(fallback_src_addrs),
                };
                match (src, dst_addr) {
                    (Some(src_addr), IpAddress::Ipv4(dst_addr)) => Ok(
                        IpRepr::Ipv4(Ipv4Repr { src_addr, dst_addr, protocol, payload_len }),
                    ),
                    _ => Err(Error::Unaddressable),
                }
            },
            IpRepr::Ipv4(repr) => if repr.src_addr.is_unspecified() {
                match find_ipv4(fallback_src_addrs) {
                    Some(src_addr) => Ok(
                        IpRepr::Ipv4(
                            Ipv4Repr {
                                src_addr,
                                dst_addr: repr.dst_addr,
                                protocol: repr.protocol,
                                payload_len: repr.payload_len,
                            },
                        ),
                    ),
                    None => Err(Error::Unaddressable),
                }
            } else {
                Ok(*self)
            },
        }
    }
}

/// An address names no host exactly if none of its octets says anything; turned into a wildcard, it
/// names none, and keeps its family.
pub proof fn law_unspecified_addresses(addr: IpAddress, port: u16)
    ensures
        addr.unspecified() <==> match addr {
            IpAddress::Unspecified => true,
            IpAddress::Ipv4(v4) => v4.0@[0] == 0 && v4.0@[1] == 0 && v4.0@[2] == 0 && v4.0@[3] == 0,
        },
        addr matches IpAddress::Ipv4(v4) ==> (v4.unspecified() <==> addr.unspecified()),
        addr.wildcard().unspecified(),
        addr.wildcard() is Ipv4 <==> addr is Ipv4,
        (IpEndpoint { addr, port }).specified() <==> !addr.unspecified() && port != 0,
        IpEndpoint::none().addr is Unspecified,
        IpEndpoint::none().port == 0,
{
    if let IpAddress::Ipv4(v4) = addr {
        if v4.0@[0] == 0 && v4.0@[1] == 0 && v4.0@[2] == 0 && v4.0@[3] == 0 {
            assert(v4.0@ =~= seq![0u8, 0u8, 0u8, 0u8]);
        }
    }
    assert([0u8, 0u8, 0u8, 0u8]@ =~= seq![0u8, 0u8, 0u8, 0u8]);
}

/// Addresses are equal if all of their octets are, and a port alone stands for an endpoint without
/// an address.
pub proof fn law_addresses_are_told_apart(
    this: Ipv4Address,
    that: Ipv4Address,
    addr: IpAddress,
    other: IpAddress,
    port: u16,
)
    ensures
        vstd::std_specs::cmp::PartialEqSpec::eq_spec(&this, &that) <==> this == that,
        vstd::std_specs::cmp::PartialEqSpec::eq_spec(&addr, &other) <==> addr == other,
        ({
            let endpoint: IpEndpoint = vstd::std_specs::convert::FromSpec::from_spec(port);
            endpoint.addr is Unspecified && endpoint.port == port
        }),
        ({
            let endpoint: IpEndpoint = vstd::std_specs::convert::FromSpec::from_spec((addr, port));
            endpoint.addr == addr && endpoint.port == port
        }),
{
}

/// The first IPv4 address of a sequence has none before it; there is none only if all addresses
/// lack a family.
pub proof fn law_first_address(addrs: Seq<IpAddress>)
    ensures
        match first_ipv4(addrs) {
            Some(v4) => exists|i: int|
                {
                    &&& 0 <= i < addrs.len()
                    &&& #[trigger] addrs[i] == IpAddress::Ipv4(v4)
                    &&& forall|j: int| 0 <= j < i ==> #[trigger] addrs[j] is Unspecified
                },
            None => forall|i: int| 0 <= i < addrs.len() ==> #[trigger] addrs[i] is Unspecified,
        },
    decreases addrs.len(),
{
    if addrs.len() > 0 && addrs[0] is Unspecified {
        let rest = addrs.skip(1);
        law_first_address(rest);
        match first_ipv4(rest) {
            Some(v4) => {
                let i = choose|i: int|
                    {
                        &&& 0 <= i < rest.len()
                        &&& #[trigger] rest[i] == IpAddress::Ipv4(v4)
                        &&& forall|j: int| 0 <= j < i ==> #[trigger] rest[j] is Unspecified
                    };
                assert(addrs[i + 1] == IpAddress::Ipv4(v4));
                assert forall|j: int| 0 <= j < i + 1 implies #[trigger] addrs[j] is Unspecified by {
                    if j > 0 {
                        assert(rest[j - 1] is Unspecified);
                    }
                }
            },
            None => {
                assert forall|i: int| 0 <= i < addrs.len() implies #[trigger] addrs[
                    i
                ] is Unspecified by {
                    if i > 0 {
                        assert(rest[i - 1] is Unspecified);
                    }
                }
            },
        }
    }
}

/// Lowering a header keeps all that it says, and gives it a source address where it has none: the
/// first one to fall back on. It fails only if there is none.
pub proof fn law_lowering_keeps(ip: IpRepr, fallback: Seq<IpAddress>)
    requires
        ip.dst() is Ipv4,
    ensures
        ({
            let lacks_source = match ip {
                IpRepr::Unspecified { src_addr, .. } => src_addr is Unspecified,
                IpRepr::Ipv4(repr) => IpAddress::Ipv4(repr.src_addr).unspecified(),
            };
            &&& ip.lowered(fallback) is Err <==> lacks_source && first_ipv4(fallback) is None
            &&& ip.lowered(fallback) matches Err(error) ==> error == Error::Unaddressable
            &&& ip.lowered(fallback) matches Ok(lowered) ==> {
                &&& lowered matches IpRepr::Ipv4(repr) && {
                    &&& IpAddress::Ipv4(repr.dst_addr) == ip.dst()
                    &&& !lacks_source ==> IpAddress::Ipv4(repr.src_addr) == ip.src()
                    &&& lacks_source ==> first_ipv4(fallback) == Some(repr.src_addr)
                    &&& match ip {
                        IpRepr::Unspecified { protocol, payload_len, .. } => repr.protocol
                            == protocol && repr.payload_len == payload_len,
                        IpRepr::Ipv4(given) => repr.protocol == given.protocol
                            && repr.payload_len == given.payload_len,
                    }
                }
            }
        }),
{
}

/// A header with another payload length differs in nothing else.
pub proof fn law_headers_change_length(ip: IpRepr, len: usize)
    ensures
        match ip {
            IpRepr::Unspecified { src_addr, dst_addr, protocol, .. } => {
                &&& ip.src() == src_addr
                &&& ip.dst() == dst_addr
                &&& ip.with_payload_len(len) == (IpRepr::Unspecified {
                    src_addr,
                    dst_addr,
                    protocol,
                    payload_len: len,
                })
            },
            IpRepr::Ipv4(repr) => {
                &&& ip.src() == IpAddress::Ipv4(repr.src_addr)
                &&& ip.dst() == IpAddress::Ipv4(repr.dst_addr)
                &&& ip.with_payload_len(len) matches IpRepr::Ipv4(changed) && {
                    &&& changed.src_addr == repr.src_addr
                    &&& changed.dst_addr == repr.dst_addr
                    &&& changed.protocol == repr.protocol
                    &&& changed.payload_len == len
                }
            },
        },
{
}

} // verus!
