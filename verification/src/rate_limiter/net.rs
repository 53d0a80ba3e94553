//! IP addresses and IP networks as plain integers, with the prefix arithmetic
//! that the rate limiter uses to map an address to its bucket.
use vstd::prelude::*;

verus! {

/// An IP address: the 32 bits of an IPv4 address or the 128 bits of an IPv6 address.
#[derive(Debug, Clone, Copy, PartialEq, Eq, Hash, Structural)]
pub enum IpAddress {
    V4(u32),
    V6(u128),
}

/// The largest prefix length of the address family of `ip`.
pub open spec fn family_width(ip: IpAddress) -> u8 {
    match ip {
        IpAddress::V4(_) => 32,
        IpAddress::V6(_) => 128,
    }
}

/// Whether the 128 bits are an IPv4-mapped IPv6 address (`::ffff:a.b.c.d`).
pub open spec fn is_ipv4_mapped(bits: u128) -> bool {
    bits >> 32u128 == 0xffffu128
}

/// The low 32 bits of an IPv6 address.
pub open spec fn low_32_bits(bits: u128) -> u32 {
    (bits & 0xffff_ffffu128) as u32
}

/// IPv4 network mask with `prefix_len` leading ones.
pub open spec fn netmask_v4(prefix_len: u8) -> u32 {
    if prefix_len == 0 {
        0
    } else if prefix_len >= 32 {
        u32::MAX
    } else {
        u32::MAX << ((32 - prefix_len) as u32)
    }
}

/// IPv4 host mask: the complement of the network mask.
pub open spec fn hostmask_v4(prefix_len: u8) -> u32 {
    if prefix_len >= 32 {
        0
    } else {
        u32::MAX >> (prefix_len as u32)
    }
}

/// IPv6 network mask with `prefix_len` leading ones.
pub open spec fn netmask_v6(prefix_len: u8) -> u128 {
    if prefix_len == 0 {
        0
    } else if prefix_len >= 128 {
        u128::MAX
    } else {
        u128::MAX << ((128 - prefix_len) as u128)
    }
}

/// IPv6 host mask: the complement of the network mask.
pub open spec fn hostmask_v6(prefix_len: u8) -> u128 {
    if prefix_len >= 128 {
        0
    } else {
        u128::MAX >> (prefix_len as u128)
    }
}

impl IpAddress {
    /// An IPv4-mapped IPv6 address becomes the IPv4 address it carries;
    /// any other address is unchanged.
    pub open spec fn spec_to_canonical(self) -> IpAddress {
        match self {
            IpAddress::V6(bits) => if is_ipv4_mapped(bits) {
                IpAddress::V4(low_32_bits(bits))
            } else {
                self
            },
            IpAddress::V4(_) => self,
        }
    }

    pub fn to_canonical(&self) -> (r: IpAddress)
        ensures
            r == self.spec_to_canonical(),
    {
        match *self {
            IpAddress::V6(bits) => {
                if bits >> 32u128 == 0xffffu128 {
                    IpAddress::V4((bits & 0xffff_ffffu128) as u32)
                } else {
                    *self
                }
            },
            IpAddress::V4(_) => *self,
        }
    }

    pub fn max_prefix_len(&self) -> (r: u8)
        ensures
            r == family_width(*self),
    {
        match self {
            IpAddress::V4(_) => 32,
            IpAddress::V6(_) => 128,
        }
    }

    pub fn is_ipv4(&self) -> (r: bool)
        ensures
            r == (*self is V4),
    {
        match self {
            IpAddress::V4(_) => true,
            IpAddress::V6(_) => false,
        }
    }
}

/// An IP network: an address together with a prefix length that fits its family.
#[derive(Debug, Clone, Copy, PartialEq, Eq, Hash)]
pub struct IpNetwork {
    addr: IpAddress,
    prefix_len: u8,
}

impl IpNetwork {
    #[verifier::type_invariant]
    spec fn prefix_fits(self) -> bool {
        self.prefix_len <= family_width(self.addr)
    }

    pub closed spec fn spec_addr(self) -> IpAddress {
        self.addr
    }

    pub closed spec fn spec_prefix_len(self) -> u8 {
        self.prefix_len
    }

    /// The network built from an address and a prefix length, if the
    /// prefix length fits the address family.
    pub open spec fn spec_new(addr: IpAddress, prefix_len: u8) -> Option<IpNetwork> {
        if prefix_len <= family_width(addr) {
            Some(IpNetwork::spec_mk(addr, prefix_len))
        } else {
            None
        }
    }

    /// The network with the given fields (meaningful when the prefix fits).
    pub closed spec fn spec_mk(addr: IpAddress, prefix_len: u8) -> IpNetwork {
        IpNetwork { addr, prefix_len }
    }

    pub proof fn lemma_mk_fields(addr: IpAddress, prefix_len: u8)
        ensures
            #[trigger] IpNetwork::spec_mk(addr, prefix_len).spec_addr() == addr,
            IpNetwork::spec_mk(addr, prefix_len).spec_prefix_len() == prefix_len,
    {
    }

    pub proof fn lemma_fields_determine(a: IpNetwork, b: IpNetwork)
        requires
            a.spec_addr() == b.spec_addr(),
            a.spec_prefix_len() == b.spec_prefix_len(),
        ensures
            a == b,
    {
    }

    /// Well-formedness that every network value carries.
    pub open spec fn wf(self) -> bool {
        self.spec_prefix_len() <= family_width(self.spec_addr())
    }

    /// The network address: the address with its host bits cleared.
    pub open spec fn spec_network(self) -> IpAddress {
        match self.spec_addr() {
            IpAddress::V4(a) => IpAddress::V4(a & netmask_v4(self.spec_prefix_len())),
            IpAddress::V6(a) => IpAddress::V6(a & netmask_v6(self.spec_prefix_len())),
        }
    }

    /// The broadcast address: the address with its host bits set.
    pub open spec fn spec_broadcast(self) -> IpAddress {
        match self.spec_addr() {
            IpAddress::V4(a) => IpAddress::V4(a | hostmask_v4(self.spec_prefix_len())),
            IpAddress::V6(a) => IpAddress::V6(a | hostmask_v6(self.spec_prefix_len())),
        }
    }

    /// The same network with its host bits cleared.
    pub open spec fn spec_trunc(self) -> IpNetwork {
        IpNetwork::spec_mk(self.spec_network(), self.spec_prefix_len())
    }

    /// `self` contains `other` when both are of the same family and the
    /// address range of `other` lies within the address range of `self`.
    pub open spec fn spec_contains(self, other: IpNetwork) -> bool {
        match (self.spec_network(), other.spec_network(), self.spec_broadcast(), other.spec_broadcast()) {
            (IpAddress::V4(n1), IpAddress::V4(n2), IpAddress::V4(b1), IpAddress::V4(b2)) =>
                n1 <= n2 && b2 <= b1,
            (IpAddress::V6(n1), IpAddress::V6(n2), IpAddress::V6(b1), IpAddress::V6(b2)) =>
                n1 <= n2 && b2 <= b1,
            _ => false,
        }
    }

    /// A host network: the whole address with the longest prefix of its family.
    pub open spec fn spec_host(ip: IpAddress) -> IpNetwork {
        IpNetwork::spec_mk(ip, family_width(ip))
    }

    /// Whether the network is a single host (`/32` or `/128`).
    pub open spec fn spec_is_host(self) -> bool {
        self.spec_prefix_len() == family_width(self.spec_addr())
    }

    pub fn new(addr: IpAddress, prefix_len: u8) -> (r: Option<IpNetwork>)
        ensures
            r == IpNetwork::spec_new(addr, prefix_len),
    {
        if prefix_len <= addr.max_prefix_len() {
            Some(IpNetwork { addr, prefix_len })
        } else {
            None
        }
    }

    /// The host network of an address.
    pub fn from_addr(ip: IpAddress) -> (r: IpNetwork)
        ensures
            r == IpNetwork::spec_host(ip),
            r.wf(),
    {
        let prefix_len = ip.max_prefix_len();
        IpNetwork { addr: ip, prefix_len }
    }

    pub fn addr(&self) -> (r: IpAddress)
        ensures
            r == self.spec_addr(),
    {
        self.addr
    }

    pub fn prefix_len(&self) -> (r: u8)
        ensures
            r == self.spec_prefix_len(),
            r <= family_width(self.spec_addr()),
    {
        proof {
            use_type_invariant(self);
        }
        self.prefix_len
    }

    pub fn max_prefix_len(&self) -> (r: u8)
        ensures
            r == family_width(self.spec_addr()),
    {
        self.addr.max_prefix_len()
    }

    pub fn network(&self) -> (r: IpAddress)
        ensures
            r == self.spec_network(),
    {
        proof {
            use_type_invariant(self);
        }
        match self.addr {
            IpAddress::V4(a) => IpAddress::V4(a & netmask_v4_exec(self.prefix_len)),
            IpAddress::V6(a) => IpAddress::V6(a & netmask_v6_exec(self.prefix_len)),
        }
    }

    pub fn broadcast(&self) -> (r: IpAddress)
        ensures
            r == self.spec_broadcast(),
    {
        match self.addr {
            IpAddress::V4(a) => IpAddress::V4(a | hostmask_v4_exec(self.prefix_len)),
            IpAddress::V6(a) => IpAddress::V6(a | hostmask_v6_exec(self.prefix_len)),
        }
    }

    pub fn trunc(&self) -> (r: IpNetwork)
        ensures
            r == self.spec_trunc(),
            r.wf(),
    {
        proof {
            use_type_invariant(self);
        }
        let network = self.network();
        IpNetwork { addr: network, prefix_len: self.prefix_len }
    }

    pub fn contains(&self, other: &IpNetwork) -> (r: bool)
        ensures
            r == self.spec_contains(*other),
    {
        match (self.network(), other.network(), self.broadcast(), other.broadcast()) {
            (IpAddress::V4(n1), IpAddress::V4(n2), IpAddress::V4(b1), IpAddress::V4(b2)) => n1
                <= n2 && b2 <= b1,
            (IpAddress::V6(n1), IpAddress::V6(n2), IpAddress::V6(b1), IpAddress::V6(b2)) => n1
                <= n2 && b2 <= b1,
            _ => false,
        }
    }

    pub fn is_host(&self) -> (r: bool)
        ensures
            r == self.spec_is_host(),
    {
        self.prefix_len == self.addr.max_prefix_len()
    }
}

fn netmask_v4_exec(prefix_len: u8) -> (r: u32)
    ensures
        r == netmask_v4(prefix_len),
{
    if prefix_len == 0 {
        0
    } else if prefix_len >= 32 {
        u32::MAX
    } else {
        u32::MAX << ((32 - prefix_len) as u32)
    }
}

fn hostmask_v4_exec(prefix_len: u8) -> (r: u32)
    ensures
        r == hostmask_v4(prefix_len),
{
    if prefix_len >= 32 {
        0
    } else {
        u32::MAX >> (prefix_len as u32)
    }
}

fn netmask_v6_exec(prefix_len: u8) -> (r: u128)
    ensures
        r == netmask_v6(prefix_len),
{
    if prefix_len == 0 {
        0
    } else if prefix_len >= 128 {
        u128::MAX
    } else {
        u128::MAX << ((128 - prefix_len) as u128)
    }
}

fn hostmask_v6_exec(prefix_len: u8) -> (r: u128)
    ensures
        r == hostmask_v6(prefix_len),
{
    if prefix_len >= 128 {
        0
    } else {
        u128::MAX >> (prefix_len as u128)
    }
}

/// Clearing the host bits of an IPv4 address keeps it below the address, and
/// setting them keeps it above.
proof fn lemma_v4_masks(a: u32, p: u8)
    requires
        p <= 32,
    ensures
        (a & netmask_v4(p)) & netmask_v4(p) <= (a & netmask_v4(32)),
        (a | hostmask_v4(32)) <= ((a & netmask_v4(p)) | hostmask_v4(p)),
{
    assert(a & u32::MAX == a) by (bit_vector);
    assert(a | 0u32 == a) by (bit_vector);
    if p == 0 {
        assert(((a & 0u32) & 0u32) <= a) by (bit_vector);
        assert(a <= ((a & 0u32) | (u32::MAX >> 0u32))) by (bit_vector);
    } else if p >= 32 {
        assert(((a & u32::MAX) & u32::MAX) <= a) by (bit_vector);
        assert(a <= ((a & u32::MAX) | 0u32)) by (bit_vector);
    } else {
        let s: u32 = (32 - p) as u32;
        let q: u32 = p as u32;
        assert(((a & (u32::MAX << s)) & (u32::MAX << s)) <= a) by (bit_vector);
        assert(a <= ((a & (u32::MAX << s)) | (u32::MAX >> q))) by (bit_vector)
            requires
                1 <= q <= 31,
                s == 32 - q,
        ;
    }
}

/// Clearing the host bits of an IPv6 address keeps it below the address, and
/// setting them keeps it above.
proof fn lemma_v6_masks(a: u128, p: u8)
    requires
        p <= 128,
    ensures
        (a & netmask_v6(p)) & netmask_v6(p) <= (a & netmask_v6(128)),
        (a | hostmask_v6(128)) <= ((a & netmask_v6(p)) | hostmask_v6(p)),
{
    assert(a & u128::MAX == a) by (bit_vector);
    assert(a | 0u128 == a) by (bit_vector);
    if p == 0 {
        assert(((a & 0u128) & 0u128) <= a) by (bit_vector);
        assert(a <= ((a & 0u128) | (u128::MAX >> 0u128))) by (bit_vector);
    } else if p >= 128 {
        assert(((a & u128::MAX) & u128::MAX) <= a) by (bit_vector);
        assert(a <= ((a & u128::MAX) | 0u128)) by (bit_vector);
    } else {
        let s: u128 = (128 - p) as u128;
        let q: u128 = p as u128;
        assert(((a & (u128::MAX << s)) & (u128::MAX << s)) <= a) by (bit_vector);
        assert(a <= ((a & (u128::MAX << s)) | (u128::MAX >> q))) by (bit_vector)
            requires
                1 <= q <= 127,
                s == 128 - q,
        ;
    }
}

/// The supernet of an address with any prefix length of its family, host
/// bits cleared, contains the address's host network.
pub proof fn lemma_truncated_supernet_contains_host(ip: IpAddress, p: u8)
    requires
        p <= family_width(ip),
    ensures
        IpNetwork::spec_mk(ip, p).spec_trunc().spec_contains(IpNetwork::spec_host(ip)),
{
    let n = IpNetwork::spec_mk(ip, p);
    IpNetwork::lemma_mk_fields(ip, p);
    IpNetwork::lemma_mk_fields(n.spec_network(), p);
    IpNetwork::lemma_mk_fields(ip, family_width(ip));
    match ip {
        IpAddress::V4(a) => lemma_v4_masks(a, p),
        IpAddress::V6(a) => lemma_v6_masks(a, p),
    }
}

/// A network with its host bits cleared that contains an address's host
/// network is the supernet of that address with the network's prefix length.
pub proof fn lemma_containing_network_is_truncated_supernet(n: IpNetwork, ip: IpAddress)
    requires
        n.wf(),
        n.spec_trunc() == n,
        n.spec_contains(IpNetwork::spec_host(ip)),
    ensures
        IpNetwork::spec_mk(ip, n.spec_prefix_len()).spec_trunc() == n,
{
    let p = n.spec_prefix_len();
    IpNetwork::lemma_mk_fields(n.spec_network(), p);
    IpNetwork::lemma_mk_fields(ip, family_width(ip));
    IpNetwork::lemma_mk_fields(ip, p);
    let m = IpNetwork::spec_mk(ip, p);
    IpNetwork::lemma_mk_fields(m.spec_network(), p);
    match (n.spec_addr(), ip) {
        (IpAddress::V4(a), IpAddress::V4(b)) => {
            assert(a & netmask_v4(p) == a);
            assert(b & u32::MAX == b) by (bit_vector);
            assert(b | 0u32 == b) by (bit_vector);
            assert(a <= b && b <= a | hostmask_v4(p));
            if p == 0 {
                assert(a & 0u32 == 0u32) by (bit_vector);
                assert(b & 0u32 == 0u32) by (bit_vector);
            } else if p >= 32 {
                assert(a | 0u32 == a) by (bit_vector);
            } else {
                let s: u32 = (32 - p) as u32;
                let q: u32 = p as u32;
                assert(b & (u32::MAX << s) == a) by (bit_vector)
                    requires
                        1 <= q <= 31,
                        s == 32 - q,
                        a & (u32::MAX << s) == a,
                        a <= b,
                        b <= a | (u32::MAX >> q),
                ;
            }
            assert(m.spec_network() == n.spec_addr());
        },
        (IpAddress::V6(a), IpAddress::V6(b)) => {
            assert(a & netmask_v6(p) == a);
            assert(b & u128::MAX == b) by (bit_vector);
            assert(b | 0u128 == b) by (bit_vector);
            assert(a <= b && b <= a | hostmask_v6(p));
            if p == 0 {
                assert(a & 0u128 == 0u128) by (bit_vector);
                assert(b & 0u128 == 0u128) by (bit_vector);
            } else if p >= 128 {
                assert(a | 0u128 == a) by (bit_vector);
            } else {
                let s: u128 = (128 - p) as u128;
                let q: u128 = p as u128;
                assert(b & (u128::MAX << s) == a) by (bit_vector)
                    requires
                        1 <= q <= 127,
                        s == 128 - q,
                        a & (u128::MAX << s) == a,
                        a <= b,
                        b <= a | (u128::MAX >> q),
                ;
            }
            assert(m.spec_network() == n.spec_addr());
        },
        _ => {},
    }
    IpNetwork::lemma_fields_determine(m.spec_trunc(), n);
}

/// Clearing host bits twice is clearing them once.
proof fn lemma_trunc_idempotent(n: IpNetwork)
    ensures
        n.spec_trunc().spec_trunc() == n.spec_trunc(),
{
    IpNetwork::lemma_mk_fields(n.spec_network(), n.spec_prefix_len());
    match n.spec_addr() {
        IpAddress::V4(a) => {
            let m = netmask_v4(n.spec_prefix_len());
            assert((a & m) & m == a & m) by (bit_vector);
        },
        IpAddress::V6(a) => {
            let m = netmask_v6(n.spec_prefix_len());
            assert((a & m) & m == a & m) by (bit_vector);
        },
    }
}

/// Canonicalizing a network that is already canonical changes nothing, so
/// every configured network and its canonical form share one bucket key.
pub proof fn lemma_canonicalize_idempotent(n: IpNetwork)
    requires
        n.wf(),
    ensures
        spec_canonicalize_ip_net(spec_canonicalize_ip_net(n)) == spec_canonicalize_ip_net(n),
{
    let c = spec_canonicalize_ip_net(n);
    let p = n.spec_prefix_len();
    match n.spec_addr() {
        IpAddress::V4(_) => {
            IpNetwork::lemma_mk_fields(n.spec_network(), p);
            lemma_trunc_idempotent(n);
        },
        IpAddress::V6(bits) => {
            if p >= 96 && is_ipv4_mapped(bits) {
                let v4 = IpNetwork::spec_mk(IpAddress::V4(low_32_bits(bits)), (p - 96) as u8);
                IpNetwork::lemma_mk_fields(IpAddress::V4(low_32_bits(bits)), (p - 96) as u8);
                IpNetwork::lemma_mk_fields(v4.spec_network(), (p - 96) as u8);
                lemma_trunc_idempotent(v4);
            } else {
                IpNetwork::lemma_mk_fields(n.spec_network(), p);
                let m = netmask_v6(p);
                if p >= 96 {
                    let s: u128 = (128 - p) as u128;
                    assert(m == u128::MAX << s || m == u128::MAX);
                    assert(((bits & (u128::MAX << s)) >> 32u128 == 0xffffu128) == (bits >> 32u128 == 0xffffu128))
                        by (bit_vector)
                        requires
                            s <= 32,
                    ;
                    assert(((bits & u128::MAX) >> 32u128 == 0xffffu128) == (bits >> 32u128 == 0xffffu128))
                        by (bit_vector);
                }
                lemma_trunc_idempotent(n);
            }
        },
    }
}

/// Brings a configured network to the form used as a bucket key: an
/// IPv4-mapped IPv6 network with a prefix of at least 96 bits becomes the
/// matching IPv4 network, and host bits are cleared.
pub open spec fn spec_canonicalize_ip_net(net: IpNetwork) -> IpNetwork {
    match net.spec_addr() {
        IpAddress::V4(_) => net.spec_trunc(),
        IpAddress::V6(bits) => if net.spec_prefix_len() >= 96 && is_ipv4_mapped(bits) {
            IpNetwork::spec_mk(IpAddress::V4(low_32_bits(bits)), (net.spec_prefix_len() - 96) as u8).spec_trunc()
        } else {
            net.spec_trunc()
        },
    }
}

pub fn canonicalize_ip_net(net: IpNetwork) -> (r: IpNetwork)
    ensures
        r == spec_canonicalize_ip_net(net),
        r.wf(),
{
    let prefix_len = net.prefix_len();
    match net.addr() {
        IpAddress::V4(_) => net.trunc(),
        IpAddress::V6(bits) => {
            if prefix_len >= 96 && bits >> 32u128 == 0xffffu128 {
                let v4 = IpNetwork::new(IpAddress::V4((bits & 0xffff_ffffu128) as u32), prefix_len - 96);
                match v4 {
                    Some(n) => n.trunc(),
                    None => net.trunc(),
                }
            } else {
                net.trunc()
            }
        },
    }
}

} // verus!
