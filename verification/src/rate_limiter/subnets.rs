//! The configured subnet prefix lengths, and the checks on configured subnets.
use vstd::prelude::*;

use crate::rate_limiter::net::{IpAddress, IpNetwork, family_width};

verus! {

/// Strictly decreasing: distinct and longest prefix first.
pub open spec fn strictly_descending(s: Seq<u8>) -> bool {
    forall|i: int, j: int| 0 <= i < j < s.len() ==> s[i] > s[j]
}

/// The prefix lengths of the networks of one family (IPv6 when `v6`).
pub open spec fn family_prefixes(nets: Seq<IpNetwork>, v6: bool) -> Set<u8> {
    Set::new(
        |p: u8|
            exists|i: int|
                0 <= i < nets.len() && (nets[i].spec_addr() is V6) == v6
                    && nets[i].spec_prefix_len() == p,
    )
}

/// Whether two networks overlap: one contains the other.
pub open spec fn overlap(a: IpNetwork, b: IpNetwork) -> bool {
    a.spec_contains(b) || b.spec_contains(a)
}

/// Whether no two entries at different positions overlap.
pub open spec fn no_overlap(nets: Seq<IpNetwork>) -> bool {
    forall|i: int, j: int| 0 <= i < j < nets.len() ==> !overlap(nets[i], nets[j])
}

/// Distinct prefix lengths of configured networks, per family, longest first.
#[derive(Debug)]
pub struct SubnetPrefixes {
    v4: Vec<u8>,
    v6: Vec<u8>,
}

/// Inserts `p` into a strictly descending vector, keeping it strictly descending.
fn insert_descending(v: &mut Vec<u8>, p: u8)
    requires
        strictly_descending(old(v)@),
    ensures
        strictly_descending(final(v)@),
        forall|x: u8| final(v)@.contains(x) <==> (old(v)@.contains(x) || x == p),
{
    let mut i: usize = 0;
    while i < v.len() && v[i] > p
        invariant
            i <= v@.len(),
            v@ == old(v)@,
            strictly_descending(v@),
            forall|j: int| 0 <= j < i ==> v@[j] > p,
        decreases v@.len() - i,
    {
        i = i + 1;
    }
    if i < v.len() && v[i] == p {
        return;
    }
    let ghost before = v@;
    v.insert(i, p);
    proof {
        assert forall|a: int, b: int| 0 <= a < b < v@.len() implies v@[a] > v@[b] by {
            if b < i {
            } else if a < i && b == i {
            } else if a < i {
                assert(v@[b] == before[b - 1]);
            } else if a == i {
                assert(v@[b] == before[b - 1]);
                assert(before[i as int] < p);
                if b - 1 > i {
                    assert(before[i as int] > before[b - 1]);
                }
            } else {
                assert(v@[a] == before[a - 1]);
                assert(v@[b] == before[b - 1]);
            }
        }
        assert forall|x: u8| v@.contains(x) <==> (before.contains(x) || x == p) by {
            if v@.contains(x) {
                let k = choose|k: int| 0 <= k < v@.len() && v@[k] == x;
                if k < i {
                    assert(before[k] == x);
                } else if k > i {
                    assert(before[k - 1] == x);
                }
            }
            if before.contains(x) {
                let k = choose|k: int| 0 <= k < before.len() && before[k] == x;
                if k < i {
                    assert(v@[k] == x);
                } else {
                    assert(v@[k + 1] == x);
                }
            }
            if x == p {
                assert(v@[i as int] == p);
            }
        }
    }
}

impl SubnetPrefixes {
    #[verifier::type_invariant]
    spec fn well_formed(self) -> bool {
        &&& strictly_descending(self.v4@)
        &&& strictly_descending(self.v6@)
        &&& forall|i: int| 0 <= i < self.v4@.len() ==> self.v4@[i] <= 32
        &&& forall|i: int| 0 <= i < self.v6@.len() ==> self.v6@[i] <= 128
    }

    /// The IPv4 prefix lengths, longest first.
    pub closed spec fn spec_v4(self) -> Seq<u8> {
        self.v4@
    }

    /// The IPv6 prefix lengths, longest first.
    pub closed spec fn spec_v6(self) -> Seq<u8> {
        self.v6@
    }

    /// The prefix lengths probed for an address of the family of `ip`.
    pub open spec fn spec_prefixes_for(self, ip: IpAddress) -> Seq<u8> {
        match ip {
            IpAddress::V4(_) => self.spec_v4(),
            IpAddress::V6(_) => self.spec_v6(),
        }
    }

    /// The supernets of `ip` worth probing, longest prefix first.
    pub open spec fn spec_candidate_supernets(self, ip: IpAddress) -> Seq<IpNetwork> {
        self.spec_prefixes_for(ip).map_values(|p: u8| IpNetwork::spec_mk(ip, p).spec_trunc())
    }

    /// Collects the distinct prefix lengths of `nets` per family, longest first.
    pub fn from_networks(nets: &Vec<IpNetwork>) -> (r: SubnetPrefixes)
        ensures
            strictly_descending(r.spec_v4()),
            strictly_descending(r.spec_v6()),
            r.spec_v4().to_set() == family_prefixes(nets@, false),
            r.spec_v6().to_set() == family_prefixes(nets@, true),
            forall|i: int| 0 <= i < r.spec_v4().len() ==> #[trigger] r.spec_v4()[i] <= 32,
            forall|i: int| 0 <= i < r.spec_v6().len() ==> #[trigger] r.spec_v6()[i] <= 128,
    {
        let mut v4: Vec<u8> = Vec::new();
        let mut v6: Vec<u8> = Vec::new();
        let mut i: usize = 0;
        while i < nets.len()
            invariant
                i <= nets@.len(),
                strictly_descending(v4@),
                strictly_descending(v6@),
                forall|k: int| 0 <= k < v4@.len() ==> v4@[k] <= 32,
                forall|k: int| 0 <= k < v6@.len() ==> v6@[k] <= 128,
                forall|x: u8|
                    v4@.contains(x) <==> family_prefixes(nets@.subrange(0, i as int), false).contains(x),
                forall|x: u8|
                    v6@.contains(x) <==> family_prefixes(nets@.subrange(0, i as int), true).contains(x),
            decreases nets@.len() - i,
        {
            let net = nets[i];
            let p = net.prefix_len();
            let is_v4 = net.addr().is_ipv4();
            let ghost old4 = v4@;
            let ghost old6 = v6@;
            if is_v4 {
                insert_descending(&mut v4, p);
            } else {
                insert_descending(&mut v6, p);
            }
            proof {
                let pre = nets@.subrange(0, i as int);
                let post = nets@.subrange(0, i + 1);
                assert forall|x: u8| #[trigger] v4@.contains(x) implies x <= 32 by {
                    if old4.contains(x) {
                        let k = choose|k: int| 0 <= k < old4.len() && old4[k] == x;
                    }
                }
                assert forall|x: u8| #[trigger] v6@.contains(x) implies x <= 128 by {
                    if old6.contains(x) {
                        let k = choose|k: int| 0 <= k < old6.len() && old6[k] == x;
                    }
                }
                assert forall|k: int| 0 <= k < v4@.len() implies v4@[k] <= 32 by {
                    assert(v4@.contains(v4@[k]));
                }
                assert forall|k: int| 0 <= k < v6@.len() implies v6@[k] <= 128 by {
                    assert(v6@.contains(v6@[k]));
                }
                assert forall|v6f: bool, x: u8|
                    #[trigger] family_prefixes(post, v6f).contains(x) <==> (family_prefixes(
                        pre,
                        v6f,
                    ).contains(x) || ((nets@[i as int].spec_addr() is V6) == v6f && x
                        == nets@[i as int].spec_prefix_len())) by {
                    if family_prefixes(post, v6f).contains(x) {
                        let k = choose|k: int|
                            0 <= k < post.len() && (post[k].spec_addr() is V6) == v6f
                                && post[k].spec_prefix_len() == x;
                        if k < i {
                            assert(pre[k] == post[k]);
                        }
                    }
                    if family_prefixes(pre, v6f).contains(x) {
                        let k = choose|k: int|
                            0 <= k < pre.len() && (pre[k].spec_addr() is V6) == v6f
                                && pre[k].spec_prefix_len() == x;
                        assert(post[k] == pre[k]);
                    }
                    if (nets@[i as int].spec_addr() is V6) == v6f && x == nets@[i as int].spec_prefix_len() {
                        assert(post[i as int] == nets@[i as int]);
                    }
                }
            }
            i = i + 1;
        }
        proof {
            assert(nets@.subrange(0, nets@.len() as int) =~= nets@);
            assert(v4@.to_set() =~= family_prefixes(nets@, false));
            assert(v6@.to_set() =~= family_prefixes(nets@, true));
        }
        SubnetPrefixes { v4, v6 }
    }

    /// The supernets of `ip` worth probing, longest prefix first: one for
    /// each configured prefix length of the family of `ip`, with host bits
    /// cleared. Empty when the family has no configured network.
    pub fn candidate_supernets(&self, ip: IpAddress) -> (r: Vec<IpNetwork>)
        ensures
            r@ == self.spec_candidate_supernets(ip),
    {
        proof {
            use_type_invariant(self);
        }
        let prefixes = match ip {
            IpAddress::V4(_) => &self.v4,
            IpAddress::V6(_) => &self.v6,
        };
        let ghost width = family_width(ip);
        assert(forall|k: int| 0 <= k < prefixes@.len() ==> prefixes@[k] <= width);
        let mut out: Vec<IpNetwork> = Vec::new();
        let mut i: usize = 0;
        while i < prefixes.len()
            invariant
                i <= prefixes@.len(),
                prefixes@ == self.spec_prefixes_for(ip),
                forall|k: int| 0 <= k < prefixes@.len() ==> prefixes@[k] <= width,
                width == family_width(ip),
                out@.len() == i,
                forall|k: int|
                    0 <= k < i ==> out@[k] == IpNetwork::spec_mk(ip, prefixes@[k]).spec_trunc(),
            decreases prefixes@.len() - i,
        {
            let p = prefixes[i];
            match IpNetwork::new(ip, p) {
                Some(net) => {
                    out.push(net.trunc());
                },
                None => {
                    assert(false);
                },
            }
            i = i + 1;
        }
        proof {
            assert(out@ =~= self.spec_candidate_supernets(ip));
        }
        out
    }
}

/// Two configured subnets overlap: an address inside both would have no
/// unambiguous bucket.
#[derive(Debug, Clone, Copy, PartialEq, Eq)]
pub struct OverlappingSubnets {
    pub first: IpNetwork,
    pub second: IpNetwork,
}

/// Checks that no two configured subnets overlap (one contains the other);
/// otherwise reports the first overlapping pair, scanning pairs `(i, j)`
/// with `i < j` in order.
pub fn assert_no_overlapping_subnets(networks: &Vec<IpNetwork>) -> (r: Result<(), OverlappingSubnets>)
    ensures
        r is Ok <==> no_overlap(networks@),
        r matches Err(e) ==> exists|i: int, j: int|
            0 <= i < j < networks@.len() && e.first == networks@[i] && e.second == networks@[j]
                && overlap(networks@[i], networks@[j])
                && (forall|a: int, b: int|
                    0 <= a < i && a < b < networks@.len() ==> !overlap(networks@[a], networks@[b]))
                && (forall|b: int| i < b < j ==> !overlap(networks@[i], networks@[b])),
{
    let n = networks.len();
    let mut i: usize = 0;
    while i < n
        invariant
            n == networks@.len(),
            i <= n,
            forall|a: int, b: int| 0 <= a < i && a < b < n ==> !overlap(networks@[a], networks@[b]),
        decreases n - i,
    {
        let mut j: usize = i + 1;
        while j < n
            invariant
                n == networks@.len(),
                i < n,
                i + 1 <= j <= n,
                forall|a: int, b: int| 0 <= a < i && a < b < n ==> !overlap(networks@[a], networks@[b]),
                forall|b: int| i < b < j ==> !overlap(networks@[i as int], networks@[b]),
            decreases n - j,
        {
            let a = &networks[i];
            let b = &networks[j];
            if a.contains(b) || b.contains(a) {
                proof {
                    assert(overlap(networks@[i as int], networks@[j as int]));
                    assert(!no_overlap(networks@));
                }
                return Err(OverlappingSubnets { first: *a, second: *b });
            }
            j = j + 1;
        }
        i = i + 1;
    }
    Ok(())
}

} // verus!
