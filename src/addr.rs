//! Network addresses as plain values, and the rule that picks the backend
//! endpoint among resolved candidates.

use vstd::prelude::*;

verus! {

/// The port the proxy connects to on the remote server (TLS).
pub const TLS_PORT: u16 = 443;

/// An IP address: a 32-bit IPv4 address or a 128-bit IPv6 address.
#[derive(Clone, Copy, Debug, PartialEq, Eq, Structural)]
pub enum IpAddress {
    V4(u32),
    V6(u128),
}

/// An IP address together with a port.
#[derive(Clone, Copy, Debug, PartialEq, Eq, Structural)]
pub struct SocketAddress {
    pub ip: IpAddress,
    pub port: u16,
}

impl IpAddress {
    pub fn is_ipv4(&self) -> (r: bool)
        ensures
            r == (*self is V4),
    {
        match self {
            IpAddress::V4(_) => true,
            IpAddress::V6(_) => false,
        }
    }
}

/// The first IPv4 address among the candidates, if any.
pub open spec fn first_v4(c: Seq<IpAddress>) -> Option<IpAddress>
    decreases c.len(),
{
    if c.len() == 0 {
        None
    } else if c[0] is V4 {
        Some(c[0])
    } else {
        first_v4(c.drop_first())
    }
}

/// The preferred backend address: the first IPv4 candidate, else the first
/// candidate of any family, else nothing.
pub open spec fn preferred_ip(c: Seq<IpAddress>) -> Option<IpAddress> {
    match first_v4(c) {
        Some(a) => Some(a),
        None => if c.len() > 0 {
            Some(c[0])
        } else {
            None
        },
    }
}

/// The wildcard address (all-zero host, port zero) of the family of `a`.
pub open spec fn placeholder_of(a: SocketAddress) -> SocketAddress {
    match a.ip {
        IpAddress::V4(_) => SocketAddress { ip: IpAddress::V4(0), port: 0 },
        IpAddress::V6(_) => SocketAddress { ip: IpAddress::V6(0), port: 0 },
    }
}

/// Picks the backend endpoint among resolved candidates: the first IPv4
/// address, else the first address of any family, always on the TLS port.
pub fn select_backend(candidates: &Vec<IpAddress>) -> (r: Option<SocketAddress>)
    ensures
        r == (match preferred_ip(candidates@) {
            Some(a) => Some(SocketAddress { ip: a, port: TLS_PORT }),
            None => None::<SocketAddress>,
        }),
{
    let mut i: usize = 0;
    assert(candidates@.subrange(0, candidates@.len() as int) =~= candidates@);
    while i < candidates.len()
        invariant
            i <= candidates.len(),
            forall|j: int| 0 <= j < i ==> candidates@[j] is V6,
            first_v4(candidates@) == first_v4(candidates@.subrange(i as int, candidates@.len() as int)),
        decreases candidates.len() - i,
    {
        let a = candidates[i];
        let ghost rest = candidates@.subrange(i as int, candidates@.len() as int);
        assert(rest[0] == a);
        if a.is_ipv4() {
            return Some(SocketAddress { ip: a, port: TLS_PORT });
        }
        assert(rest.drop_first() =~= candidates@.subrange(i + 1, candidates@.len() as int));
        i = i + 1;
    }
    assert(candidates@.subrange(i as int, candidates@.len() as int).len() == 0);
    if candidates.len() > 0 {
        Some(SocketAddress { ip: candidates[0], port: TLS_PORT })
    } else {
        None
    }
}

/// The wildcard address of the same family as `a`.
pub fn placeholder_for(a: &SocketAddress) -> (r: SocketAddress)
    ensures
        r == placeholder_of(*a),
{
    if a.ip.is_ipv4() {
        SocketAddress { ip: IpAddress::V4(0), port: 0 }
    } else {
        SocketAddress { ip: IpAddress::V6(0), port: 0 }
    }
}

/// With one IPv4 and one IPv6 candidate, the IPv4 one is preferred whatever
/// their order.
pub proof fn lemma_v4_preferred_over_v6(v4: IpAddress, v6: IpAddress)
    requires
        v4 is V4,
        v6 is V6,
    ensures
        preferred_ip(seq![v4, v6]) == Some(v4),
        preferred_ip(seq![v6, v4]) == Some(v4),
{
    let s = seq![v6, v4];
    assert(s.drop_first() =~= seq![v4]);
    reveal_with_fuel(first_v4, 3);
}

/// Without any IPv4 candidate, the first candidate is chosen.
pub proof fn lemma_only_v6_takes_first(c: Seq<IpAddress>)
    requires
        c.len() > 0,
        forall|i: int| 0 <= i < c.len() ==> c[i] is V6,
    ensures
        preferred_ip(c) == Some(c[0]),
{
    lemma_no_v4_found(c);
}

proof fn lemma_no_v4_found(c: Seq<IpAddress>)
    requires
        forall|i: int| 0 <= i < c.len() ==> c[i] is V6,
    ensures
        first_v4(c) is None,
    decreases c.len(),
{
    if c.len() > 0 {
        let t = c.drop_first();
        assert forall|i: int| 0 <= i < t.len() implies t[i] is V6 by {
            assert(t[i] == c[i + 1]);
        }
        lemma_no_v4_found(t);
    }
}

/// The wildcard address always has the family of the endpoint it stands for,
/// with an all-zero host and port zero.
pub proof fn lemma_placeholder_family(a: SocketAddress)
    ensures
        placeholder_of(a).ip is V4 <==> a.ip is V4,
        placeholder_of(a).port == 0,
        a.ip is V4 ==> placeholder_of(a).ip == IpAddress::V4(0),
        a.ip is V6 ==> placeholder_of(a).ip == IpAddress::V6(0),
{
}

} // verus!
