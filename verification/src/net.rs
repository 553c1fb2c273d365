//! IP address classes and their textual forms.

use vstd::prelude::*;

use crate::config::{IpAddress, Ipv4Network};
use crate::text::{append, dec, decimal, push_char};

verus! {

/// Octet `k` (0 is the most significant) of an IPv4 address.
pub open spec fn octet(a: u32, k: nat) -> nat {
    ((a as nat) / pow256(3 - k as int)) % 256
}

/// `256^e` for `0 <= e <= 3`.
pub open spec fn pow256(e: int) -> nat {
    if e <= 0 {
        1
    } else if e == 1 {
        256
    } else if e == 2 {
        65536
    } else {
        16777216
    }
}

/// Dotted-decimal text of an IPv4 address (`Ipv4Addr`'s `Display`).
pub open spec fn ipv4_text(a: u32) -> Seq<char> {
    dec(octet(a, 0)) + "."@ + dec(octet(a, 1)) + "."@ + dec(octet(a, 2)) + "."@ + dec(octet(a, 3))
}

/// `Ipv4Addr::is_unspecified`: `0.0.0.0`.
pub open spec fn v4_unspecified(a: u32) -> bool {
    a == 0
}

/// `Ipv4Addr::is_multicast`: `224.0.0.0/4`.
pub open spec fn v4_multicast(a: u32) -> bool {
    224 <= octet(a, 0) <= 239
}

/// `Ipv4Addr::is_broadcast`: `255.255.255.255`.
pub open spec fn v4_broadcast(a: u32) -> bool {
    a == 0xFFFF_FFFF
}

/// `Ipv6Addr::is_unspecified`: `::`.
pub open spec fn v6_unspecified(a: u128) -> bool {
    a == 0
}

/// `Ipv6Addr::is_multicast`: `ff00::/8`.
pub open spec fn v6_multicast(a: u128) -> bool {
    (a as nat) / 0x0100_0000_0000_0000_0000_0000_0000_0000 == 255
}

/// `IpAddr::is_unspecified`.
pub open spec fn ip_unspecified(a: IpAddress) -> bool {
    match a {
        IpAddress::V4(v) => v4_unspecified(v),
        IpAddress::V6(v) => v6_unspecified(v),
    }
}

/// `IpAddr::is_multicast`.
pub open spec fn ip_multicast(a: IpAddress) -> bool {
    match a {
        IpAddress::V4(v) => v4_multicast(v),
        IpAddress::V6(v) => v6_multicast(v),
    }
}

/// Text of an IPv6 address as rendered by `Ipv6Addr`'s `Display` (RFC 5952 form).
pub uninterp spec fn ipv6_text(a: u128) -> Seq<char>;

/// Text of an IP address (`IpAddr`'s `Display`).
pub open spec fn ip_text(a: IpAddress) -> Seq<char> {
    match a {
        IpAddress::V4(v) => ipv4_text(v),
        IpAddress::V6(v) => ipv6_text(v),
    }
}

/// Text of an IPv4 network: `address/prefix`.
pub open spec fn network_text(n: Ipv4Network) -> Seq<char> {
    ipv4_text(n.spec_addr()) + "/"@ + dec(n.spec_prefix_len() as nat)
}

pub fn is_v4_unspecified(a: u32) -> (r: bool)
    ensures
        r == v4_unspecified(a),
{
    a == 0
}

pub fn is_v4_multicast(a: u32) -> (r: bool)
    ensures
        r == v4_multicast(a),
{
    let first = a / 16777216;
    224 <= first && first <= 239
}

pub fn is_v4_broadcast(a: u32) -> (r: bool)
    ensures
        r == v4_broadcast(a),
{
    a == 0xFFFF_FFFF
}

pub fn is_ip_unspecified(a: IpAddress) -> (r: bool)
    ensures
        r == ip_unspecified(a),
{
    match a {
        IpAddress::V4(v) => v == 0,
        IpAddress::V6(v) => v == 0,
    }
}

pub fn is_ip_multicast(a: IpAddress) -> (r: bool)
    ensures
        r == ip_multicast(a),
{
    match a {
        IpAddress::V4(v) => is_v4_multicast(v),
        IpAddress::V6(v) => v / 0x0100_0000_0000_0000_0000_0000_0000_0000 == 255,
    }
}

/// Dotted-decimal rendering of an IPv4 address.
pub fn ipv4_string(a: u32) -> (r: String)
    ensures
        r@ == ipv4_text(a),
{
    let o0 = (a / 16777216) as u64;
    let o1 = ((a / 65536) % 256) as u64;
    let o2 = ((a / 256) % 256) as u64;
    let o3 = (a % 256) as u64;
    let mut r = decimal(o0);
    push_char(&mut r, '.');
    let t1 = decimal(o1);
    append(&mut r, t1.as_str());
    push_char(&mut r, '.');
    let t2 = decimal(o2);
    append(&mut r, t2.as_str());
    push_char(&mut r, '.');
    let t3 = decimal(o3);
    append(&mut r, t3.as_str());
    proof {
        assert("."@ =~= seq!['.']) by {
            reveal_strlit(".");
        }
        assert(o0 as nat == octet(a, 0));
        assert(o3 as nat == octet(a, 3));
        assert(r@ =~= ipv4_text(a));
    }
    r
}

/// Renders an IPv6 address: builds a host network with `ipnet::Ipv6Net::new` and formats
/// its `addr()` with the standard `Display` of IPv6 addresses. The compression rules of that
/// rendering are not restated here; the result is named by `ipv6_text`.
#[verifier::external_body]
pub fn ipv6_string(a: u128) -> (r: String)
    ensures
        r@ == ipv6_text(a),
{
    let net = ipnet::Ipv6Net::new(a.into(), 128).unwrap();
    format!("{}", net.addr())
}

/// Renders an IP address.
pub fn ip_string(a: IpAddress) -> (r: String)
    ensures
        r@ == ip_text(a),
{
    match a {
        IpAddress::V4(v) => ipv4_string(v),
        IpAddress::V6(v) => ipv6_string(v),
    }
}

/// Renders an IPv4 network through `ipnet::Ipv4Net`'s `Display`, which writes the address,
/// a slash and the prefix length; the address is written by `Ipv4Addr`'s `Display` in
/// dotted-decimal form.
#[verifier::external_body]
fn ipnet_display(addr: u32, prefix_len: u8) -> (r: String)
    requires
        prefix_len <= 32,
    ensures
        r@ == ipv4_text(addr) + "/"@ + dec(prefix_len as nat),
{
    let net = ipnet::Ipv4Net::new(addr.into(), prefix_len).unwrap();
    format!("{}", net)
}

/// Renders an IPv4 network as `address/prefix`.
pub fn network_string(n: &Ipv4Network) -> (r: String)
    ensures
        r@ == network_text(*n),
{
    let p = n.prefix_len();
    ipnet_display(n.addr(), p)
}

} // verus!
