//! How the adapter inventory reads the IP Helper adapter records: which
//! adapters are listed, and how their name, MAC address and status read.

use vstd::prelude::*;

use crate::config::IpAddress;
use crate::error::Error;
use crate::model::IpAddressInfo;
use crate::net::{ip_string, ip_text};
use crate::plan::join;
use crate::text::{append, dec, decimal, owned, push_char};
use crate::wifi::{hex_char, hex_digit, hex_text};

verus! {

/// `IF_TYPE_ETHERNET_CSMACD`.
pub const IF_TYPE_ETHERNET: u32 = 6;

/// `IF_TYPE_SOFTWARE_LOOPBACK`.
pub const IF_TYPE_LOOPBACK: u32 = 24;

/// `IF_TYPE_IEEE80211`.
pub const IF_TYPE_WIFI: u32 = 71;

/// `IfOperStatusNotPresent`.
pub const OPER_STATUS_NOT_PRESENT: i32 = 6;

/// A MAC address as uppercase byte pairs joined by `-`.
pub open spec fn mac_text(bytes: Seq<u8>) -> Seq<char> {
    join(bytes.map_values(|b: u8| hex_text(seq![b])), "-"@)
}

/// The MAC address of an adapter: the first `length` bytes of its physical
/// address (at most the whole buffer), or none when that is empty.
pub fn format_mac(bytes: &Vec<u8>, length: u32) -> (r: Option<String>)
    ensures
        ({
            let n = if (length as int) < bytes@.len() {
                length as int
            } else {
                bytes@.len() as int
            };
            &&& n == 0 ==> r is None
            &&& n > 0 ==> (r matches Some(s) && s@ == mac_text(bytes@.take(n)))
        }),
{
    let n: usize = if (length as u64) < (bytes.len() as u64) {
        length as usize
    } else {
        bytes.len()
    };
    if n == 0 {
        return None;
    }
    let ghost f = |b: u8| hex_text(seq![b]);
    let mut out = String::new();
    for i in 0..n
        invariant
            n <= bytes@.len(),
            n > 0,
            f == (|b: u8| hex_text(seq![b])),
            i == 0 ==> out@ == Seq::<char>::empty(),
            i > 0 ==> out@ == join(bytes@.take(i as int).map_values(f), "-"@),
    {
        if i > 0 {
            append(&mut out, "-");
        }
        let b = bytes[i];
        let ghost before = out@;
        push_char(&mut out, hex_char(b / 16));
        push_char(&mut out, hex_char(b % 16));
        proof {
            assert(hex_text(seq![b]) =~= seq![hex_digit((b / 16) as int), hex_digit((b % 16) as int)]) by {
                assert(seq![b].drop_last() =~= Seq::<u8>::empty());
                assert(seq![b].last() == b);
                assert(hex_text(Seq::<u8>::empty()) == Seq::<char>::empty());
            }
            let m = bytes@.take(i + 1).map_values(f);
            assert(m.drop_last() =~= bytes@.take(i as int).map_values(f));
            assert(m.last() == f(b));
            if i == 0 {
                assert(m =~= seq![f(b)]);
            }
        }
    }
    Some(out)
}

/// The operational status of an adapter.
pub open spec fn oper_status_text(status: i32) -> Seq<char> {
    if status == 1 {
        "up"@
    } else if status == 2 {
        "down"@
    } else if status == 3 {
        "testing"@
    } else if status == 5 {
        "dormant"@
    } else if status == 6 {
        "not_present"@
    } else if status == 7 {
        "lower_layer_down"@
    } else {
        "unknown"@
    }
}

/// Names the operational status of an adapter.
pub fn oper_status(status: i32) -> (r: String)
    ensures
        r@ == oper_status_text(status),
{
    owned(
        if status == 1 {
            "up"
        } else if status == 2 {
            "down"
        } else if status == 3 {
            "testing"
        } else if status == 5 {
            "dormant"
        } else if status == 6 {
            "not_present"
        } else if status == 7 {
            "lower_layer_down"
        } else {
            "unknown"
        },
    )
}

/// Whether an adapter is listed: not a filter driver, not loopback, present.
pub fn adapter_listed(if_type: u32, oper_status: i32, filter: bool) -> (r: bool)
    ensures
        r == !(filter || if_type == IF_TYPE_LOOPBACK || oper_status == OPER_STATUS_NOT_PRESENT),
{
    !(filter || if_type == IF_TYPE_LOOPBACK || oper_status == OPER_STATUS_NOT_PRESENT)
}

/// Whether an adapter counts as hardware when the driver details cannot be
/// read: Ethernet and Wi-Fi interfaces do.
pub fn assumed_hardware(if_type: u32) -> (r: bool)
    ensures
        r == (if_type == IF_TYPE_ETHERNET || if_type == IF_TYPE_WIFI),
{
    if_type == IF_TYPE_ETHERNET || if_type == IF_TYPE_WIFI
}

/// The name of an adapter: its friendly name, or `ifIndex {index}`.
pub fn adapter_name(friendly: Option<String>, if_index: u32) -> (r: String)
    ensures
        r@ == match friendly {
            Some(n) => n@,
            None => "ifIndex "@ + dec(if_index as nat),
        },
{
    match friendly {
        Some(n) => n,
        None => {
            let mut r = owned("ifIndex ");
            let d = decimal(if_index as u64);
            append(&mut r, d.as_str());
            r
        },
    }
}

/// Whether a record of `size` bytes at address `start` lies wholly inside the
/// buffer `base..end` that the IP Helper API filled; a pointer outside it is
/// refused.
pub fn in_buffer(start: usize, size: usize, base: usize, end: usize) -> (r: Result<(), Error>)
    ensures
        (base <= start && start + size <= end) ==> r is Ok,
        !(base <= start && start + size <= end) ==> (r matches Err(Error::Protocol(m)) && m@
            == "Windows IP Helper returned an out-of-bounds pointer"@),
{
    if start < base || start > usize::MAX - size || start + size > end {
        return Err(Error::Protocol(owned("Windows IP Helper returned an out-of-bounds pointer")));
    }
    Ok(())
}

/// A unicast address of an adapter record.
#[derive(Clone, Copy, Debug, PartialEq, Eq, Structural)]
pub struct UnicastAddress {
    /// The address.
    pub address: IpAddress,
    /// On-link prefix length.
    pub prefix_length: u8,
    /// Whether the prefix was configured manually.
    pub manual: bool,
}

/// The address without its prefix, as an adapter reports it.
pub open spec fn info_of(u: UnicastAddress) -> (Seq<char>, u8) {
    (ip_text(u.address), u.prefix_length)
}

/// The texts and prefixes of those addresses of one family (IPv6 when `v6`),
/// or of the manual IPv4 ones when `manual_only`.
pub open spec fn unicast_infos(records: Seq<UnicastAddress>, v6: bool, manual_only: bool) -> Seq<(Seq<char>, u8)>
    decreases records.len(),
{
    if records.len() == 0 {
        Seq::empty()
    } else {
        let rest = unicast_infos(records.drop_last(), v6, manual_only);
        let u = records.last();
        if (u.address is V6) == v6 && (!manual_only || u.manual) {
            rest.push(info_of(u))
        } else {
            rest
        }
    }
}

/// An address list as texts and prefixes.
pub open spec fn infos_view(v: Seq<IpAddressInfo>) -> Seq<(Seq<char>, u8)> {
    v.map_values(|a: IpAddressInfo| (a.address@, a.prefix_length))
}

/// Splits an adapter's unicast addresses into its IPv4 addresses, its IPv6
/// addresses and its manually configured IPv4 addresses, each in order.
pub fn split_unicast(records: &Vec<UnicastAddress>) -> (r: (Vec<IpAddressInfo>, Vec<IpAddressInfo>, Vec<IpAddressInfo>))
    ensures
        infos_view(r.0@) == unicast_infos(records@, false, false),
        infos_view(r.1@) == unicast_infos(records@, true, false),
        infos_view(r.2@) == unicast_infos(records@, false, true),
{
    let mut ipv4: Vec<IpAddressInfo> = Vec::new();
    let mut ipv6: Vec<IpAddressInfo> = Vec::new();
    let mut manual: Vec<IpAddressInfo> = Vec::new();
    let n = records.len();
    for i in 0..n
        invariant
            n == records@.len(),
            infos_view(ipv4@) == unicast_infos(records@.take(i as int), false, false),
            infos_view(ipv6@) == unicast_infos(records@.take(i as int), true, false),
            infos_view(manual@) == unicast_infos(records@.take(i as int), false, true),
    {
        proof {
            assert(records@.take(i + 1).drop_last() =~= records@.take(i as int));
            assert(records@.take(i + 1).last() == records@[i as int]);
        }
        let u = records[i];
        let is_v6 = match u.address {
            IpAddress::V6(_) => true,
            IpAddress::V4(_) => false,
        };
        if is_v6 {
            let ghost before = ipv6@;
            let t = ip_string(u.address);
            ipv6.push(IpAddressInfo { address: t, prefix_length: u.prefix_length });
            proof {
                assert(infos_view(ipv6@) =~= infos_view(before).push(info_of(u)));
            }
        } else {
            if u.manual {
                let ghost before = manual@;
                let t = ip_string(u.address);
                manual.push(IpAddressInfo { address: t, prefix_length: u.prefix_length });
                proof {
                    assert(infos_view(manual@) =~= infos_view(before).push(info_of(u)));
                }
            }
            let ghost before = ipv4@;
            let t = ip_string(u.address);
            ipv4.push(IpAddressInfo { address: t, prefix_length: u.prefix_length });
            proof {
                assert(infos_view(ipv4@) =~= infos_view(before).push(info_of(u)));
            }
        }
    }
    proof {
        assert(records@.take(n as int) =~= records@);
    }
    (ipv4, ipv6, manual)
}

} // verus!
