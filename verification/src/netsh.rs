//! The `netsh` command lines through which the Windows backend changes adapter,
//! address, name-server and firewall state.

use vstd::prelude::*;

use crate::codec::views;
use crate::config::IpAddress;
use crate::net::{ip_string, ip_text, ipv4_string, ipv4_text};
use crate::text::{append, dec, decimal, owned};

verus! {

/// A command line as the texts of its arguments.
pub open spec fn command_view(c: Vec<String>) -> Seq<Seq<char>> {
    views(c@)
}

/// A list of command lines as the texts of their arguments.
pub open spec fn commands_view(cs: Seq<Vec<String>>) -> Seq<Seq<Seq<char>>> {
    cs.map_values(|c: Vec<String>| command_view(c))
}

/// `netsh interface set interface name=<name> admin=enabled|disabled`.
pub open spec fn admin_args(name: Seq<char>, enabled: bool) -> Seq<Seq<char>> {
    seq![
        "interface"@,
        "set"@,
        "interface"@,
        "name="@ + name,
        "admin="@ + if enabled {
            "enabled"@
        } else {
            "disabled"@
        },
    ]
}

/// `netsh interface ipv4 set address name=<index> source=dhcp`.
pub open spec fn dhcp_address_args(if_index: u32) -> Seq<Seq<char>> {
    seq!["interface"@, "ipv4"@, "set"@, "address"@, "name="@ + dec(if_index as nat), "source=dhcp"@]
}

/// `netsh interface ipv4 set address ... source=static` with the primary address and gateway.
pub open spec fn primary_address_args(if_index: u32, address: Seq<char>, gateway: Seq<char>) -> Seq<
    Seq<char>,
> {
    seq![
        "interface"@,
        "ipv4"@,
        "set"@,
        "address"@,
        "name="@ + dec(if_index as nat),
        "source=static"@,
        "address="@ + address,
        "gateway="@ + gateway,
        "store=active"@,
    ]
}

/// `netsh interface ipv4 add address ...` for one more address, without a gateway.
pub open spec fn add_address_args(if_index: u32, address: Seq<char>) -> Seq<Seq<char>> {
    seq![
        "interface"@,
        "ipv4"@,
        "add"@,
        "address"@,
        "name="@ + dec(if_index as nat),
        "address="@ + address,
        "gateway=none"@,
        "store=active"@,
    ]
}

/// `netsh interface ipv4 add route prefix=0.0.0.0/0 ...` for one more default gateway.
pub open spec fn add_gateway_args(if_index: u32, gateway: Seq<char>) -> Seq<Seq<char>> {
    seq![
        "interface"@,
        "ipv4"@,
        "add"@,
        "route"@,
        "prefix=0.0.0.0/0"@,
        "interface="@ + dec(if_index as nat),
        "nexthop="@ + gateway,
        "store=active"@,
    ]
}

/// `netsh interface ipv4 delete address ...`.
pub open spec fn delete_address_args(if_index: u32, address: Seq<char>) -> Seq<Seq<char>> {
    seq![
        "interface"@,
        "ipv4"@,
        "delete"@,
        "address"@,
        "name="@ + dec(if_index as nat),
        "address="@ + address,
        "store=active"@,
    ]
}

/// `netsh interface ipv4 delete route prefix=0.0.0.0/0 ...` for a default gateway.
pub open spec fn delete_gateway_args(if_index: u32, gateway: u32) -> Seq<Seq<char>> {
    seq![
        "interface"@,
        "ipv4"@,
        "delete"@,
        "route"@,
        "prefix=0.0.0.0/0"@,
        "interface="@ + dec(if_index as nat),
        "nexthop="@ + ipv4_text(gateway),
        "store=active"@,
    ]
}

/// `netsh interface ipv4 set dnsservers name=<index> source=dhcp`.
pub open spec fn dns_dhcp_args(if_index: u32) -> Seq<Seq<char>> {
    seq!["interface"@, "ipv4"@, "set"@, "dnsservers"@, "name="@ + dec(if_index as nat), "source=dhcp"@]
}

/// `netsh interface ipv4 set winsservers name=<index> source=dhcp`.
pub open spec fn wins_dhcp_args(if_index: u32) -> Seq<Seq<char>> {
    seq!["interface"@, "ipv4"@, "set"@, "winsservers"@, "name="@ + dec(if_index as nat), "source=dhcp"@]
}

/// `netsh advfirewall set <profile> state on|off`.
pub open spec fn firewall_args(profile: Seq<char>, enabled: bool) -> Seq<Seq<char>> {
    seq![
        "advfirewall"@,
        "set"@,
        profile,
        "state"@,
        if enabled {
            "on"@
        } else {
            "off"@
        },
    ]
}

/// The first server of a list, or `none` when it is empty.
pub open spec fn first_or_none(servers: Seq<Seq<char>>) -> Seq<char> {
    if servers.len() > 0 {
        servers[0]
    } else {
        "none"@
    }
}

/// The commands that set the DNS servers of one address family: the first (or
/// `none`) replaces the list, each later one is added at its 1-based position.
pub open spec fn dns_family_commands(family: Seq<char>, if_index: u32, servers: Seq<Seq<char>>) -> Seq<
    Seq<Seq<char>>,
> {
    seq![
        seq![
            "interface"@,
            family,
            "set"@,
            "dnsservers"@,
            "name="@ + dec(if_index as nat),
            "source=static"@,
            "address="@ + first_or_none(servers),
            "validate=no"@,
        ],
    ] + Seq::new(
        if servers.len() > 0 {
            (servers.len() - 1) as nat
        } else {
            0
        },
        |k: int| dns_add_args(family, if_index, servers[k + 1], (k + 2) as nat),
    )
}

/// `netsh interface <family> add dnsservers ...` for the server at a 1-based position.
pub open spec fn dns_add_args(family: Seq<char>, if_index: u32, server: Seq<char>, position: nat) -> Seq<
    Seq<char>,
> {
    seq![
        "interface"@,
        family,
        "add"@,
        "dnsservers"@,
        "name="@ + dec(if_index as nat),
        "address="@ + server,
        "index="@ + dec(position),
        "validate=no"@,
    ]
}

/// The texts of the servers of one family (IPv6 when `v6`), in order.
pub open spec fn family_texts(servers: Seq<IpAddress>, v6: bool) -> Seq<Seq<char>>
    decreases servers.len(),
{
    if servers.len() == 0 {
        Seq::empty()
    } else {
        let rest = family_texts(servers.drop_last(), v6);
        let last = servers.last();
        if (last is V6) == v6 {
            rest.push(ip_text(last))
        } else {
            rest
        }
    }
}

/// The commands that set the DNS servers: the IPv4 family, then the IPv6 family.
pub open spec fn dns_commands(if_index: u32, servers: Seq<IpAddress>) -> Seq<Seq<Seq<char>>> {
    dns_family_commands("ipv4"@, if_index, family_texts(servers, false)) + dns_family_commands(
        "ipv6"@,
        if_index,
        family_texts(servers, true),
    )
}

/// The commands that set the WINS servers: the first (or `none`) replaces the
/// list, each later one is added at its 1-based position.
pub open spec fn wins_commands(if_index: u32, servers: Seq<u32>) -> Seq<Seq<Seq<char>>> {
    seq![
        seq![
            "interface"@,
            "ipv4"@,
            "set"@,
            "winsservers"@,
            "name="@ + dec(if_index as nat),
            "source=static"@,
            "address="@ + if servers.len() > 0 {
                ipv4_text(servers[0])
            } else {
                "none"@
            },
        ],
    ] + Seq::new(
        if servers.len() > 0 {
            (servers.len() - 1) as nat
        } else {
            0
        },
        |k: int| wins_add_args(if_index, servers[k + 1], (k + 2) as nat),
    )
}

/// `netsh interface ipv4 add winsservers ...` for the server at a 1-based position.
pub open spec fn wins_add_args(if_index: u32, server: u32, position: nat) -> Seq<Seq<char>> {
    seq![
        "interface"@,
        "ipv4"@,
        "add"@,
        "winsservers"@,
        "name="@ + dec(if_index as nat),
        "address="@ + ipv4_text(server),
        "index="@ + dec(position),
    ]
}

fn joined(prefix: &str, value: &str) -> (r: String)
    ensures
        r@ == prefix@ + value@,
{
    let mut r = owned(prefix);
    append(&mut r, value);
    r
}

fn index_arg(prefix: &str, if_index: u32) -> (r: String)
    ensures
        r@ == prefix@ + dec(if_index as nat),
{
    let d = decimal(if_index as u64);
    joined(prefix, d.as_str())
}

fn word(v: &mut Vec<String>, w: &str)
    ensures
        views(final(v)@) == views(old(v)@).push(w@),
{
    let ghost before = v@;
    v.push(owned(w));
    proof {
        assert(views(v@) =~= views(before).push(w@));
    }
}

fn arg(v: &mut Vec<String>, a: String)
    ensures
        views(final(v)@) == views(old(v)@).push(a@),
{
    let ghost before = v@;
    let ghost t = a@;
    v.push(a);
    proof {
        assert(views(v@) =~= views(before).push(t));
    }
}

/// Arguments that enable or disable an adapter by name.
pub fn adapter_admin_args(name: &str, enabled: bool) -> (r: Vec<String>)
    ensures
        views(r@) == admin_args(name@, enabled),
{
    let mut v: Vec<String> = Vec::new();
    word(&mut v, "interface");
    word(&mut v, "set");
    word(&mut v, "interface");
    arg(&mut v, joined("name=", name));
    arg(&mut v, joined("admin=", if enabled { "enabled" } else { "disabled" }));
    assert(views(v@) =~= admin_args(name@, enabled));
    v
}

/// Arguments that switch an adapter's address to DHCP.
pub fn dhcp_address(if_index: u32) -> (r: Vec<String>)
    ensures
        views(r@) == dhcp_address_args(if_index),
{
    let mut v: Vec<String> = Vec::new();
    word(&mut v, "interface");
    word(&mut v, "ipv4");
    word(&mut v, "set");
    word(&mut v, "address");
    arg(&mut v, index_arg("name=", if_index));
    word(&mut v, "source=dhcp");
    assert(views(v@) =~= dhcp_address_args(if_index));
    v
}

/// Arguments that set the primary static address and gateway.
pub fn primary_address(if_index: u32, address: &str, gateway: &str) -> (r: Vec<String>)
    ensures
        views(r@) == primary_address_args(if_index, address@, gateway@),
{
    let mut v: Vec<String> = Vec::new();
    word(&mut v, "interface");
    word(&mut v, "ipv4");
    word(&mut v, "set");
    word(&mut v, "address");
    arg(&mut v, index_arg("name=", if_index));
    word(&mut v, "source=static");
    arg(&mut v, joined("address=", address));
    arg(&mut v, joined("gateway=", gateway));
    word(&mut v, "store=active");
    assert(views(v@) =~= primary_address_args(if_index, address@, gateway@));
    v
}

/// Arguments that add one more address.
pub fn add_address(if_index: u32, address: &str) -> (r: Vec<String>)
    ensures
        views(r@) == add_address_args(if_index, address@),
{
    let mut v: Vec<String> = Vec::new();
    word(&mut v, "interface");
    word(&mut v, "ipv4");
    word(&mut v, "add");
    word(&mut v, "address");
    arg(&mut v, index_arg("name=", if_index));
    arg(&mut v, joined("address=", address));
    word(&mut v, "gateway=none");
    word(&mut v, "store=active");
    assert(views(v@) =~= add_address_args(if_index, address@));
    v
}

/// Arguments that add one more default gateway.
pub fn add_gateway(if_index: u32, gateway: &str) -> (r: Vec<String>)
    ensures
        views(r@) == add_gateway_args(if_index, gateway@),
{
    let mut v: Vec<String> = Vec::new();
    word(&mut v, "interface");
    word(&mut v, "ipv4");
    word(&mut v, "add");
    word(&mut v, "route");
    word(&mut v, "prefix=0.0.0.0/0");
    arg(&mut v, index_arg("interface=", if_index));
    arg(&mut v, joined("nexthop=", gateway));
    word(&mut v, "store=active");
    assert(views(v@) =~= add_gateway_args(if_index, gateway@));
    v
}

/// Arguments that delete an address.
pub fn delete_address(if_index: u32, address: &str) -> (r: Vec<String>)
    ensures
        views(r@) == delete_address_args(if_index, address@),
{
    let mut v: Vec<String> = Vec::new();
    word(&mut v, "interface");
    word(&mut v, "ipv4");
    word(&mut v, "delete");
    word(&mut v, "address");
    arg(&mut v, index_arg("name=", if_index));
    arg(&mut v, joined("address=", address));
    word(&mut v, "store=active");
    assert(views(v@) =~= delete_address_args(if_index, address@));
    v
}

/// Arguments that delete a default gateway.
pub fn delete_gateway(if_index: u32, gateway: u32) -> (r: Vec<String>)
    ensures
        views(r@) == delete_gateway_args(if_index, gateway),
{
    let mut v: Vec<String> = Vec::new();
    word(&mut v, "interface");
    word(&mut v, "ipv4");
    word(&mut v, "delete");
    word(&mut v, "route");
    word(&mut v, "prefix=0.0.0.0/0");
    arg(&mut v, index_arg("interface=", if_index));
    let g = ipv4_string(gateway);
    arg(&mut v, joined("nexthop=", g.as_str()));
    word(&mut v, "store=active");
    assert(views(v@) =~= delete_gateway_args(if_index, gateway));
    v
}

/// Arguments that take DNS servers from DHCP.
pub fn dns_from_dhcp(if_index: u32) -> (r: Vec<String>)
    ensures
        views(r@) == dns_dhcp_args(if_index),
{
    let mut v: Vec<String> = Vec::new();
    word(&mut v, "interface");
    word(&mut v, "ipv4");
    word(&mut v, "set");
    word(&mut v, "dnsservers");
    arg(&mut v, index_arg("name=", if_index));
    word(&mut v, "source=dhcp");
    assert(views(v@) =~= dns_dhcp_args(if_index));
    v
}

/// Arguments that take WINS servers from DHCP.
pub fn wins_from_dhcp(if_index: u32) -> (r: Vec<String>)
    ensures
        views(r@) == wins_dhcp_args(if_index),
{
    let mut v: Vec<String> = Vec::new();
    word(&mut v, "interface");
    word(&mut v, "ipv4");
    word(&mut v, "set");
    word(&mut v, "winsservers");
    arg(&mut v, index_arg("name=", if_index));
    word(&mut v, "source=dhcp");
    assert(views(v@) =~= wins_dhcp_args(if_index));
    v
}

/// Arguments that switch a firewall profile on or off.
pub fn firewall_profile(profile: &str, enabled: bool) -> (r: Vec<String>)
    ensures
        views(r@) == firewall_args(profile@, enabled),
{
    let mut v: Vec<String> = Vec::new();
    word(&mut v, "advfirewall");
    word(&mut v, "set");
    word(&mut v, profile);
    word(&mut v, "state");
    word(&mut v, if enabled { "on" } else { "off" });
    assert(views(v@) =~= firewall_args(profile@, enabled));
    v
}

pub(crate) fn push_command(out: &mut Vec<Vec<String>>, c: Vec<String>)
    ensures
        commands_view(final(out)@) == commands_view(old(out)@).push(views(c@)),
{
    let ghost before = out@;
    let ghost t = views(c@);
    out.push(c);
    proof {
        assert(commands_view(out@) =~= commands_view(before).push(t));
    }
}

/// Appends a list of commands.
pub(crate) fn extend_commands(out: &mut Vec<Vec<String>>, more: Vec<Vec<String>>)
    ensures
        commands_view(final(out)@) == commands_view(old(out)@) + commands_view(more@),
{
    let ghost a = out@;
    let ghost b = more@;
    let mut more = more;
    out.append(&mut more);
    proof {
        assert(commands_view(out@) =~= commands_view(a) + commands_view(b));
    }
}

/// The commands that set the DNS servers of one family (`ipv4` or `ipv6`) to the given texts.
pub fn dns_family(family: &str, if_index: u32, servers: &Vec<String>) -> (r: Vec<Vec<String>>)
    ensures
        commands_view(r@) == dns_family_commands(family@, if_index, views(servers@)),
{
    let ghost sv = views(servers@);
    let first: &str = if servers.len() > 0 {
        servers[0].as_str()
    } else {
        "none"
    };
    let mut c: Vec<String> = Vec::new();
    word(&mut c, "interface");
    word(&mut c, family);
    word(&mut c, "set");
    word(&mut c, "dnsservers");
    arg(&mut c, index_arg("name=", if_index));
    word(&mut c, "source=static");
    arg(&mut c, joined("address=", first));
    word(&mut c, "validate=no");
    let mut out: Vec<Vec<String>> = Vec::new();
    push_command(&mut out, c);
    let ghost head = commands_view(out@);
    let n = servers.len();
    if n > 1 {
        for k in 1..n
            invariant
                n == servers@.len(),
                sv == views(servers@),
                commands_view(out@) =~= head + Seq::new(
                    (k - 1) as nat,
                    |j: int| dns_add_args(family@, if_index, sv[j + 1], (j + 2) as nat),
                ),
        {
            let mut c: Vec<String> = Vec::new();
            word(&mut c, "interface");
            word(&mut c, family);
            word(&mut c, "add");
            word(&mut c, "dnsservers");
            arg(&mut c, index_arg("name=", if_index));
            arg(&mut c, joined("address=", servers[k].as_str()));
            let position = decimal((k + 1) as u64);
            arg(&mut c, joined("index=", position.as_str()));
            word(&mut c, "validate=no");
            proof {
                assert(sv[k as int] == servers@[k as int]@);
                assert(views(c@) =~~= dns_add_args(family@, if_index, sv[k as int], (k + 1) as nat));
            }
            push_command(&mut out, c);
        }
    }
    proof {
        if servers@.len() > 0 {
            assert(sv[0] == servers@[0]@);
        }
        assert(head =~~= seq![
            seq![
                "interface"@,
                family@,
                "set"@,
                "dnsservers"@,
                "name="@ + dec(if_index as nat),
                "source=static"@,
                "address="@ + first_or_none(sv),
                "validate=no"@,
            ],
        ]);
        assert(commands_view(out@) =~~= dns_family_commands(family@, if_index, sv));
    }
    out
}

/// The texts of the DNS servers of one family (IPv6 when `v6`), in order.
pub fn family_strings(servers: &Vec<IpAddress>, v6: bool) -> (r: Vec<String>)
    ensures
        views(r@) == family_texts(servers@, v6),
{
    let mut out: Vec<String> = Vec::new();
    let n = servers.len();
    for i in 0..n
        invariant
            n == servers@.len(),
            views(out@) == family_texts(servers@.take(i as int), v6),
    {
        let ghost before = out@;
        let a = servers[i];
        let is_v6 = match a {
            IpAddress::V6(_) => true,
            IpAddress::V4(_) => false,
        };
        if is_v6 == v6 {
            let t = ip_string(a);
            let ghost tv = t@;
            out.push(t);
            proof {
                assert(views(out@) =~= views(before).push(tv));
            }
        }
        proof {
            assert(servers@.take(i + 1).drop_last() =~= servers@.take(i as int));
        }
    }
    proof {
        assert(servers@.take(n as int) =~= servers@);
    }
    out
}

/// The commands that set an adapter's DNS servers: IPv4 servers first, then IPv6.
pub fn dns_servers(if_index: u32, servers: &Vec<IpAddress>) -> (r: Vec<Vec<String>>)
    ensures
        commands_view(r@) == dns_commands(if_index, servers@),
{
    let v4 = family_strings(servers, false);
    let v6 = family_strings(servers, true);
    let mut out = dns_family("ipv4", if_index, &v4);
    extend_commands(&mut out, dns_family("ipv6", if_index, &v6));
    out
}

/// The commands that set an adapter's WINS servers.
pub fn wins_servers(if_index: u32, servers: &Vec<u32>) -> (r: Vec<Vec<String>>)
    ensures
        commands_view(r@) == wins_commands(if_index, servers@),
{
    let ghost sv = servers@;
    let first = if servers.len() > 0 {
        ipv4_string(servers[0])
    } else {
        owned("none")
    };
    let mut c: Vec<String> = Vec::new();
    word(&mut c, "interface");
    word(&mut c, "ipv4");
    word(&mut c, "set");
    word(&mut c, "winsservers");
    arg(&mut c, index_arg("name=", if_index));
    word(&mut c, "source=static");
    arg(&mut c, joined("address=", first.as_str()));
    let mut out: Vec<Vec<String>> = Vec::new();
    push_command(&mut out, c);
    let ghost head = commands_view(out@);
    let n = servers.len();
    if n > 1 {
        for k in 1..n
            invariant
                n == servers@.len(),
                sv == servers@,
                commands_view(out@) =~= head + Seq::new(
                    (k - 1) as nat,
                    |j: int| wins_add_args(if_index, sv[j + 1], (j + 2) as nat),
                ),
        {
            let mut c: Vec<String> = Vec::new();
            word(&mut c, "interface");
            word(&mut c, "ipv4");
            word(&mut c, "add");
            word(&mut c, "winsservers");
            arg(&mut c, index_arg("name=", if_index));
            let t = ipv4_string(servers[k]);
            arg(&mut c, joined("address=", t.as_str()));
            let position = decimal((k + 1) as u64);
            arg(&mut c, joined("index=", position.as_str()));
            proof {
                assert(views(c@) =~~= wins_add_args(if_index, sv[k as int], (k + 1) as nat));
            }
            push_command(&mut out, c);
        }
    }
    proof {
        assert(head =~~= seq![
            seq![
                "interface"@,
                "ipv4"@,
                "set"@,
                "winsservers"@,
                "name="@ + dec(if_index as nat),
                "source=static"@,
                "address="@ + if sv.len() > 0 {
                    ipv4_text(sv[0])
                } else {
                    "none"@
                },
            ],
        ]);
        assert(commands_view(out@) =~~= wins_commands(if_index, sv));
    }
    out
}

} // verus!
