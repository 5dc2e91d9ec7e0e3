//! Decisions of the `DNSZone` reconciler.

pub mod bind9_config;
pub mod cleanup;
pub mod discovery;
pub mod helpers;
pub mod pods;
pub mod status_helpers;
pub mod types;
pub mod validation;

use vstd::prelude::*;
use crate::crd::{DNSZoneSpec, NameServer, pairs_view};
use crate::text::copy_opt_string;

verus! {

/// A name server as `(hostname, IPv4 address, IPv6 address)`.
pub open spec fn name_server_view(n: NameServer) -> (Seq<char>, Option<Seq<char>>, Option<Seq<char>>) {
    (n.hostname@, n.ipv4_address.deep_view(), n.ipv6_address.deep_view())
}

/// The name servers a zone announces: its `nameServers` list when set
/// (even empty), else one server per entry of the older `nameServerIps`
/// map (IPv4 only), else none.
pub open spec fn effective_name_servers(spec: DNSZoneSpec) -> Option<
    Seq<(Seq<char>, Option<Seq<char>>, Option<Seq<char>>)>,
> {
    match spec.name_servers {
        Some(list) => Some(list@.map_values(|n: NameServer| name_server_view(n))),
        None => match spec.name_server_ips {
            Some(ips) => Some(
                pairs_view(ips).map_values(
                    |p: (Seq<char>, Seq<char>)| (p.0, Some(p.1), None::<Seq<char>>),
                ),
            ),
            None => None,
        },
    }
}

/// The name servers of a zone, preferring `nameServers` over the older
/// `nameServerIps`.
pub fn get_effective_name_servers(spec: &DNSZoneSpec) -> (r: Option<Vec<NameServer>>)
    ensures
        match r {
            Some(v) => effective_name_servers(*spec) == Some(
                v@.map_values(|n: NameServer| name_server_view(n)),
            ),
            None => effective_name_servers(*spec) is None,
        },
{
    match &spec.name_servers {
        Some(list) => {
            let mut out: Vec<NameServer> = Vec::new();
            for i in 0..list.len()
                invariant
                    spec.name_servers == Some(*list),
                    out@.map_values(|n: NameServer| name_server_view(n)) == list@.take(
                        i as int,
                    ).map_values(|n: NameServer| name_server_view(n)),
            {
                let n = &list[i];
                let copy = NameServer {
                    hostname: n.hostname.clone(),
                    ipv4_address: copy_opt_string(&n.ipv4_address),
                    ipv6_address: copy_opt_string(&n.ipv6_address),
                };
                let ghost before = out@;
                out.push(copy);
                assert(out@.map_values(|n: NameServer| name_server_view(n)) =~= before.map_values(
                    |n: NameServer| name_server_view(n),
                ).push(name_server_view(list@[i as int])));
                assert(list@.take(i + 1).map_values(|n: NameServer| name_server_view(n))
                    =~= list@.take(i as int).map_values(|n: NameServer| name_server_view(n)).push(
                    name_server_view(list@[i as int]),
                ));
            }
            assert(list@.take(list.len() as int) =~= list@);
            Some(out)
        },
        None => match &spec.name_server_ips {
            Some(ips) => {
                let mut out: Vec<NameServer> = Vec::new();
                for i in 0..ips.len()
                    invariant
                        spec.name_servers is None,
                        spec.name_server_ips == Some(*ips),
                        out@.map_values(|n: NameServer| name_server_view(n)) == pairs_view(
                            *ips,
                        ).take(i as int).map_values(
                            |p: (Seq<char>, Seq<char>)| (p.0, Some(p.1), None::<Seq<char>>),
                        ),
                {
                    let (host, ip) = &ips[i];
                    let server = NameServer {
                        hostname: host.clone(),
                        ipv4_address: Some(ip.clone()),
                        ipv6_address: None,
                    };
                    let ghost before = out@;
                    out.push(server);
                    assert(pairs_view(*ips)[i as int] == (host@, ip@));
                    assert(out@.map_values(|n: NameServer| name_server_view(n)) =~= before.map_values(
                        |n: NameServer| name_server_view(n),
                    ).push((host@, Some(ip@), None::<Seq<char>>)));
                    assert(pairs_view(*ips).take(i + 1).map_values(
                        |p: (Seq<char>, Seq<char>)| (p.0, Some(p.1), None::<Seq<char>>),
                    ) =~= pairs_view(*ips).take(i as int).map_values(
                        |p: (Seq<char>, Seq<char>)| (p.0, Some(p.1), None::<Seq<char>>),
                    ).push((host@, Some(ip@), None::<Seq<char>>)));
                }
                assert(pairs_view(*ips).take(ips.len() as int) =~= pairs_view(*ips));
                Some(out)
            },
            None => None,
        },
    }
}

} // verus!
