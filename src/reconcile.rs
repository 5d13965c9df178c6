use vstd::prelude::*;
use crate::table::find_key;
use crate::addr::{IpAddress, SocketAddress};
use crate::process::{copy_process, opt_process_view};
use crate::socket::{conn_view, ConnView, AddressFamily, Protocol, SocketConnection, SocketConnectionInfo, SocketInfo, SocketStatus, TransportProtocol};
use crate::stat::NetStatStrage;
use crate::table::{keys_unique, lemma_table_dom, lemma_table_push, lemma_table_remove, lemma_table_set, table_view};

verus! {

/// The connection key a socket stands for: TCP sockets without a remote get
/// 0.0.0.0:0, UDP sockets without one get the unspecified address of their
/// family; sockets of other protocols stand for none.
pub open spec fn socket_key(s: SocketInfo) -> Option<SocketConnection> {
    let local = SocketAddress { ip: s.local_ip_addr, port: s.local_port };
    let port = match s.remote_port { Some(p) => p, None => 0u16 };
    match s.protocol {
        Protocol::TCP => Some(SocketConnection {
            local_socket: local,
            remote_socket: SocketAddress {
                ip: match s.remote_ip_addr { Some(ip) => ip, None => IpAddress::V4(0) },
                port,
            },
            protocol: TransportProtocol::TCP,
        }),
        Protocol::UDP => Some(SocketConnection {
            local_socket: local,
            remote_socket: match s.remote_ip_addr {
                Some(ip) => SocketAddress { ip, port },
                None => SocketAddress {
                    ip: match s.ip_version {
                        AddressFamily::IPv4 => IpAddress::V4(0),
                        AddressFamily::IPv6 => IpAddress::V6(0),
                    },
                    port: 0,
                },
            },
            protocol: TransportProtocol::UDP,
        }),
        _ => None,
    }
}

/// What the store records of a socket: its state and whole process record.
pub open spec fn socket_view(s: SocketInfo) -> ConnView {
    (s.status, opt_process_view(s.process))
}

/// Some socket of `sockets` has the local address and port of `k`.
pub open spec fn local_matches(k: SocketConnection, sockets: Seq<SocketInfo>) -> bool {
    exists|i: int| 0 <= i < sockets.len()
        && (#[trigger] sockets[i]).local_ip_addr == k.local_socket.ip
        && sockets[i].local_port == k.local_socket.port
}

/// Socket `i` is the last one of `sockets` that stands for its key.
pub open spec fn last_for_key(sockets: Seq<SocketInfo>, i: int) -> bool {
    forall|l: int| i < l < sockets.len() ==> socket_key(#[trigger] sockets[l]) != socket_key(sockets[i])
}

fn matches_some_socket(k: &SocketConnection, sockets: &Vec<SocketInfo>) -> (r: bool)
    ensures
        r == local_matches(*k, sockets@),
{
    let mut i: usize = 0;
    while i < sockets.len()
        invariant
            i <= sockets@.len(),
            forall|j: int| 0 <= j < i ==> !((#[trigger] sockets@[j]).local_ip_addr == k.local_socket.ip
                && sockets@[j].local_port == k.local_socket.port),
        decreases sockets@.len() - i,
    {
        if sockets[i].local_ip_addr == k.local_socket.ip && sockets[i].local_port == k.local_socket.port {
            return true;
        }
        i = i + 1;
    }
    false
}

fn key_of_socket(s: &SocketInfo) -> (r: Option<SocketConnection>)
    ensures
        r == socket_key(*s),
{
    let local = SocketAddress { ip: s.local_ip_addr, port: s.local_port };
    let port = match s.remote_port {
        Some(p) => p,
        None => 0,
    };
    match s.protocol {
        Protocol::TCP => {
            let ip = match s.remote_ip_addr {
                Some(ip) => ip,
                None => IpAddress::V4(0),
            };
            Some(SocketConnection { local_socket: local, remote_socket: SocketAddress { ip, port }, protocol: TransportProtocol::TCP })
        },
        Protocol::UDP => {
            let remote = match s.remote_ip_addr {
                Some(ip) => SocketAddress { ip, port },
                None => {
                    let ip = match s.ip_version {
                        AddressFamily::IPv4 => IpAddress::V4(0),
                        AddressFamily::IPv6 => IpAddress::V6(0),
                    };
                    SocketAddress { ip, port: 0 }
                },
            };
            Some(SocketConnection { local_socket: local, remote_socket: remote, protocol: TransportProtocol::UDP })
        },
        _ => None,
    }
}


impl NetStatStrage {
    /// One tick of the socket reconciler with the sockets the OS reports:
    /// connections whose local address and port match no socket are
    /// removed, then each TCP or UDP socket's connection is inserted or
    /// overwritten with its state and a copy of its process record (a later socket with the same
    /// key wins). Connections the tick leaves alone keep their state.
    pub fn attach_sockets(&mut self, sockets: &Vec<SocketInfo>)
        requires
            old(self).wf(),
        ensures
            final(self).wf(),
            forall|k: SocketConnection| #[trigger] final(self).connections_view().contains_key(k) ==> local_matches(k, sockets@),
            forall|i: int| 0 <= i < sockets@.len() && (#[trigger] socket_key(sockets@[i])).is_some()
                ==> final(self).connections_view().contains_key(socket_key(sockets@[i]).unwrap()),
            forall|i: int| 0 <= i < sockets@.len() && (#[trigger] socket_key(sockets@[i])).is_some() && last_for_key(sockets@, i)
                ==> conn_view(final(self).connections_view()[socket_key(sockets@[i]).unwrap()]) == socket_view(sockets@[i]),
            forall|k: SocketConnection| #[trigger] old(self).connections_view().contains_key(k) && local_matches(k, sockets@)
                ==> final(self).connections_view().contains_key(k),
            forall|k: SocketConnection| #[trigger] final(self).connections_view().contains_key(k)
                && (forall|i: int| 0 <= i < sockets@.len() ==> socket_key(#[trigger] sockets@[i]) != Some(k))
                ==> old(self).connections_view().contains_key(k)
                    && final(self).connections_view()[k] == old(self).connections_view()[k],
            final(self).traffic == old(self).traffic,
            final(self).remote_hosts == old(self).remote_hosts,
            final(self).sockets == old(self).sockets,
            final(self).local_ports == old(self).local_ports,
            final(self).reverse_dns_map == old(self).reverse_dns_map,
            final(self).local_ips == old(self).local_ips,
            final(self).interface == old(self).interface,
            final(self).ipdb == old(self).ipdb,
    {
        let ghost orig = table_view(self.connections@);
        // Drop connections that no longer have a socket.
        let mut i: usize = self.connections.len();
        while i > 0
            invariant
                i <= self.connections@.len(),
                keys_unique(self.connections@),
                forall|k: SocketConnection| #[trigger] table_view(self.connections@).contains_key(k)
                    ==> orig.contains_key(k) && table_view(self.connections@)[k] == orig[k],
                forall|k: SocketConnection| #[trigger] orig.contains_key(k) && local_matches(k, sockets@)
                    ==> table_view(self.connections@).contains_key(k),
                forall|j: int| i <= j < self.connections@.len() ==> local_matches(#[trigger] self.connections@[j].0, sockets@),
                self.traffic == old(self).traffic,
                self.remote_hosts == old(self).remote_hosts,
                self.sockets == old(self).sockets,
                self.local_ports == old(self).local_ports,
                self.reverse_dns_map == old(self).reverse_dns_map,
                self.local_ips == old(self).local_ips,
                self.interface == old(self).interface,
                self.ipdb == old(self).ipdb,
                old(self).wf(),
            decreases i,
        {
            i = i - 1;
            if !matches_some_socket(&self.connections[i].0, sockets) {
                let ghost before = self.connections@;
                proof { lemma_table_remove(before, i as int); }
                self.connections.remove(i);
                proof {
                    assert forall|j: int| i <= j < self.connections@.len() implies
                        local_matches(#[trigger] self.connections@[j].0, sockets@) by {
                        assert(self.connections@[j] == before[j + 1]);
                    }
                }
            }
        }
        let ghost kept = table_view(self.connections@);
        proof {
            assert forall|k: SocketConnection| #[trigger] kept.contains_key(k) implies local_matches(k, sockets@) by {
                lemma_table_dom(self.connections@, k);
            }
        }
        // Insert or overwrite the connection of each socket.
        let mut j: usize = 0;
        while j < sockets.len()
            invariant
                j <= sockets@.len(),
                keys_unique(self.connections@),
                forall|k: SocketConnection| #[trigger] table_view(self.connections@).contains_key(k) ==> local_matches(k, sockets@),
                forall|a: int| 0 <= a < j && (#[trigger] socket_key(sockets@[a])).is_some()
                    ==> table_view(self.connections@).contains_key(socket_key(sockets@[a]).unwrap()),
                forall|a: int| 0 <= a < j && (#[trigger] socket_key(sockets@[a])).is_some()
                    && (forall|l: int| a < l < j ==> socket_key(#[trigger] sockets@[l]) != socket_key(sockets@[a]))
                    ==> conn_view(table_view(self.connections@)[socket_key(sockets@[a]).unwrap()]) == socket_view(sockets@[a]),
                forall|k: SocketConnection| #[trigger] kept.contains_key(k) ==> table_view(self.connections@).contains_key(k),
                forall|k: SocketConnection| #[trigger] table_view(self.connections@).contains_key(k)
                    && (forall|a: int| 0 <= a < j ==> socket_key(#[trigger] sockets@[a]) != Some(k))
                    ==> kept.contains_key(k) && table_view(self.connections@)[k] == kept[k],
                forall|k: SocketConnection| #[trigger] kept.contains_key(k) ==> orig.contains_key(k) && kept[k] == orig[k],
                forall|k: SocketConnection| #[trigger] orig.contains_key(k) && local_matches(k, sockets@) ==> kept.contains_key(k),
                self.traffic == old(self).traffic,
                self.remote_hosts == old(self).remote_hosts,
                self.sockets == old(self).sockets,
                self.local_ports == old(self).local_ports,
                self.reverse_dns_map == old(self).reverse_dns_map,
                self.local_ips == old(self).local_ips,
                self.interface == old(self).interface,
                self.ipdb == old(self).ipdb,
                old(self).wf(),
            decreases sockets@.len() - j,
        {
            let s = &sockets[j];
            match key_of_socket(s) {
                Some(k) => {
                    let info = SocketConnectionInfo { status: s.status, process: copy_process(&s.process) };
                    proof {
                        assert(local_matches(k, sockets@)) by {
                            assert(sockets@[j as int] == *s);
                        }
                    }
                    match find_key(&self.connections, &k, |x: &SocketConnection, y: &SocketConnection| -> (e: bool) ensures e == (*x == *y), { *x == *y }) {
                        Some(p) => {
                            proof { lemma_table_set(self.connections@, p as int, (k, info)); }
                            self.connections.set(p, (k, info));
                        },
                        None => {
                            proof { lemma_table_push(self.connections@, k, info); }
                            self.connections.push((k, info));
                        },
                    }
                },
                None => {},
            }
            j = j + 1;
        }
    }
}

} // verus!
