//! The DNS proxy: one inbound tunnel packet in, one decision out. The
//! packet is parsed, its destination translated through the upstream server
//! table, its first question's name looked up in the rule database; an
//! allowed query yields a forwarding plan, a blocked one a synthesized
//! response packet, and anything malformed is dropped. The embedding
//! program performs the plan: it logs the decision, sends the forward, or
//! queues the response for the tunnel.

use crate::codec::build_response_packet;
use crate::codec::spec_build_response;
use crate::codec::spec_parse_ip;
use crate::codec::GenericIpPacket;
use crate::codec::HeaderModel;
use crate::controller::VpnController;
use crate::dnsmsg::blocked_reply;
use crate::dnsmsg::dns_query_name;
use crate::dnsmsg::spec_blocked_reply;
use crate::dnsmsg::spec_dns_query_name;
use crate::rules::spec_initialize;
use crate::rules::spec_is_blocked;
use crate::rules::HostnameAction;
use crate::rules::LoadedHost;
use crate::rules::NativeHost;
use crate::rules::RuleDatabase;
use crate::rules::RuleDatabaseError;
use vstd::prelude::*;

verus! {

/// The poller tag reserved for the tunnel descriptor.
pub const VPN_EVENT_KEY: usize = usize::MAX - 1;

/// The poller tag reserved for the stop signal's wake descriptor.
pub const STOP_EVENT_KEY: usize = usize::MAX - 2;

/// Bytes read at most from an upstream socket per response.
pub const DNS_RESPONSE_PACKET_SIZE: usize = 1024;

/// The platform's network-unreachable error number.
pub const ENETUNREACH: i32 = 101;

/// The platform's permission-denied error number.
pub const EPERM: i32 = 1;

#[derive(Clone, Copy, PartialEq, Eq, Structural, Debug)]
pub enum DnsPacketProxyError {
    Interrupted,
}

/// Where and what to send for an allowed query: the translated upstream
/// address (4 or 16 bytes), the original destination port, and the DNS
/// payload to forward.
pub struct ForwardPlan {
    pub destination: Vec<u8>,
    pub destination_port: u16,
    pub dns_payload: Vec<u8>,
}

/// The ghost value of a forwarding plan.
pub struct ForwardModel {
    pub destination: Seq<u8>,
    pub destination_port: u16,
    pub dns_payload: Seq<u8>,
}

impl View for ForwardPlan {
    type V = ForwardModel;

    open spec fn view(&self) -> ForwardModel {
        ForwardModel {
            destination: self.destination@,
            destination_port: self.destination_port,
            dns_payload: self.dns_payload@,
        }
    }
}

/// The decision for one inbound tunnel packet. `Drop` is silent; the two
/// named decisions carry the query name for the block/allow log, which is
/// written exactly once per decision. An allowed query with an upstream
/// address of unknown size, and a blocked one whose response cannot be
/// framed, still carry their name and are otherwise dropped.
pub enum DnsRequestAction {
    Drop,
    Allow { query_name: String, forward: Option<ForwardPlan> },
    Block { query_name: String, response_packet: Option<Vec<u8>> },
}

/// The ghost value of a decision.
pub enum ActionModel {
    Drop,
    Allow { query_name: Seq<char>, forward: Option<ForwardModel> },
    Block { query_name: Seq<char>, response_packet: Option<Seq<u8>> },
}

impl View for DnsRequestAction {
    type V = ActionModel;

    open spec fn view(&self) -> ActionModel {
        match self {
            DnsRequestAction::Drop => ActionModel::Drop,
            DnsRequestAction::Allow { query_name, forward } => ActionModel::Allow {
                query_name: query_name@,
                forward: match forward {
                    Some(f) => Some(f@),
                    None => None,
                },
            },
            DnsRequestAction::Block { query_name, response_packet } => ActionModel::Block {
                query_name: query_name@,
                response_packet: match response_packet {
                    Some(p) => Some(p@),
                    None => None,
                },
            },
        }
    }
}

/// The byte sequences of a table of raw addresses.
pub open spec fn views_of(s: Seq<Vec<u8>>) -> Seq<Seq<u8>> {
    s.map_values(|v: Vec<u8>| v@)
}

/// Whether a socket send error is anything beyond a transient
/// per-destination failure: network-unreachable and permission-denied are
/// transient (the packet is dropped, no retry), everything else is reported
/// as non-transient — and either way the serving loop goes on.
pub open spec fn spec_eval_socket_error(error_code: i32) -> bool {
    !(error_code == ENETUNREACH || error_code == EPERM)
}

/// The upstream address a client-visible destination translates to. With no
/// upstream servers configured the destination passes through unchanged;
/// otherwise the destination's last byte, offset by two, indexes the server
/// table, and anything out of range translates to nothing.
pub open spec fn spec_translate(servers: Seq<Seq<u8>>, dst: Seq<u8>) -> Option<Seq<u8>> {
    if servers.len() == 0 {
        Some(dst)
    } else if dst.len() == 0 {
        None
    } else {
        let idx = dst.last() as int;
        if idx < 2 || idx - 2 >= servers.len() {
            None
        } else {
            Some(servers[idx - 2])
        }
    }
}

/// The destination address of a parsed header.
pub open spec fn spec_dst_of(h: HeaderModel) -> Seq<u8> {
    match h {
        HeaderModel::V4 { destination, .. } => destination,
        HeaderModel::V6 { destination, .. } => destination,
    }
}

/// The decision for one inbound packet, start to finish: parse, translate,
/// extract the query name, consult the rules, and either plan a forward or
/// synthesize the blocked response.
pub open spec fn spec_handle_request(
    hosts: Map<Seq<char>, HostnameAction>,
    patterns: Map<Seq<char>, HostnameAction>,
    servers: Seq<Seq<u8>>,
    packet_data: Seq<u8>,
) -> ActionModel {
    match spec_parse_ip(packet_data) {
        None => ActionModel::Drop,
        Some(p) => match p.udp {
            None => ActionModel::Drop,
            Some(u) => match spec_translate(servers, spec_dst_of(p.header)) {
                None => ActionModel::Drop,
                Some(t) => match spec_dns_query_name(u.payload) {
                    None => ActionModel::Drop,
                    Some(name) => if !spec_is_blocked(hosts, patterns, name) {
                        ActionModel::Allow {
                            query_name: name,
                            forward: if t.len() == 4 || t.len() == 16 {
                                Some(
                                    ForwardModel {
                                        destination: t,
                                        destination_port: u.destination_port,
                                        dns_payload: u.payload,
                                    },
                                )
                            } else {
                                None
                            },
                        }
                    } else {
                        ActionModel::Block {
                            query_name: name,
                            response_packet: match spec_blocked_reply(u.payload) {
                                None => None,
                                Some(w) => spec_build_response(packet_data, w),
                            },
                        }
                    },
                },
            },
        },
    }
}

/// Reports whether an error code is non-transient; see
/// `spec_eval_socket_error`.
pub fn eval_socket_error(error_code: i32) -> (r: bool)
    ensures
        r == spec_eval_socket_error(error_code),
{
    !(error_code == ENETUNREACH || error_code == EPERM)
}

/// The filtering half of the engine: the current rule database snapshot and
/// the upstream server table.
pub struct DnsPacketProxy {
    pub rule_database: RuleDatabase,
    pub upstream_dns_servers: Vec<Vec<u8>>,
}

impl DnsPacketProxy {
    /// A proxy with an empty rule database and no upstream servers.
    pub fn new() -> (r: DnsPacketProxy)
        ensures
            r.rule_database.spec_hosts() == Map::<Seq<char>, HostnameAction>::empty(),
            r.rule_database.spec_patterns() == Map::<Seq<char>, HostnameAction>::empty(),
            r.upstream_dns_servers@.len() == 0,
    {
        DnsPacketProxy { rule_database: RuleDatabase::new(), upstream_dns_servers: Vec::new() }
    }

    /// Rebuilds the rule database from the given sources and installs the
    /// upstream server table. A cancellation observed mid-build aborts with
    /// nothing changed.
    pub fn initialize(
        &mut self,
        vpn_controller: &VpnController,
        host_items: Vec<LoadedHost>,
        host_exceptions: Vec<NativeHost>,
        upstream_dns_servers: Vec<Vec<u8>>,
    ) -> (r: Result<(), DnsPacketProxyError>)
        ensures
            r is Ok ==> ({
                let m = spec_initialize(host_items@, host_exceptions@);
                final(self).rule_database.spec_hosts() == m.0
                    && final(self).rule_database.spec_patterns() == m.1
                    && final(self).upstream_dns_servers == upstream_dns_servers
            }),
            r is Err ==> r == Err::<(), DnsPacketProxyError>(DnsPacketProxyError::Interrupted)
                && final(self).rule_database.spec_hosts() == old(self).rule_database.spec_hosts()
                && final(self).rule_database.spec_patterns()
                    == old(self).rule_database.spec_patterns()
                && final(self).upstream_dns_servers == old(self).upstream_dns_servers,
    {
        match self.rule_database.initialize(vpn_controller, host_items, host_exceptions) {
            Ok(_) => {},
            Err(e) => {
                if matches!(e, RuleDatabaseError::Interrupted) {
                    return Err(DnsPacketProxyError::Interrupted);
                }
            },
        }
        self.upstream_dns_servers = upstream_dns_servers;
        Ok(())
    }

    /// Translates a destination address through the upstream table; see
    /// `spec_translate`.
    pub fn translate_destination_address(&self, destination_address: &Vec<u8>) -> (r: Option<
        Vec<u8>,
    >)
        ensures
            match r {
                Some(t) => spec_translate(
                    views_of(self.upstream_dns_servers@),
                    destination_address@,
                ) == Some(t@),
                None => spec_translate(
                    views_of(self.upstream_dns_servers@),
                    destination_address@,
                ) is None,
            },
    {
        let ns = self.upstream_dns_servers.len();
        if ns == 0 {
            return Some(clone_u8_vec(destination_address));
        }
        let dn = destination_address.len();
        if dn == 0 {
            return None;
        }
        let idx = destination_address[dn - 1] as usize;
        if idx < 2 || idx - 2 >= ns {
            return None;
        }
        Some(clone_u8_vec(&self.upstream_dns_servers[idx - 2]))
    }

    /// Decides one inbound tunnel packet; see `spec_handle_request`.
    pub fn handle_dns_request(&self, packet_data: &[u8]) -> (r: DnsRequestAction)
        ensures
            r@ == spec_handle_request(
                self.rule_database.spec_hosts(),
                self.rule_database.spec_patterns(),
                views_of(self.upstream_dns_servers@),
                packet_data@,
            ),
    {
        let packet = match GenericIpPacket::from_ip_packet(packet_data) {
            Some(value) => value,
            None => {
                return DnsRequestAction::Drop;
            },
        };
        let destination_address = match packet.get_destination_address() {
            Some(value) => value,
            None => {
                return DnsRequestAction::Drop;
            },
        };
        let udp = match packet.udp {
            Some(value) => value,
            None => {
                return DnsRequestAction::Drop;
            },
        };
        let translated = match self.translate_destination_address(&destination_address) {
            Some(value) => value,
            None => {
                return DnsRequestAction::Drop;
            },
        };
        let query_name = match dns_query_name(&udp.payload) {
            Some(value) => value,
            None => {
                return DnsRequestAction::Drop;
            },
        };
        if !self.rule_database.is_blocked(query_name.as_str()) {
            let forward = if translated.len() == 4 || translated.len() == 16 {
                Some(
                    ForwardPlan {
                        destination: translated,
                        destination_port: udp.destination_port,
                        dns_payload: udp.payload,
                    },
                )
            } else {
                None
            };
            DnsRequestAction::Allow { query_name, forward }
        } else {
            let response_packet = match blocked_reply(&udp.payload) {
                Some(wire) => build_response_packet(packet_data, wire.as_slice()),
                None => None,
            };
            DnsRequestAction::Block { query_name, response_packet }
        }
    }

    /// Rebuilds a tunnel-bound reply from the pending entry's original
    /// request and a freshly received upstream payload; nothing if the
    /// reply cannot be framed, and such a reply is simply dropped.
    pub fn handle_dns_response(&self, request_packet: &[u8], response_payload: &[u8]) -> (r:
        Option<Vec<u8>>)
        ensures
            match r {
                Some(v) => spec_build_response(request_packet@, response_payload@) == Some(v@),
                None => spec_build_response(request_packet@, response_payload@) is None,
            },
    {
        build_response_packet(request_packet, response_payload)
    }
}

/// A copy of a byte vector.
fn clone_u8_vec(v: &Vec<u8>) -> (r: Vec<u8>)
    ensures
        r@ == v@,
{
    let mut out: Vec<u8> = Vec::new();
    let mut j: usize = 0;
    let n = v.len();
    while j < n
        invariant
            j <= n,
            n == v@.len(),
            out@ == v@.take(j as int),
        decreases n - j,
    {
        out.push(v[j]);
        proof {
            assert(v@.take(j + 1) =~= v@.take(j as int).push(v@[j as int]));
        }
        j += 1;
    }
    proof {
        assert(v@.take(n as int) =~= v@);
    }
    out
}

} // verus!
