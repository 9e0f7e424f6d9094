//! Network isolation policy and the rule that decides which connections an
//! isolated environment may open.

use vstd::prelude::*;
use crate::text::{
    chars_of, ends_with, has_prefix, has_suffix, lemma_split_nonempty, parse_u16_range,
    parse_u16_spec, split_bounds, split_on, starts_with, strings_of, texts_of,
};
use crate::error::BlastResult;
use crate::strmap::StrMap;
use crate::text::push_text;
use crate::time::system_now;
use vstd::string::StringExecFns;

verus! {

/// Network interface configuration
#[derive(Debug, Clone)]
pub struct NetworkInterfaceConfig {
    /// Interface name
    pub name: String,
    /// IP address
    pub ip_address: Option<String>,
    /// Network mask
    pub netmask: Option<String>,
    /// Gateway
    pub gateway: Option<String>,
    /// MTU
    pub mtu: Option<u32>,
}

/// Network policy configuration
#[derive(Debug, Clone)]
pub struct NetworkPolicy {
    /// Allow outbound connections
    pub allow_outbound: bool,
    /// Allow inbound connections
    pub allow_inbound: bool,
    /// Allowed outbound ports
    pub allowed_outbound_ports: Vec<u16>,
    /// Allowed inbound ports
    pub allowed_inbound_ports: Vec<u16>,
    /// Allowed domains
    pub allowed_domains: Vec<String>,
    /// Allowed IPs
    pub allowed_ips: Vec<String>,
    /// DNS servers
    pub dns_servers: Vec<String>,
    /// Network bandwidth limit (bytes/sec)
    pub bandwidth_limit: Option<u64>,
    /// Network interface configuration
    pub interface_config: NetworkInterfaceConfig,
}

/// Network protocol
#[derive(Debug, Clone, Copy, PartialEq, Eq, Structural)]
pub enum Protocol {
    TCP,
    UDP,
    ICMP,
}

/// Connection state
#[derive(Debug, Clone, Copy, PartialEq, Eq, Structural)]
pub enum ConnectionState {
    New,
    Established,
    Closing,
    Closed,
}

/// Connection information
#[derive(Debug)]
pub struct ConnectionInfo {
    /// Source address
    pub source: String,
    /// Destination address
    pub destination: String,
    /// Protocol
    pub protocol: Protocol,
    /// Connection state
    pub state: ConnectionState,
    /// Bytes sent
    pub bytes_sent: u64,
    /// Bytes received
    pub bytes_received: u64,
    /// Created timestamp
    pub created_at: std::time::SystemTime,
    /// Last activity timestamp
    pub last_activity: std::time::SystemTime,
}

impl Clone for ConnectionInfo {
    fn clone(&self) -> (r: Self)
        ensures
            r == *self,
    {
        ConnectionInfo {
            source: self.source.clone(),
            destination: self.destination.clone(),
            protocol: self.protocol,
            state: self.state,
            bytes_sent: self.bytes_sent,
            bytes_received: self.bytes_received,
            created_at: self.created_at.clone(),
            last_activity: self.last_activity.clone(),
        }
    }
}

impl Default for ConnectionInfo {
    /// An empty new TCP connection, created now.
    fn default() -> (c: Self)
        ensures
            c.source@.len() == 0,
            c.destination@.len() == 0,
            c.protocol == Protocol::TCP,
            c.state == ConnectionState::New,
            c.bytes_sent == 0,
            c.bytes_received == 0,
            c.created_at == c.last_activity,
    {
        let now = system_now();
        ConnectionInfo {
            source: String::new(),
            destination: String::new(),
            protocol: Protocol::TCP,
            state: ConnectionState::New,
            bytes_sent: 0,
            bytes_received: 0,
            created_at: now.clone(),
            last_activity: now,
        }
    }
}

/// The key a connection is tracked under: `source:destination`.
pub open spec fn connection_key(source: Seq<char>, destination: Seq<char>) -> Seq<char> {
    source + ":"@ + destination
}

/// The port written after the first `:` of a destination, when it parses.
pub open spec fn destination_port(dest: Seq<char>) -> Option<u16> {
    let pieces = split_on(dest, ':');
    if pieces.len() >= 2 {
        parse_u16_spec(pieces[1])
    } else {
        None
    }
}

/// Whether a policy lets a connection to `dest` with `protocol` through:
/// only TCP and UDP, only with outbound traffic allowed, only to an allowed
/// IP prefix or domain suffix, and, when the destination names a port, only
/// to an allowed port.
pub open spec fn connection_allowed(
    allow_outbound: bool,
    ips: Seq<Seq<char>>,
    domains: Seq<Seq<char>>,
    ports: Seq<u16>,
    dest: Seq<char>,
    protocol: Protocol,
) -> bool {
    &&& protocol != Protocol::ICMP
    &&& allow_outbound
    &&& ((exists|i: int| 0 <= i < ips.len() && has_prefix(dest, #[trigger] ips[i])) || (exists|j: int|
        0 <= j < domains.len() && has_suffix(dest, #[trigger] domains[j])))
    &&& match destination_port(dest) {
        Some(p) => ports.contains(p),
        None => true,
    }
}

/// The connections of an isolated environment, the traffic they carried
/// and the policy that admits them. The traffic totals are kept; the rates
/// derived from them are not.
#[derive(Debug)]
pub struct NetworkState {
    connections: StrMap<ConnectionInfo>,
    bytes_sent: u64,
    bytes_received: u64,
    last_update: std::time::SystemTime,
    policy: NetworkPolicy,
}

impl NetworkState {
    /// The tracked connections by key (see `connection_key`).
    pub closed spec fn connections_spec(&self) -> Map<Seq<char>, ConnectionInfo> {
        self.connections@
    }

    /// The tracked connections in the order the state keeps them.
    pub closed spec fn stored_connections(&self) -> Seq<ConnectionInfo> {
        self.connections.pairs_spec().map_values(|e: (String, ConnectionInfo)| e.1)
    }

    /// Total bytes sent.
    pub closed spec fn bytes_sent_spec(&self) -> u64 {
        self.bytes_sent
    }

    /// Total bytes received.
    pub closed spec fn bytes_received_spec(&self) -> u64 {
        self.bytes_received
    }

    /// The policy.
    pub closed spec fn policy_spec(&self) -> NetworkPolicy {
        self.policy
    }

    /// A state with no connections and no traffic under `policy`.
    pub fn new(policy: NetworkPolicy) -> (s: Self)
        ensures
            s.connections_spec() == Map::<Seq<char>, ConnectionInfo>::empty(),
            s.stored_connections().len() == 0,
            s.bytes_sent_spec() == 0,
            s.bytes_received_spec() == 0,
            s.policy_spec() == policy,
    {
        NetworkState {
            connections: StrMap::new(),
            bytes_sent: 0,
            bytes_received: 0,
            last_update: system_now(),
            policy,
        }
    }

    /// Tracks a connection under `source:destination`, replacing one
    /// tracked there before.
    pub fn track_connection(&mut self, info: ConnectionInfo) -> (r: BlastResult<()>)
        ensures
            r is Ok,
            final(self).connections_spec() == old(self).connections_spec().insert(
                connection_key(info.source@, info.destination@),
                info,
            ),
            final(self).bytes_sent_spec() == old(self).bytes_sent_spec(),
            final(self).bytes_received_spec() == old(self).bytes_received_spec(),
            final(self).policy_spec() == old(self).policy_spec(),
    {
        let mut key = String::new();
        push_text(&mut key, info.source.as_str());
        push_text(&mut key, ":");
        push_text(&mut key, info.destination.as_str());
        assert(key@ == connection_key(info.source@, info.destination@));
        let _ = self.connections.insert(key, info);
        Ok(())
    }

    /// Adds traffic to the totals and notes when.
    pub fn update_bandwidth(&mut self, bytes_sent: u64, bytes_received: u64) -> (r: BlastResult<()>)
        requires
            old(self).bytes_sent_spec() + bytes_sent <= u64::MAX,
            old(self).bytes_received_spec() + bytes_received <= u64::MAX,
        ensures
            r is Ok,
            final(self).bytes_sent_spec() == old(self).bytes_sent_spec() + bytes_sent,
            final(self).bytes_received_spec() == old(self).bytes_received_spec() + bytes_received,
            final(self).connections_spec() == old(self).connections_spec(),
            final(self).policy_spec() == old(self).policy_spec(),
    {
        self.bytes_sent = self.bytes_sent + bytes_sent;
        self.bytes_received = self.bytes_received + bytes_received;
        self.last_update = system_now();
        Ok(())
    }

    /// The tracked connections, in the order the state keeps them.
    pub fn get_active_connections(&self) -> (r: BlastResult<Vec<ConnectionInfo>>)
        ensures
            r matches Ok(v) && v@ == self.stored_connections(),
    {
        let mut v: Vec<ConnectionInfo> = Vec::new();
        let n = self.connections.len();
        let mut i: usize = 0;
        while i < n
            invariant
                n == self.stored_connections().len(),
                i <= n,
                v@ == self.stored_connections().take(i as int),
            decreases n - i,
        {
            let (_, c) = self.connections.entry_at(i);
            v.push(c.clone());
            assert(self.stored_connections().take(i + 1) =~= self.stored_connections().take(i as int).push(
                self.stored_connections()[i as int],
            ));
            i += 1;
        }
        assert(self.stored_connections().take(n as int) =~= self.stored_connections());
        Ok(v)
    }

    /// Check if connection is allowed
    pub fn is_connection_allowed(&self, source: &str, dest: &str, protocol: Protocol) -> (b: bool)
        ensures
            b == connection_allowed(
                self.policy_spec().allow_outbound,
                texts_of(self.policy_spec().allowed_ips@),
                texts_of(self.policy_spec().allowed_domains@),
                self.policy_spec().allowed_outbound_ports@,
                dest@,
                protocol,
            ),
    {
        let policy = &self.policy;
        let ghost ips = texts_of(policy.allowed_ips@);
        let ghost domains = texts_of(policy.allowed_domains@);
        match protocol {
            Protocol::TCP | Protocol::UDP => {
                if !policy.allow_outbound {
                    return false;
                }
            },
            Protocol::ICMP => return false,
        }
        let d = chars_of(dest);
        let mut ip_ok = false;
        let mut i: usize = 0;
        while i < policy.allowed_ips.len()
            invariant
                d@ == dest@,
                ips == texts_of(policy.allowed_ips@),
                i <= policy.allowed_ips@.len(),
                ip_ok == (exists|k: int| 0 <= k < i && has_prefix(dest@, #[trigger] ips[k])),
            decreases policy.allowed_ips@.len() - i,
        {
            if starts_with(&d, policy.allowed_ips[i].as_str()) {
                ip_ok = true;
            }
            proof {
                if ip_ok && !(exists|k: int| 0 <= k < i && has_prefix(dest@, #[trigger] ips[k])) {
                    assert(has_prefix(dest@, ips[i as int]));
                }
            }
            i += 1;
        }
        let mut domain_ok = false;
        let mut j: usize = 0;
        while j < policy.allowed_domains.len()
            invariant
                d@ == dest@,
                domains == texts_of(policy.allowed_domains@),
                j <= policy.allowed_domains@.len(),
                domain_ok == (exists|k: int|
                    0 <= k < j && has_suffix(dest@, #[trigger] domains[k])),
            decreases policy.allowed_domains@.len() - j,
        {
            if ends_with(&d, policy.allowed_domains[j].as_str()) {
                domain_ok = true;
            }
            proof {
                if domain_ok && !(exists|k: int|
                    0 <= k < j && has_suffix(dest@, #[trigger] domains[k])) {
                    assert(has_suffix(dest@, domains[j as int]));
                }
            }
            j += 1;
        }
        if !ip_ok && !domain_ok {
            return false;
        }
        let pieces = split_bounds(&d, 0, d.len(), ':');
        proof {
            assert(d@.subrange(0, d@.len() as int) =~= dest@);
            lemma_split_nonempty(dest@, ':');
        }
        if pieces.len() >= 2 {
            let (a, b) = pieces[1];
            if let Some(port) = parse_u16_range(&d, a, b) {
                let mut k: usize = 0;
                while k < policy.allowed_outbound_ports.len()
                    invariant
                        k <= policy.allowed_outbound_ports@.len(),
                        destination_port(dest@) == Some(port),
                        *policy == self.policy,
                        protocol != Protocol::ICMP,
                        policy.allow_outbound,
                        ips == texts_of(policy.allowed_ips@),
                        domains == texts_of(policy.allowed_domains@),
                        (exists|i: int| 0 <= i < ips.len() && has_prefix(dest@, #[trigger] ips[i])) || (
                        exists|j: int| 0 <= j < domains.len() && has_suffix(dest@, #[trigger] domains[j])),
                        forall|m: int| 0 <= m < k ==> policy.allowed_outbound_ports@[m] != port,
                    decreases policy.allowed_outbound_ports@.len() - k,
                {
                    if policy.allowed_outbound_ports[k] == port {
                        assert(policy.allowed_outbound_ports@[k as int] == port);
                        return true;
                    }
                    k += 1;
                }
                return false;
            }
        }
        true
    }
}

impl Default for NetworkPolicy {
    fn default() -> (p: Self)
        ensures
            !p.allow_outbound,
            !p.allow_inbound,
            p.allowed_outbound_ports@ == seq![443u16, 80u16],
            p.allowed_inbound_ports@.len() == 0,
            texts_of(p.allowed_domains@) == seq!["pypi.org"@, "files.pythonhosted.org"@],
            p.allowed_ips@.len() == 0,
            texts_of(p.dns_servers@) == seq!["1.1.1.1"@],
            p.bandwidth_limit == Some(10485760u64),
            p.interface_config.name@ == "blast0"@,
            p.interface_config.ip_address is None,
            p.interface_config.netmask is None,
            p.interface_config.gateway is None,
            p.interface_config.mtu == Some(1500u32),
    {
        let mut ports: Vec<u16> = Vec::new();
        ports.push(443);
        ports.push(80);
        let p = NetworkPolicy {
            allow_outbound: false,
            allow_inbound: false,
            allowed_outbound_ports: ports,
            allowed_inbound_ports: Vec::new(),
            allowed_domains: strings_of(&["pypi.org", "files.pythonhosted.org"]),
            allowed_ips: Vec::new(),
            dns_servers: strings_of(&["1.1.1.1"]),
            bandwidth_limit: Some(10485760),
            interface_config: NetworkInterfaceConfig {
                name: String::from_str("blast0"),
                ip_address: None,
                netmask: None,
                gateway: None,
                mtu: Some(1500),
            },
        };
        assert(p.allowed_outbound_ports@ =~= seq![443u16, 80u16]);
        assert(texts_of(p.allowed_domains@) =~= seq!["pypi.org"@, "files.pythonhosted.org"@]);
        assert(texts_of(p.dns_servers@) =~= seq!["1.1.1.1"@]);
        p
    }
}

/// ICMP is never allowed, whatever the policy and the destination.
pub proof fn law_icmp_never_allowed(
    allow_outbound: bool,
    ips: Seq<Seq<char>>,
    domains: Seq<Seq<char>>,
    ports: Seq<u16>,
    dest: Seq<char>,
)
    ensures
        !connection_allowed(allow_outbound, ips, domains, ports, dest, Protocol::ICMP),
{
}

/// With outbound connections switched off nothing is allowed, whatever the
/// lists of addresses, domains and ports say.
pub proof fn law_outbound_off_blocks_all(
    ips: Seq<Seq<char>>,
    domains: Seq<Seq<char>>,
    ports: Seq<u16>,
    dest: Seq<char>,
    protocol: Protocol,
)
    ensures
        !connection_allowed(false, ips, domains, ports, dest, protocol),
{
}

} // verus!
