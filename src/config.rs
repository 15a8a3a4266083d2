//! The configuration of one scan.

use vstd::prelude::*;

verus! {

/// Transport protocol of a scan.
#[derive(Debug, Clone, Copy, PartialEq, Eq, Structural)]
pub enum Protocol {
    Tcp,
    Udp,
}

/// The name of a protocol as results record it.
pub open spec fn protocol_name(p: Protocol) -> Seq<char> {
    match p {
        Protocol::Tcp => "TCP"@,
        Protocol::Udp => "UDP"@,
    }
}

impl Protocol {
    /// `"TCP"` or `"UDP"`.
    pub fn as_str(&self) -> (r: &'static str)
        ensures
            r@ == protocol_name(*self),
    {
        match self {
            Protocol::Tcp => "TCP",
            Protocol::Udp => "UDP",
        }
    }
}

/// Address family used for a target given by name.
#[derive(Debug, Clone, Copy, PartialEq, Eq, Structural)]
pub enum AddressFamily {
    V4,
    V6,
}

/// The family a scan resolves names to: the configured one, or by default
/// IPv4 for TCP and IPv6 for UDP.
pub open spec fn effective_family(protocol: Protocol, family: Option<AddressFamily>) -> AddressFamily {
    match family {
        Some(f) => f,
        None => match protocol {
            Protocol::Tcp => AddressFamily::V4,
            Protocol::Udp => AddressFamily::V6,
        },
    }
}

/// Ports probed when none are given.
pub open spec fn default_ports() -> Seq<u16> {
    seq![80u16, 443, 22, 21, 23, 25, 53, 110, 143, 993, 995, 3306, 5432, 6379, 27017]
}

/// Settings of a scan.
#[derive(Debug, Clone)]
pub struct ScanConfig {
    /// Host name or IP address to scan.
    pub target: String,
    /// Ports to probe, in the given order, duplicates kept.
    pub ports: Vec<u16>,
    /// TCP or UDP.
    pub protocol: Protocol,
    /// Timeout of each connection attempt, in milliseconds.
    pub timeout_ms: u64,
    /// Number of probes in flight at once.
    pub concurrency: usize,
    /// Whether to use random user agents.
    pub random_agent: bool,
    /// Whether to output results in JSON format.
    pub json_output: bool,
    /// Whether to show closed ports in results.
    pub show_closed: bool,
    /// Address family for a named target; `None` follows the protocol.
    pub address_family: Option<AddressFamily>,
}

impl ScanConfig {
    /// A configuration for `target` with default values: the common
    /// service ports, TCP, a 5 s timeout, 100 probes at once.
    pub fn new(target: String) -> (r: Self)
        ensures
            r.target@ == target@,
            r.ports@ == default_ports(),
            r.protocol == Protocol::Tcp,
            r.timeout_ms == 5000,
            r.concurrency == 100,
            !r.random_agent,
            !r.json_output,
            !r.show_closed,
            r.address_family.is_none(),
    {
        let ports: Vec<u16> = vec![80, 443, 22, 21, 23, 25, 53, 110, 143, 993, 995, 3306, 5432, 6379, 27017];
        assert(ports@ =~= default_ports());
        ScanConfig {
            target,
            ports,
            protocol: Protocol::Tcp,
            timeout_ms: 5000,
            concurrency: 100,
            random_agent: false,
            json_output: false,
            show_closed: false,
            address_family: None,
        }
    }

    /// `self` with every field but the ports kept.
    pub open spec fn same_but_ports(self, o: Self) -> bool {
        &&& o.target@ == self.target@
        &&& o.protocol == self.protocol
        &&& o.timeout_ms == self.timeout_ms
        &&& o.concurrency == self.concurrency
        &&& o.random_agent == self.random_agent
        &&& o.json_output == self.json_output
        &&& o.show_closed == self.show_closed
        &&& o.address_family == self.address_family
    }

    /// Set the ports to scan.
    pub fn with_ports(self, ports: Vec<u16>) -> (r: Self)
        ensures
            r.ports@ == ports@,
            self.same_but_ports(r),
    {
        ScanConfig { ports, ..self }
    }

    /// Set the protocol.
    pub fn with_protocol(self, protocol: Protocol) -> (r: Self)
        ensures
            r.protocol == protocol,
            r.ports@ == self.ports@,
            self.same_but_ports((ScanConfig { protocol: self.protocol, ..r })),
    {
        ScanConfig { protocol, ..self }
    }

    /// Set the connection timeout, in milliseconds.
    pub fn with_timeout(self, timeout_ms: u64) -> (r: Self)
        ensures
            r.timeout_ms == timeout_ms,
            r.ports@ == self.ports@,
            self.same_but_ports((ScanConfig { timeout_ms: self.timeout_ms, ..r })),
    {
        ScanConfig { timeout_ms, ..self }
    }

    /// Set the number of probes in flight at once.
    pub fn with_concurrency(self, concurrency: usize) -> (r: Self)
        requires
            concurrency > 0,
        ensures
            r.concurrency == concurrency,
            r.ports@ == self.ports@,
            self.same_but_ports((ScanConfig { concurrency: self.concurrency, ..r })),
    {
        ScanConfig { concurrency, ..self }
    }

    /// Enable random user agents.
    pub fn with_random_agent(self, random_agent: bool) -> (r: Self)
        ensures
            r.random_agent == random_agent,
            r.ports@ == self.ports@,
            self.same_but_ports((ScanConfig { random_agent: self.random_agent, ..r })),
    {
        ScanConfig { random_agent, ..self }
    }

    /// Enable JSON output.
    pub fn with_json_output(self, json_output: bool) -> (r: Self)
        ensures
            r.json_output == json_output,
            r.ports@ == self.ports@,
            self.same_but_ports((ScanConfig { json_output: self.json_output, ..r })),
    {
        ScanConfig { json_output, ..self }
    }

    /// Show ports without a result as closed entries.
    pub fn with_show_closed(self, show_closed: bool) -> (r: Self)
        ensures
            r.show_closed == show_closed,
            r.ports@ == self.ports@,
            self.same_but_ports((ScanConfig { show_closed: self.show_closed, ..r })),
    {
        ScanConfig { show_closed, ..self }
    }

    /// Choose the address family for a named target.
    pub fn with_address_family(self, family: AddressFamily) -> (r: Self)
        ensures
            r.address_family == Some(family),
            r.ports@ == self.ports@,
            self.same_but_ports((ScanConfig { address_family: self.address_family, ..r })),
    {
        ScanConfig { address_family: Some(family), ..self }
    }

    /// The number of ports to scan.
    pub fn total_ports(&self) -> (r: usize)
        ensures
            r == self.ports@.len(),
    {
        self.ports.len()
    }

    /// Whether this is a TCP scan.
    pub fn is_tcp(&self) -> (r: bool)
        ensures
            r == (self.protocol == Protocol::Tcp),
    {
        self.protocol == Protocol::Tcp
    }

    /// Whether this is a UDP scan.
    pub fn is_udp(&self) -> (r: bool)
        ensures
            r == (self.protocol == Protocol::Udp),
    {
        self.protocol == Protocol::Udp
    }

    /// The address family that a named target resolves to.
    pub fn address_family(&self) -> (r: AddressFamily)
        ensures
            r == effective_family(self.protocol, self.address_family),
    {
        match self.address_family {
            Some(f) => f,
            None => match self.protocol {
                Protocol::Tcp => AddressFamily::V4,
                Protocol::Udp => AddressFamily::V6,
            },
        }
    }
}

impl Default for ScanConfig {
    /// The defaults of [`ScanConfig::new`] for the local host.
    fn default() -> (r: Self)
        ensures
            r.target@ == "127.0.0.1"@,
            r.ports@ == default_ports(),
            r.protocol == Protocol::Tcp,
            r.timeout_ms == 5000,
            r.concurrency == 100,
            !r.random_agent,
            !r.json_output,
            !r.show_closed,
            r.address_family.is_none(),
    {
        ScanConfig::new("127.0.0.1".to_string())
    }
}

} // verus!
