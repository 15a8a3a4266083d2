//! The scan orchestrator's decisions: which address to probe, how many
//! probes may be in flight, and how probe outcomes become results.

use crate::config::{effective_family, protocol_name, AddressFamily, Protocol, ScanConfig};
use crate::dns::{ip_text, IpAddresses, ResolveError};
use crate::tcp::hit_view;
use crate::types::{closed_service, opt_text, ScanResult, ScanSummary};
use vstd::prelude::*;

verus! {

/// A scan of one target, with the address its probes go to.
pub struct NetworkScanner {
    config: ScanConfig,
    target_ip: Option<String>,
    hostname: Option<String>,
}

impl NetworkScanner {
    /// The configuration of the scan.
    pub closed spec fn config_view(&self) -> ScanConfig {
        self.config
    }

    /// The address that the probes go to.
    pub closed spec fn target_ip_view(&self) -> Option<Seq<char>> {
        opt_text(self.target_ip)
    }

    /// The name the target was given by, when it was not an IP literal.
    pub closed spec fn hostname_view(&self) -> Option<Seq<char>> {
        opt_text(self.hostname)
    }

    /// A scanner for a target written as an IP address: probes go to it
    /// directly and there is no host name.
    pub fn for_ip_literal(config: ScanConfig) -> (r: Self)
        ensures
            r.target_ip_view() == Some(config.target@),
            r.hostname_view().is_none(),
            r.config_view() == config,
    {
        let ip = config.target.clone();
        NetworkScanner { config, target_ip: Some(ip), hostname: None }
    }

    /// A scanner for a named target that resolved to `addresses`: probes go
    /// to the address of the scan's family, and the name is kept. Fails when
    /// there is no address of that family.
    pub fn for_resolved(config: ScanConfig, addresses: &IpAddresses) -> (r: Result<Self, ResolveError>)
        ensures
            ({
                let slot = match effective_family(config.protocol, config.address_family) {
                    AddressFamily::V4 => addresses.ipv4,
                    AddressFamily::V6 => addresses.ipv6,
                };
                match r {
                    Ok(s) => {
                        &&& slot.is_some()
                        &&& s.target_ip_view() == Some(ip_text(slot.unwrap()))
                        &&& s.hostname_view() == Some(config.target@)
                        &&& s.config_view() == config
                    },
                    Err(e) => slot.is_none() && e == ResolveError::NoUsableAddress,
                }
            }),
    {
        let slot = match config.address_family() {
            AddressFamily::V4 => &addresses.ipv4,
            AddressFamily::V6 => &addresses.ipv6,
        };
        match slot {
            Some(ip) => {
                let target_ip = ip.to_string();
                let hostname = config.target.clone();
                Ok(NetworkScanner { config, target_ip: Some(target_ip), hostname: Some(hostname) })
            },
            None => Err(ResolveError::NoUsableAddress),
        }
    }

    /// The scan configuration.
    pub fn config(&self) -> (r: &ScanConfig)
        ensures
            *r == self.config_view(),
    {
        &self.config
    }

    /// The address that the probes go to.
    pub fn target_ip(&self) -> (r: Option<&String>)
        ensures
            match r {
                Some(s) => self.target_ip_view() == Some(s@),
                None => self.target_ip_view().is_none(),
            },
    {
        match &self.target_ip {
            Some(s) => Some(s),
            None => None,
        }
    }

    /// The host name, when the target was given by name.
    pub fn hostname(&self) -> (r: Option<&String>)
        ensures
            match r {
                Some(s) => self.hostname_view() == Some(s@),
                None => self.hostname_view().is_none(),
            },
    {
        match &self.hostname {
            Some(s) => Some(s),
            None => None,
        }
    }
}

/// Admission control: at most `limit` probes hold a permit at once.
pub struct AdmissionGate {
    limit: usize,
    in_flight: usize,
}

impl AdmissionGate {
    /// The permits held never exceed a positive limit.
    pub closed spec fn wf(&self) -> bool {
        0 < self.limit && self.in_flight <= self.limit
    }

    /// The most permits that may be held at once.
    pub closed spec fn limit_view(&self) -> nat {
        self.limit as nat
    }

    /// The permits held now.
    pub closed spec fn in_flight_view(&self) -> nat {
        self.in_flight as nat
    }

    /// Admission for `limit` probes at once, none admitted yet.
    pub fn new(limit: usize) -> (r: Self)
        requires
            limit > 0,
        ensures
            r.wf(),
            r.limit_view() == limit,
            r.in_flight_view() == 0,
    {
        AdmissionGate { limit, in_flight: 0 }
    }

    /// Takes a permit if one is free and says whether it did.
    pub fn try_acquire(&mut self) -> (r: bool)
        requires
            old(self).wf(),
        ensures
            final(self).wf(),
            r == (old(self).in_flight_view() < old(self).limit_view()),
            final(self).limit_view() == old(self).limit_view(),
            final(self).in_flight_view() == old(self).in_flight_view() + if r {
                1nat
            } else {
                0nat
            },
    {
        if self.in_flight < self.limit {
            self.in_flight = self.in_flight + 1;
            true
        } else {
            false
        }
    }

    /// Gives back a permit.
    pub fn release(&mut self)
        requires
            old(self).wf(),
            old(self).in_flight_view() > 0,
        ensures
            final(self).wf(),
            final(self).limit_view() == old(self).limit_view(),
            final(self).in_flight_view() == old(self).in_flight_view() - 1,
    {
        self.in_flight = self.in_flight - 1;
    }

    /// The permits held now.
    pub fn in_flight(&self) -> (r: usize)
        ensures
            r == self.in_flight_view(),
    {
        self.in_flight
    }

    /// The most permits that may be held at once.
    pub fn limit(&self) -> (r: usize)
        ensures
            r == self.limit_view(),
    {
        self.limit
    }
}

/// Probes holding an admission permit never outnumber the limit.
pub proof fn admission_never_exceeds_limit(gate: AdmissionGate)
    requires
        gate.wf(),
    ensures
        gate.in_flight_view() <= gate.limit_view(),
        gate.limit_view() > 0,
{
}

/// The result that an open port's hit becomes.
pub open spec fn open_result_matches(r: ScanResult, protocol: Protocol, hit: (u16, Seq<char>, Seq<char>), hostname: Option<Seq<char>>) -> bool {
    &&& r.port == hit.0
    &&& r.protocol@ == protocol_name(protocol)
    &&& r.is_open
    &&& r.banner@ == hit.1
    &&& r.service@ == hit.2
    &&& r.target_ip.is_none()
    &&& opt_text(r.hostname) == hostname
}

/// The entry that a port without a result becomes when closed ports are shown.
pub open spec fn closed_result_matches(r: ScanResult, protocol: Protocol, port: u16) -> bool {
    &&& r.port == port
    &&& r.protocol@ == protocol_name(protocol)
    &&& !r.is_open
    &&& r.service@ == closed_service()
    &&& r.banner@ == Seq::<char>::empty()
    &&& r.target_ip.is_none()
    &&& r.hostname.is_none()
}

/// A result is either open with a non-empty service label, or closed with
/// the label "Closed" and an empty banner.
pub open spec fn result_invariant(r: ScanResult) -> bool {
    if r.is_open {
        r.service@.len() > 0
    } else {
        r.service@ == closed_service() && r.banner@ == Seq::<char>::empty()
    }
}

/// Gathers the outcomes of a scan's probes into its results.
pub struct RunCollector {
    protocol: Protocol,
    show_closed: bool,
    hostname: Option<String>,
    results: Vec<ScanResult>,
    open: usize,
    missed: usize,
}

impl RunCollector {
    /// One result per hit, and one per miss when closed ports are shown;
    /// every result keeps the result invariant.
    pub closed spec fn wf(&self) -> bool {
        &&& self.results@.len() == self.open + if self.show_closed {
            self.missed as int
        } else {
            0
        }
        &&& forall|i: int| 0 <= i < self.results@.len() ==> result_invariant(#[trigger] self.results@[i])
        &&& self.open == 0 ==> forall|i: int| 0 <= i < self.results@.len() ==> !(#[trigger] self.results@[i]).is_open
    }

    /// The results gathered so far, in the order the outcomes came.
    pub closed spec fn results_view(&self) -> Seq<ScanResult> {
        self.results@
    }

    /// Probes that found the port open.
    pub closed spec fn open_view(&self) -> nat {
        self.open as nat
    }

    /// Probes that got nothing.
    pub closed spec fn missed_view(&self) -> nat {
        self.missed as nat
    }

    /// Whether ports without a result become closed entries.
    pub closed spec fn show_closed_view(&self) -> bool {
        self.show_closed
    }

    /// The protocol recorded in results.
    pub closed spec fn protocol_view(&self) -> Protocol {
        self.protocol
    }

    /// The host name recorded in open results.
    pub closed spec fn hostname_view(&self) -> Option<Seq<char>> {
        opt_text(self.hostname)
    }

    /// A collector for a scan over `protocol`, nothing recorded yet.
    pub fn new(protocol: Protocol, show_closed: bool, hostname: Option<String>) -> (r: Self)
        ensures
            r.wf(),
            r.results_view().len() == 0,
            r.open_view() == 0,
            r.missed_view() == 0,
            r.show_closed_view() == show_closed,
            r.protocol_view() == protocol,
            r.hostname_view() == opt_text(hostname),
    {
        RunCollector { protocol, show_closed, hostname, results: Vec::new(), open: 0, missed: 0 }
    }

    /// Records the outcome of the probe of `port`: a hit becomes an open
    /// result; no hit becomes a closed entry when closed ports are shown and
    /// nothing otherwise.
    pub fn record(&mut self, port: u16, hit: Option<(u16, String, String)>)
        requires
            old(self).wf(),
            old(self).open_view() + old(self).missed_view() < usize::MAX,
            hit matches Some(h) ==> h.2@.len() > 0,
        ensures
            final(self).wf(),
            final(self).show_closed_view() == old(self).show_closed_view(),
            final(self).protocol_view() == old(self).protocol_view(),
            final(self).hostname_view() == old(self).hostname_view(),
            match hit_view(hit) {
                Some(h) => {
                    &&& final(self).open_view() == old(self).open_view() + 1
                    &&& final(self).missed_view() == old(self).missed_view()
                    &&& final(self).results_view().len() == old(self).results_view().len() + 1
                    &&& final(self).results_view().drop_last() == old(self).results_view()
                    &&& open_result_matches(
                        final(self).results_view().last(),
                        old(self).protocol_view(),
                        h,
                        old(self).hostname_view(),
                    )
                },
                None => {
                    &&& final(self).open_view() == old(self).open_view()
                    &&& final(self).missed_view() == old(self).missed_view() + 1
                    &&& if old(self).show_closed_view() {
                        &&& final(self).results_view().len() == old(self).results_view().len() + 1
                        &&& final(self).results_view().drop_last() == old(self).results_view()
                        &&& closed_result_matches(
                            final(self).results_view().last(),
                            old(self).protocol_view(),
                            port,
                        )
                    } else {
                        final(self).results_view() == old(self).results_view()
                    }
                },
            },
    {
        let protocol = self.protocol.as_str().to_string();
        match hit {
            Some((open_port, banner, service)) => {
                let hostname = match &self.hostname {
                    Some(h) => Some(h.clone()),
                    None => None,
                };
                let r = ScanResult::open(open_port, protocol, service, banner, None, hostname);
                self.results.push(r);
                self.open = self.open + 1;
                assert(self.results@.drop_last() =~= old(self).results@);
                assert(forall|i: int| 0 <= i < old(self).results@.len() ==> self.results@[i] == old(self).results@[i]);
            },
            None => {
                self.missed = self.missed + 1;
                if self.show_closed {
                    let r = ScanResult::closed(port, protocol, None, None);
                    self.results.push(r);
                    assert(self.results@.drop_last() =~= old(self).results@);
                    assert(forall|i: int| 0 <= i < old(self).results@.len() ==> self.results@[i] == old(self).results@[i]);
                }
            },
        }
    }

    /// Number of probes that found the port open.
    pub fn open_count(&self) -> (r: usize)
        ensures
            r == self.open_view(),
    {
        self.open
    }

    /// Number of probes that got nothing.
    pub fn missed_count(&self) -> (r: usize)
        ensures
            r == self.missed_view(),
    {
        self.missed
    }

    /// The results gathered.
    pub fn into_results(self) -> (r: Vec<ScanResult>)
        ensures
            r@ == self.results_view(),
    {
        self.results
    }

    /// The summary of the scan that `config` describes: open ports are the
    /// hits, closed ones the probes without a result, none filtered.
    pub fn summary(&self, config: &ScanConfig) -> (r: ScanSummary)
        ensures
            r.total_ports == config.ports@.len(),
            r.open_ports == self.open_view(),
            r.closed_ports == self.missed_view(),
            r.filtered_ports == 0,
            r.target@ == config.target@,
            r.protocol@ == protocol_name(config.protocol),
    {
        let start = ScanSummary::new(
            config.target.clone(),
            config.protocol.as_str().to_string(),
            config.total_ports(),
        );
        start.complete(self.open, self.missed, 0)
    }
}

/// When every probe of a scan got nothing (a target that refuses all
/// connections), the results are one closed entry per probed port if closed
/// ports are shown, and none otherwise; none of them is open.
pub proof fn refusing_target_results(c: RunCollector)
    requires
        c.wf(),
        c.open_view() == 0,
    ensures
        c.results_view().len() == if c.show_closed_view() {
            c.missed_view()
        } else {
            0
        },
        forall|i: int| 0 <= i < c.results_view().len() ==> !(#[trigger] c.results_view()[i]).is_open,
{
}

/// Every result that a scan gathers keeps the result invariant: open ones
/// name a service, closed ones read "Closed" with an empty banner.
pub proof fn gathered_results_keep_invariant(c: RunCollector)
    requires
        c.wf(),
    ensures
        forall|i: int| 0 <= i < c.results_view().len() ==> result_invariant(#[trigger] c.results_view()[i]),
{
}

} // verus!
