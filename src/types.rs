//! Records that a scan produces: per-port results, service fingerprints and
//! the run summary.

use vstd::prelude::*;

verus! {

/// The view of an optional text field.
pub open spec fn opt_text(o: Option<String>) -> Option<Seq<char>> {
    match o {
        Some(s) => Some(s@),
        None => None,
    }
}

/// Optional enrichment of a classified service.
#[derive(Debug, Clone)]
pub struct ServiceFingerprint {
    /// The name of the service
    pub name: String,
    /// The version of the service
    pub version: Option<String>,
    /// The vendor of the service
    pub vendor: Option<String>,
    /// The product name
    pub product: Option<String>,
    /// Additional information about the service
    pub extra_info: Option<String>,
}

impl ServiceFingerprint {
    /// A fingerprint that knows only the service name.
    pub fn new(name: String) -> (r: Self)
        ensures
            r.name@ == name@,
            r.version.is_none(),
            r.vendor.is_none(),
            r.product.is_none(),
            r.extra_info.is_none(),
    {
        ServiceFingerprint { name, version: None, vendor: None, product: None, extra_info: None }
    }

    /// Set the version.
    pub fn with_version(self, version: String) -> (r: Self)
        ensures
            r.name@ == self.name@,
            opt_text(r.version) == Some(version@),
            opt_text(r.vendor) == opt_text(self.vendor),
            opt_text(r.product) == opt_text(self.product),
            opt_text(r.extra_info) == opt_text(self.extra_info),
    {
        ServiceFingerprint { version: Some(version), ..self }
    }

    /// Set the vendor.
    pub fn with_vendor(self, vendor: String) -> (r: Self)
        ensures
            r.name@ == self.name@,
            opt_text(r.version) == opt_text(self.version),
            opt_text(r.vendor) == Some(vendor@),
            opt_text(r.product) == opt_text(self.product),
            opt_text(r.extra_info) == opt_text(self.extra_info),
    {
        ServiceFingerprint { vendor: Some(vendor), ..self }
    }

    /// Set the product.
    pub fn with_product(self, product: String) -> (r: Self)
        ensures
            r.name@ == self.name@,
            opt_text(r.version) == opt_text(self.version),
            opt_text(r.vendor) == opt_text(self.vendor),
            opt_text(r.product) == Some(product@),
            opt_text(r.extra_info) == opt_text(self.extra_info),
    {
        ServiceFingerprint { product: Some(product), ..self }
    }

    /// Set extra information.
    pub fn with_extra_info(self, extra_info: String) -> (r: Self)
        ensures
            r.name@ == self.name@,
            opt_text(r.version) == opt_text(self.version),
            opt_text(r.vendor) == opt_text(self.vendor),
            opt_text(r.product) == opt_text(self.product),
            opt_text(r.extra_info) == Some(extra_info@),
    {
        ServiceFingerprint { extra_info: Some(extra_info), ..self }
    }
}

/// Relies on `chrono::Utc::now` and `DateTime::timestamp_millis`: the
/// current time in milliseconds since the Unix epoch; nothing is known of
/// its value.
#[verifier::external_body]
fn now_millis() -> (r: i64) {
    chrono::Utc::now().timestamp_millis()
}

/// The result of probing one port.
#[derive(Debug, Clone)]
pub struct ScanResult {
    /// The port that was scanned
    pub port: u16,
    /// The protocol used (TCP or UDP)
    pub protocol: String,
    /// Whether the port is open
    pub is_open: bool,
    /// The service running on the port
    pub service: String,
    /// The banner/response from the service
    pub banner: String,
    /// The IP address of the target
    pub target_ip: Option<String>,
    /// The hostname if a domain was provided
    pub hostname: Option<String>,
    /// When the result was made, in milliseconds since the Unix epoch
    pub timestamp_ms: i64,
}

/// The service label of a closed port.
pub open spec fn closed_service() -> Seq<char> {
    "Closed"@
}

impl ScanResult {
    /// A result with the given fields, stamped with the current time.
    pub fn new(
        port: u16,
        protocol: String,
        is_open: bool,
        service: String,
        banner: String,
        target_ip: Option<String>,
        hostname: Option<String>,
    ) -> (r: Self)
        ensures
            r.port == port,
            r.protocol@ == protocol@,
            r.is_open == is_open,
            r.service@ == service@,
            r.banner@ == banner@,
            opt_text(r.target_ip) == opt_text(target_ip),
            opt_text(r.hostname) == opt_text(hostname),
    {
        ScanResult {
            port,
            protocol,
            is_open,
            service,
            banner,
            target_ip,
            hostname,
            timestamp_ms: now_millis(),
        }
    }

    /// A result for an open port.
    pub fn open(
        port: u16,
        protocol: String,
        service: String,
        banner: String,
        target_ip: Option<String>,
        hostname: Option<String>,
    ) -> (r: Self)
        ensures
            r.port == port,
            r.protocol@ == protocol@,
            r.is_open,
            r.service@ == service@,
            r.banner@ == banner@,
            opt_text(r.target_ip) == opt_text(target_ip),
            opt_text(r.hostname) == opt_text(hostname),
    {
        Self::new(port, protocol, true, service, banner, target_ip, hostname)
    }

    /// A result for a closed port: service "Closed", empty banner.
    pub fn closed(port: u16, protocol: String, target_ip: Option<String>, hostname: Option<String>) -> (r: Self)
        ensures
            r.port == port,
            r.protocol@ == protocol@,
            !r.is_open,
            r.service@ == closed_service(),
            r.banner@ == Seq::<char>::empty(),
            opt_text(r.target_ip) == opt_text(target_ip),
            opt_text(r.hostname) == opt_text(hostname),
    {
        proof {
            reveal_strlit("");
        }
        Self::new(port, protocol, false, "Closed".to_string(), "".to_string(), target_ip, hostname)
    }
}

/// Aggregate counts of a scan.
#[derive(Debug, Clone)]
pub struct ScanSummary {
    /// Total number of ports scanned
    pub total_ports: usize,
    /// Number of open ports found
    pub open_ports: usize,
    /// Number of closed ports
    pub closed_ports: usize,
    /// Number of filtered ports
    pub filtered_ports: usize,
    /// Scan duration in milliseconds
    pub duration_ms: u64,
    /// Target information
    pub target: String,
    /// Protocol used
    pub protocol: String,
    /// When the scan started, in milliseconds since the Unix epoch
    pub start_time_ms: i64,
    /// When the scan completed, in milliseconds since the Unix epoch
    pub end_time_ms: i64,
}

/// Open ports per 10000 ports scanned, rounded down; 0 for no ports.
pub open spec fn rate_hundredths(open: nat, total: nat) -> nat {
    if total == 0 {
        0
    } else {
        open * 10000 / total
    }
}

impl ScanSummary {
    /// A summary at the start of a scan: no counts yet, no time elapsed.
    pub fn new(target: String, protocol: String, total_ports: usize) -> (r: Self)
        ensures
            r.total_ports == total_ports,
            r.open_ports == 0,
            r.closed_ports == 0,
            r.filtered_ports == 0,
            r.duration_ms == 0,
            r.target@ == target@,
            r.protocol@ == protocol@,
            r.end_time_ms == r.start_time_ms,
    {
        let now = now_millis();
        ScanSummary {
            total_ports,
            open_ports: 0,
            closed_ports: 0,
            filtered_ports: 0,
            duration_ms: 0,
            target,
            protocol,
            start_time_ms: now,
            end_time_ms: now,
        }
    }

    /// The summary at the end of a scan: the final counts, the end time, and
    /// the time elapsed since the start (0 if the clock went backwards).
    pub fn complete(self, open_ports: usize, closed_ports: usize, filtered_ports: usize) -> (r: Self)
        ensures
            r.total_ports == self.total_ports,
            r.open_ports == open_ports,
            r.closed_ports == closed_ports,
            r.filtered_ports == filtered_ports,
            r.target@ == self.target@,
            r.protocol@ == self.protocol@,
            r.start_time_ms == self.start_time_ms,
            r.duration_ms == if r.end_time_ms >= r.start_time_ms {
                r.end_time_ms - r.start_time_ms
            } else {
                0
            },
    {
        let end = now_millis();
        let duration_ms: u64 = if end >= self.start_time_ms {
            (end as i128 - self.start_time_ms as i128) as u64
        } else {
            0
        };
        ScanSummary {
            open_ports,
            closed_ports,
            filtered_ports,
            duration_ms,
            end_time_ms: end,
            ..self
        }
    }

    /// The success rate (open ports over ports scanned) in hundredths of a
    /// percent, rounded down; 0 when no port was scanned.
    pub fn success_rate_hundredths(&self) -> (r: u128)
        ensures
            r == rate_hundredths(self.open_ports as nat, self.total_ports as nat),
    {
        if self.total_ports == 0 {
            0
        } else {
            self.open_ports as u128 * 10000 / self.total_ports as u128
        }
    }
}

} // verus!
