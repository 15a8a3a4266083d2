//! Service classification and the decisions that turn one probe into a result.

use crate::text::{
    char_prefix, chars_of, contains_seq, random_below, text_contains, text_prefix, trim,
    trim_bounds,
};
use crate::utils::{find_char, first_at};
use crate::types::{opt_text, ServiceFingerprint};
use vstd::prelude::*;

verus! {

/// Lower-case form of a text, as `str::to_lowercase` gives it.
pub uninterp spec fn lowercase_of(s: Seq<char>) -> Seq<char>;

/// Text decoded from bytes, invalid UTF-8 sequences replaced by U+FFFD.
pub uninterp spec fn lossy_text_of(b: Seq<u8>) -> Seq<char>;

/// Capture group 1 of the leftmost match of the regular expression
/// `pattern` in `text` (`None` when it does not match or does not compile).
pub uninterp spec fn regex_group1(pattern: Seq<char>, text: Seq<char>) -> Option<Seq<char>>;

/// Relies on `str::to_lowercase`: the result depends on the characters alone.
#[verifier::external_body]
fn to_lower(s: &str) -> (r: String)
    ensures
        r@ == lowercase_of(s@),
{
    s.to_lowercase()
}

/// Relies on `String::from_utf8_lossy`: the text decoded from the bytes alone;
/// no bytes give no text.
#[verifier::external_body]
fn decode_lossy(b: &[u8]) -> (r: String)
    ensures
        r@ == lossy_text_of(b@),
        b@.len() == 0 ==> r@.len() == 0,
{
    String::from_utf8_lossy(b).to_string()
}

/// Relies on `regex::Regex::new` and `regex::Regex::captures`: the text of
/// group 1 in the leftmost match of `pattern` in `text`.
#[verifier::external_body]
fn capture_group1(pattern: &str, text: &str) -> (r: Option<String>)
    ensures
        opt_text(r) == regex_group1(pattern@, text@),
{
    match regex::Regex::new(pattern) {
        Ok(re) => re.captures(text).and_then(|c| c.get(1)).map(|m| m.as_str().to_string()),
        Err(_) => None,
    }
}

/// The label that the well-known port table gives to `port`.
pub open spec fn port_service_name(port: u16) -> Seq<char> {
    if port == 21 {
        "FTP"@
    } else if port == 22 {
        "SSH"@
    } else if port == 23 {
        "Telnet"@
    } else if port == 25 {
        "SMTP"@
    } else if port == 53 {
        "DNS"@
    } else if port == 80 {
        "HTTP"@
    } else if port == 81 {
        "HTTP Alternative"@
    } else if port == 110 {
        "POP3"@
    } else if port == 143 {
        "IMAP"@
    } else if port == 443 {
        "HTTPS"@
    } else if port == 993 {
        "IMAPS"@
    } else if port == 995 {
        "POP3S"@
    } else if port == 3306 {
        "MySQL"@
    } else if port == 5432 {
        "PostgreSQL"@
    } else if port == 6379 {
        "Redis"@
    } else if port == 27017 {
        "MongoDB"@
    } else if port == 8080 {
        "HTTP Proxy"@
    } else if port == 8443 {
        "HTTPS Alternative"@
    } else if port == 9200 {
        "Elasticsearch"@
    } else if port == 11211 {
        "Memcached"@
    } else {
        "Unknown Service"@
    }
}

/// Every label of the port table is non-empty.
pub proof fn lemma_port_service_name_nonempty(port: u16)
    ensures
        port_service_name(port).len() > 0,
{
    reveal_strlit("FTP");
    reveal_strlit("SSH");
    reveal_strlit("Telnet");
    reveal_strlit("SMTP");
    reveal_strlit("DNS");
    reveal_strlit("HTTP");
    reveal_strlit("HTTP Alternative");
    reveal_strlit("POP3");
    reveal_strlit("IMAP");
    reveal_strlit("HTTPS");
    reveal_strlit("IMAPS");
    reveal_strlit("POP3S");
    reveal_strlit("MySQL");
    reveal_strlit("PostgreSQL");
    reveal_strlit("Redis");
    reveal_strlit("MongoDB");
    reveal_strlit("HTTP Proxy");
    reveal_strlit("HTTPS Alternative");
    reveal_strlit("Elasticsearch");
    reveal_strlit("Memcached");
    reveal_strlit("Unknown Service");
}

/// Service label for a port that accepts connections without sending a banner.
pub fn detect_service_by_port(port: u16) -> (r: String)
    ensures
        r@ == port_service_name(port),
{
    let name = match port {
        21 => "FTP",
        22 => "SSH",
        23 => "Telnet",
        25 => "SMTP",
        53 => "DNS",
        80 => "HTTP",
        81 => "HTTP Alternative",
        110 => "POP3",
        143 => "IMAP",
        443 => "HTTPS",
        993 => "IMAPS",
        995 => "POP3S",
        3306 => "MySQL",
        5432 => "PostgreSQL",
        6379 => "Redis",
        27017 => "MongoDB",
        8080 => "HTTP Proxy",
        8443 => "HTTPS Alternative",
        9200 => "Elasticsearch",
        11211 => "Memcached",
        _ => "Unknown Service",
    };
    name.to_string()
}

/// Service label that the keyword rules give to a response, from its
/// lower-cased form `lower` and the text `text` as received. The first rule that
/// matches wins.
pub open spec fn service_for_text(lower: Seq<char>, text: Seq<char>) -> Seq<char> {
    if contains_seq(lower, "http"@) || contains_seq(lower, "apache"@) || contains_seq(
        lower,
        "nginx"@,
    ) {
        "HTTP Server"@
    } else if contains_seq(lower, "ssh"@) {
        "SSH"@
    } else if contains_seq(lower, "ftp"@) {
        "FTP"@
    } else if contains_seq(lower, "smtp"@) {
        "SMTP"@
    } else if contains_seq(lower, "pop3"@) {
        "POP3"@
    } else if contains_seq(lower, "imap"@) {
        "IMAP"@
    } else if contains_seq(lower, "mysql"@) {
        "MySQL"@
    } else if contains_seq(lower, "postgresql"@) || contains_seq(lower, "postgres"@) {
        "PostgreSQL"@
    } else if contains_seq(lower, "redis"@) {
        "Redis"@
    } else if contains_seq(lower, "mongodb"@) {
        "MongoDB"@
    } else if contains_seq(lower, "telnet"@) {
        "Telnet"@
    } else if contains_seq(lower, "dns"@) {
        "DNS"@
    } else if text.len() > 0 {
        "Unknown Service ("@ + char_prefix(text, 50) + ")"@
    } else {
        "Unknown Service"@
    }
}

/// Every label that the keyword rules give is non-empty.
pub proof fn lemma_service_for_text_nonempty(lower: Seq<char>, text: Seq<char>)
    ensures
        service_for_text(lower, text).len() > 0,
{
    reveal_strlit("HTTP Server");
    reveal_strlit("SSH");
    reveal_strlit("FTP");
    reveal_strlit("SMTP");
    reveal_strlit("POP3");
    reveal_strlit("IMAP");
    reveal_strlit("MySQL");
    reveal_strlit("PostgreSQL");
    reveal_strlit("Redis");
    reveal_strlit("MongoDB");
    reveal_strlit("Telnet");
    reveal_strlit("DNS");
    reveal_strlit("Unknown Service (");
    reveal_strlit("Unknown Service");
}

/// Service label of a response text.
pub open spec fn response_service(text: Seq<char>) -> Seq<char> {
    service_for_text(lowercase_of(text), text)
}

/// Applies the keyword rules to a response whose lower-cased form is `lower`.
pub fn service_from_lowered(lower: &str, text: &str) -> (r: String)
    ensures
        r@ == service_for_text(lower@, text@),
{
    let name = if text_contains(lower, "http") || text_contains(lower, "apache") || text_contains(
        lower,
        "nginx",
    ) {
        "HTTP Server"
    } else if text_contains(lower, "ssh") {
        "SSH"
    } else if text_contains(lower, "ftp") {
        "FTP"
    } else if text_contains(lower, "smtp") {
        "SMTP"
    } else if text_contains(lower, "pop3") {
        "POP3"
    } else if text_contains(lower, "imap") {
        "IMAP"
    } else if text_contains(lower, "mysql") {
        "MySQL"
    } else if text_contains(lower, "postgresql") || text_contains(lower, "postgres") {
        "PostgreSQL"
    } else if text_contains(lower, "redis") {
        "Redis"
    } else if text_contains(lower, "mongodb") {
        "MongoDB"
    } else if text_contains(lower, "telnet") {
        "Telnet"
    } else if text_contains(lower, "dns") {
        "DNS"
    } else if text.unicode_len() > 0 {
        let mut label = "Unknown Service (".to_string();
        let head = text_prefix(text, 50);
        label.append(head.as_str());
        label.append(")");
        return label;
    } else {
        "Unknown Service"
    };
    name.to_string()
}

/// Classifies a response text into a service label.
pub fn get_service_name(response: &str) -> (r: String)
    ensures
        r@ == response_service(response@),
{
    let lower = to_lower(response);
    service_from_lowered(lower.as_str(), response)
}

/// Patterns for a version, tried in this order.
pub open spec fn version_patterns() -> Seq<Seq<char>> {
    seq![r"(\d+\.\d+\.\d+)"@, r"(\d+\.\d+)"@, r"version[:\s]+([^\s\r\n]+)"@, r"v(\d+\.\d+\.\d+)"@]
}

/// Patterns for a vendor, tried in this order.
pub open spec fn vendor_patterns() -> Seq<Seq<char>> {
    seq![
        r"(Apache|Nginx|Microsoft|Oracle|IBM|Cisco|Juniper|F5|Citrix|VMware)"@,
        r"([A-Z][a-z]+)\s+Software"@,
        r"([A-Z][a-z]+)\s+Corporation"@,
    ]
}

/// Patterns for a product, tried in this order.
pub open spec fn product_patterns() -> Seq<Seq<char>> {
    seq![
        r"(IIS|Apache|Nginx|MySQL|PostgreSQL|Redis|MongoDB|SSH|FTP|SMTP|POP3|IMAP)"@,
        r"([A-Z][a-z]+)\s+Server"@,
        r"([A-Z][a-z]+)\s+Service"@,
    ]
}

/// The capture of the first pattern in `patterns`, from index `k` on, that
/// matches `text`.
pub open spec fn first_capture(patterns: Seq<Seq<char>>, k: int, text: Seq<char>) -> Option<
    Seq<char>,
>
    decreases patterns.len() - k,
{
    if k < 0 || k >= patterns.len() {
        None
    } else {
        match regex_group1(patterns[k], text) {
            Some(c) => Some(c),
            None => first_capture(patterns, k + 1, text),
        }
    }
}

/// Version found in a response, if any.
pub open spec fn version_of(text: Seq<char>) -> Option<Seq<char>> {
    first_capture(version_patterns(), 0, text)
}

/// Vendor found in a response, if any.
pub open spec fn vendor_of(text: Seq<char>) -> Option<Seq<char>> {
    first_capture(vendor_patterns(), 0, text)
}

/// Product found in a response, if any.
pub open spec fn product_of(text: Seq<char>) -> Option<Seq<char>> {
    first_capture(product_patterns(), 0, text)
}

/// Tries the patterns in order and returns the first capture.
fn capture_first(patterns: &[&str], text: &str) -> (r: Option<String>)
    ensures
        opt_text(r) == first_capture(patterns@.map_values(|p: &str| p@), 0, text@),
{
    let ghost pats = patterns@.map_values(|p: &str| p@);
    let mut i: usize = 0;
    while i < patterns.len()
        invariant
            pats == patterns@.map_values(|p: &str| p@),
            i <= patterns@.len(),
            first_capture(pats, 0, text@) == first_capture(pats, i as int, text@),
        decreases patterns@.len() - i,
    {
        let c = capture_group1(patterns[i], text);
        if c.is_some() {
            return c;
        }
        i += 1;
    }
    None
}

/// Extracts a version string from a response.
pub fn extract_version(response: &str) -> (r: Option<String>)
    ensures
        opt_text(r) == version_of(response@),
{
    let patterns: [&str; 4] = [
        r"(\d+\.\d+\.\d+)",
        r"(\d+\.\d+)",
        r"version[:\s]+([^\s\r\n]+)",
        r"v(\d+\.\d+\.\d+)",
    ];
    assert(patterns@.map_values(|p: &str| p@) =~= version_patterns());
    capture_first(&patterns, response)
}

/// Extracts a vendor name from a response.
pub fn extract_vendor(response: &str) -> (r: Option<String>)
    ensures
        opt_text(r) == vendor_of(response@),
{
    let patterns: [&str; 3] = [
        r"(Apache|Nginx|Microsoft|Oracle|IBM|Cisco|Juniper|F5|Citrix|VMware)",
        r"([A-Z][a-z]+)\s+Software",
        r"([A-Z][a-z]+)\s+Corporation",
    ];
    assert(patterns@.map_values(|p: &str| p@) =~= vendor_patterns());
    capture_first(&patterns, response)
}

/// Extracts a product name from a response.
pub fn extract_product(response: &str) -> (r: Option<String>)
    ensures
        opt_text(r) == product_of(response@),
{
    let patterns: [&str; 3] = [
        r"(IIS|Apache|Nginx|MySQL|PostgreSQL|Redis|MongoDB|SSH|FTP|SMTP|POP3|IMAP)",
        r"([A-Z][a-z]+)\s+Server",
        r"([A-Z][a-z]+)\s+Service",
    ];
    assert(patterns@.map_values(|p: &str| p@) =~= product_patterns());
    capture_first(&patterns, response)
}

/// The fingerprint that a response text determines.
pub open spec fn fingerprint_of(f: ServiceFingerprint, text: Seq<char>) -> bool {
    &&& f.name@ == response_service(text)
    &&& opt_text(f.version) == version_of(text)
    &&& opt_text(f.vendor) == vendor_of(text)
    &&& opt_text(f.product) == product_of(text)
    &&& opt_text(f.extra_info) == Some(char_prefix(text, 200))
}

/// Builds the full fingerprint of a response text: the service label, the
/// extracted version, vendor and product (each absent when no rule matches),
/// and the first 200 characters of the response as extra information.
pub fn fingerprint_response(response: &str) -> (r: ServiceFingerprint)
    ensures
        fingerprint_of(r, response@),
{
    let name = get_service_name(response);
    let mut fp = ServiceFingerprint::new(name);
    match extract_version(response) {
        Some(v) => {
            fp = fp.with_version(v);
        },
        None => {},
    }
    match extract_vendor(response) {
        Some(v) => {
            fp = fp.with_vendor(v);
        },
        None => {},
    }
    match extract_product(response) {
        Some(p) => {
            fp = fp.with_product(p);
        },
        None => {},
    }
    fp.with_extra_info(text_prefix(response, 200))
}

/// What one TCP probe observed.
pub enum TcpProbe {
    /// The connection was refused or timed out.
    ConnectFailed,
    /// The connection succeeded and one read returned these bytes (possibly none).
    Received(Vec<u8>),
    /// The connection succeeded and the read failed.
    ReadFailed,
    /// The connection succeeded and the read timed out.
    ReadTimedOut,
}

/// Banner recorded for a port that accepted a connection and sent nothing.
pub open spec fn silent_banner() -> Seq<char> {
    "Accepts Connections"@
}

/// Banner recorded for a port that accepted a connection and whose read timed out.
pub open spec fn timed_out_banner() -> Seq<char> {
    "Accepts Connections (Timeout)"@
}

/// The view of a probe hit: port, banner and service label.
pub open spec fn hit_view(h: Option<(u16, String, String)>) -> Option<(u16, Seq<char>, Seq<char>)> {
    match h {
        Some((p, b, s)) => Some((p, b@, s@)),
        None => None,
    }
}

/// The hit that a response of bytes `b` on `port` yields: the decoded text as
/// banner and its service label, or the port table when no bytes came.
pub open spec fn response_hit(port: u16, b: Seq<u8>, empty_banner: Seq<char>) -> (u16, Seq<char>, Seq<char>) {
    if b.len() > 0 {
        (port, lossy_text_of(b), response_service(lossy_text_of(b)))
    } else {
        (port, empty_banner, port_service_name(port))
    }
}

/// The result of a TCP probe on `port`.
pub open spec fn tcp_probe_hit(port: u16, probe: TcpProbe) -> Option<(u16, Seq<char>, Seq<char>)> {
    match probe {
        TcpProbe::ConnectFailed => None,
        TcpProbe::Received(b) => Some(response_hit(port, b@, silent_banner())),
        TcpProbe::ReadFailed => Some((port, silent_banner(), port_service_name(port))),
        TcpProbe::ReadTimedOut => Some((port, timed_out_banner(), port_service_name(port))),
    }
}

/// The result of a UDP probe on `port` that got `reply`, if anything came back.
pub open spec fn udp_probe_hit(port: u16, reply: Option<Vec<u8>>) -> Option<(u16, Seq<char>, Seq<char>)> {
    match reply {
        Some(b) => Some(response_hit(port, b@, Seq::empty())),
        None => None,
    }
}

/// Classifies the bytes a port answered with.
fn classify_bytes(port: u16, b: &[u8], empty_banner: &str) -> (r: (u16, String, String))
    ensures
        (r.0, r.1@, r.2@) == response_hit(port, b@, empty_banner@),
        r.2@.len() > 0,
{
    proof {
        lemma_port_service_name_nonempty(port);
        lemma_service_for_text_nonempty(lowercase_of(lossy_text_of(b@)), lossy_text_of(b@));
    }
    if b.len() > 0 {
        let text = decode_lossy(b);
        let service = get_service_name(text.as_str());
        (port, text, service)
    } else {
        (port, empty_banner.to_string(), detect_service_by_port(port))
    }
}

/// Turns what a TCP probe observed into a hit: nothing when the connection
/// failed; otherwise the port is open, classified by its response or, when
/// it stayed silent, by the port table.
pub fn classify_tcp_probe(port: u16, probe: TcpProbe) -> (r: Option<(u16, String, String)>)
    ensures
        hit_view(r) == tcp_probe_hit(port, probe),
        r matches Some(h) ==> h.2@.len() > 0,
{
    proof {
        lemma_port_service_name_nonempty(port);
    }
    match probe {
        TcpProbe::ConnectFailed => None,
        TcpProbe::Received(b) => Some(classify_bytes(port, b.as_slice(), "Accepts Connections")),
        TcpProbe::ReadFailed => Some(
            (port, "Accepts Connections".to_string(), detect_service_by_port(port)),
        ),
        TcpProbe::ReadTimedOut => Some(
            (port, "Accepts Connections (Timeout)".to_string(), detect_service_by_port(port)),
        ),
    }
}

/// Turns the reply to a UDP probe into a hit: nothing without a reply.
pub fn classify_udp_reply(port: u16, reply: Option<Vec<u8>>) -> (r: Option<(u16, String, String)>)
    ensures
        hit_view(r) == udp_probe_hit(port, reply),
        r matches Some(h) ==> h.2@.len() > 0,
{
    proof {
        reveal_strlit("");
    }
    match reply {
        Some(b) => Some(classify_bytes(port, b.as_slice(), "")),
        None => None,
    }
}

/// Classification is a function of the response alone: the same bytes give
/// the same service label, banner and fingerprint fields every time.
pub proof fn classification_is_deterministic(a: Seq<u8>, b: Seq<u8>, port: u16)
    requires
        a == b,
    ensures
        response_service(lossy_text_of(a)) == response_service(lossy_text_of(b)),
        version_of(lossy_text_of(a)) == version_of(lossy_text_of(b)),
        vendor_of(lossy_text_of(a)) == vendor_of(lossy_text_of(b)),
        product_of(lossy_text_of(a)) == product_of(lossy_text_of(b)),
        response_hit(port, a, silent_banner()) == response_hit(port, b, silent_banner()),
{
}

/// The user agent used when no list of them is available.
pub open spec fn default_user_agent() -> Seq<char> {
    "Mozilla/5.0 (Windows NT 10.0; Win64; x64) AppleWebKit/537.36"@
}

/// `t` as a one-element list when it is not empty.
pub open spec fn non_empty_line(t: Seq<char>) -> Seq<Seq<char>> {
    if t.len() > 0 {
        seq![t]
    } else {
        Seq::empty()
    }
}

/// The trimmed, non-empty lines of `s`, in order.
pub open spec fn agent_lines(s: Seq<char>) -> Seq<Seq<char>>
    decreases s.len(),
{
    if exists|i: int| first_at(s, '\n', i) {
        let i = choose|i: int| first_at(s, '\n', i);
        non_empty_line(trim(s.subrange(0, i))) + agent_lines(s.subrange(i + 1, s.len() as int))
    } else {
        non_empty_line(trim(s))
    }
}

/// The user agents that a list file holds: its trimmed non-empty lines, or
/// the default agent alone when there are none.
pub open spec fn user_agents_of(content: Seq<char>) -> Seq<Seq<char>> {
    if agent_lines(content).len() == 0 {
        seq![default_user_agent()]
    } else {
        agent_lines(content)
    }
}

proof fn lemma_line_step(t: Seq<char>, i: int)
    requires
        first_at(t, '\n', i),
    ensures
        agent_lines(t) == non_empty_line(trim(t.subrange(0, i))) + agent_lines(
            t.subrange(i + 1, t.len() as int),
        ),
{
    let chosen = choose|j: int| first_at(t, '\n', j);
    assert(chosen == i) by {
        if chosen < i {
            assert(t[chosen] == '\n');
        } else if chosen > i {
            assert(t[i] == '\n');
        }
    }
}

/// The gathered agents, or the default agent alone when there are none.
fn agents_or_default(agents: Vec<String>) -> (r: Vec<String>)
    ensures
        r@.map_values(|s: String| s@) == if agents@.len() == 0 {
            seq![default_user_agent()]
        } else {
            agents@.map_values(|s: String| s@)
        },
{
    if agents.len() == 0 {
        let mut fallback: Vec<String> = Vec::new();
        fallback.push("Mozilla/5.0 (Windows NT 10.0; Win64; x64) AppleWebKit/537.36".to_string());
        assert(fallback@.map_values(|s: String| s@) =~= seq![default_user_agent()]);
        fallback
    } else {
        agents
    }
}

/// Reads the user agents of a list file, one per line.
pub fn parse_user_agents(content: &str) -> (r: Vec<String>)
    ensures
        r@.map_values(|s: String| s@) == user_agents_of(content@),
{
    let cs = chars_of(content);
    let n = cs.len();
    let mut agents: Vec<String> = Vec::new();
    let mut start: usize = 0;
    assert(cs@.subrange(0, n as int) =~= cs@);
    assert(Seq::<Seq<char>>::empty() + agent_lines(cs@) =~= agent_lines(cs@));
    loop
        invariant
            start <= n,
            n == cs@.len(),
            cs@ == content@,
            agents@.map_values(|s: String| s@) + agent_lines(cs@.subrange(start as int, n as int))
                == agent_lines(cs@),
        decreases n - start,
    {
        let ghost t = cs@.subrange(start as int, n as int);
        let ghost before = agents@.map_values(|s: String| s@);
        let c = find_char(&cs, start, n, '\n');
        let (a, b) = trim_bounds(&cs, start, c);
        assert(t.subrange(0, c - start) =~= cs@.subrange(start as int, c as int));
        if a < b {
            agents.push(content.substring_char(a, b).to_string());
        }
        assert(agents@.map_values(|s: String| s@) =~= before + non_empty_line(
            trim(cs@.subrange(start as int, c as int)),
        ));
        if c == n {
            assert(!exists|i: int| first_at(t, '\n', i)) by {
                if exists|i: int| first_at(t, '\n', i) {
                    let i = choose|i: int| first_at(t, '\n', i);
                    assert(cs@[start + i] == '\n');
                }
            }
            assert(t =~= cs@.subrange(start as int, c as int));
            assert(agents@.map_values(|s: String| s@) == agent_lines(cs@));
            return agents_or_default(agents);
        }
        proof {
            lemma_line_step(t, c - start);
            assert(t.subrange(c - start + 1, t.len() as int) =~= cs@.subrange(c + 1, n as int));
            assert(before + (non_empty_line(trim(cs@.subrange(start as int, c as int)))
                + agent_lines(cs@.subrange(c + 1, n as int))) =~= agents@.map_values(
                |s: String| s@,
            ) + agent_lines(cs@.subrange(c + 1, n as int)));
        }
        start = c + 1;
    }
}

/// One of `agents` picked at random, or the default agent when the list is empty.
pub fn get_random_user_agent(agents: &Vec<String>) -> (r: String)
    ensures
        agents@.len() == 0 ==> r@ == default_user_agent(),
        agents@.len() > 0 ==> exists|i: int| 0 <= i < agents@.len() && r@ == agents@[i]@,
{
    if agents.len() == 0 {
        "Mozilla/5.0 (Windows NT 10.0; Win64; x64) AppleWebKit/537.36".to_string()
    } else {
        let i = random_below(agents.len());
        agents[i].clone()
    }
}

} // verus!
