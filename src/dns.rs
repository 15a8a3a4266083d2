//! Target addresses: the records a name resolves to, the choice among them,
//! and the validation of domain names.

use crate::text::{
    char_utf8_width, chars_of, has_prefix, text_starts_with, utf8_len, utf8_width,
};
use crate::utils::{first_at, has_char};
use vstd::prelude::*;

verus! {

/// An IP address in text form, tagged with its family.
#[derive(Debug, Clone)]
pub enum IpType {
    V4(String),
    V6(String),
}

/// The text of an address.
pub open spec fn ip_text(t: IpType) -> Seq<char> {
    match t {
        IpType::V4(s) => s@,
        IpType::V6(s) => s@,
    }
}

/// The view of an optional address: its family (`true` for IPv6) and text.
pub open spec fn addr_view(o: Option<IpType>) -> Option<(bool, Seq<char>)> {
    match o {
        Some(IpType::V4(s)) => Some((false, s@)),
        Some(IpType::V6(s)) => Some((true, s@)),
        None => None,
    }
}

impl IpType {
    /// The address as a string.
    pub fn to_string(&self) -> (r: String)
        ensures
            r@ == ip_text(*self),
    {
        match self {
            IpType::V4(ip) => ip.clone(),
            IpType::V6(ip) => ip.clone(),
        }
    }

    /// Whether this is an IPv4 address.
    pub fn is_ipv4(&self) -> (r: bool)
        ensures
            r == (self is V4),
    {
        matches!(self, IpType::V4(_))
    }

    /// Whether this is an IPv6 address.
    pub fn is_ipv6(&self) -> (r: bool)
        ensures
            r == (self is V6),
    {
        matches!(self, IpType::V6(_))
    }
}

/// At most one IPv4 and one IPv6 address of a target.
pub struct IpAddresses {
    pub ipv4: Option<IpType>,
    pub ipv6: Option<IpType>,
}

impl IpAddresses {
    /// Each slot holds an address of its own family.
    pub open spec fn wf(&self) -> bool {
        &&& (self.ipv4 matches Some(t) ==> t is V4)
        &&& (self.ipv6 matches Some(t) ==> t is V6)
    }

    /// The first available address, IPv4 preferred.
    pub fn get_primary_ip(&self) -> (r: Option<&IpType>)
        ensures
            r == (if self.ipv4.is_some() {
                Some(&self.ipv4.unwrap())
            } else if self.ipv6.is_some() {
                Some(&self.ipv6.unwrap())
            } else {
                None
            }),
    {
        match &self.ipv4 {
            Some(ip) => Some(ip),
            None => match &self.ipv6 {
                Some(ip) => Some(ip),
                None => None,
            },
        }
    }

    /// All addresses as strings, IPv4 first.
    pub fn get_all_ips(&self) -> (r: Vec<String>)
        ensures
            r@.map_values(|s: String| s@) == (match self.ipv4 {
                Some(t) => seq![ip_text(t)],
                None => Seq::empty(),
            }) + (match self.ipv6 {
                Some(t) => seq![ip_text(t)],
                None => Seq::empty(),
            }),
    {
        let mut ips: Vec<String> = Vec::new();
        if let Some(ip) = &self.ipv4 {
            ips.push(ip.to_string());
        }
        if let Some(ip) = &self.ipv6 {
            ips.push(ip.to_string());
        }
        assert(ips@.map_values(|s: String| s@) =~= (match self.ipv4 {
            Some(t) => seq![ip_text(t)],
            None => Seq::empty(),
        }) + (match self.ipv6 {
            Some(t) => seq![ip_text(t)],
            None => Seq::empty(),
        }));
        ips
    }

    /// Whether any address was found.
    pub fn has_ips(&self) -> (r: bool)
        ensures
            r == (self.ipv4.is_some() || self.ipv6.is_some()),
    {
        self.ipv4.is_some() || self.ipv6.is_some()
    }

    /// The number of addresses held.
    pub fn count(&self) -> (r: usize)
        ensures
            r == (if self.ipv4.is_some() {
                1int
            } else {
                0
            }) + (if self.ipv6.is_some() {
                1int
            } else {
                0
            }),
    {
        let mut count: usize = 0;
        if self.ipv4.is_some() {
            count += 1;
        }
        if self.ipv6.is_some() {
            count += 1;
        }
        count
    }
}

/// Why a target could not be turned into addresses.
#[derive(Debug, Clone, Copy, PartialEq, Eq, Structural)]
pub enum ResolveError {
    /// A URL target without a host.
    InvalidDomainFormat,
    /// The lookup found no address.
    NoAddresses,
    /// No address of the family that the scan needs.
    NoUsableAddress,
}

/// The host of an absolute URL, as `url::Url::parse` and `Url::host_str`
/// read it (`None` when it does not parse or has no host).
pub uninterp spec fn url_host_of(s: Seq<char>) -> Option<Seq<char>>;

/// Relies on `url::Url::parse` and `url::Url::host_str`: the host part of
/// the URL `s`, when it parses and has one.
#[verifier::external_body]
fn url_host(s: &str) -> (r: Option<String>)
    ensures
        match r {
            Some(h) => url_host_of(s@) == Some(h@),
            None => url_host_of(s@).is_none(),
        },
{
    url::Url::parse(s).ok().and_then(|u| u.host_str().map(String::from))
}

/// The name to look up for a target: the host of an `http://` or
/// `https://` URL, otherwise the target itself.
pub open spec fn host_to_resolve(s: Seq<char>) -> Option<Seq<char>> {
    if has_prefix(s, "http://"@) || has_prefix(s, "https://"@) {
        url_host_of(s)
    } else {
        Some(s)
    }
}

/// The name to look up for `domain`; fails on a URL without a host.
pub fn lookup_name(domain: &str) -> (r: Result<String, ResolveError>)
    ensures
        match r {
            Ok(h) => host_to_resolve(domain@) == Some(h@),
            Err(e) => host_to_resolve(domain@).is_none() && e == ResolveError::InvalidDomainFormat,
        },
{
    if text_starts_with(domain, "http://") || text_starts_with(domain, "https://") {
        match url_host(domain) {
            Some(h) => Ok(h),
            None => Err(ResolveError::InvalidDomainFormat),
        }
    } else {
        Ok(domain.to_string())
    }
}

/// The text of the first address of the family (`true` for IPv6) in `found`.
pub open spec fn first_of_family(found: Seq<IpType>, v6: bool) -> Option<Seq<char>>
    decreases found.len(),
{
    if found.len() == 0 {
        None
    } else if (found[0] is V6) == v6 {
        Some(ip_text(found[0]))
    } else {
        first_of_family(found.drop_first(), v6)
    }
}

fn first_address(found: &Vec<IpType>, v6: bool) -> (r: Option<String>)
    ensures
        match r {
            Some(s) => first_of_family(found@, v6) == Some(s@),
            None => first_of_family(found@, v6).is_none(),
        },
{
    let n = found.len();
    let mut i: usize = 0;
    assert(found@.subrange(0, n as int) =~= found@);
    while i < n
        invariant
            n == found@.len(),
            i <= n,
            first_of_family(found@, v6) == first_of_family(found@.subrange(i as int, n as int), v6),
        decreases n - i,
    {
        assert(found@.subrange(i as int, n as int).drop_first() =~= found@.subrange(
            i + 1,
            n as int,
        ));
        if found[i].is_ipv6() == v6 {
            return Some(found[i].to_string());
        }
        i += 1;
    }
    None
}

/// Keeps the first IPv4 and the first IPv6 address that a lookup found;
/// fails when it found none.
pub fn addresses_from_lookup(found: &Vec<IpType>) -> (r: Result<IpAddresses, ResolveError>)
    ensures
        found@.len() == 0 <==> r.is_err(),
        r matches Err(e) ==> e == ResolveError::NoAddresses,
        r matches Ok(a) ==> {
            &&& a.wf()
            &&& addr_view(a.ipv4) == match first_of_family(found@, false) {
                Some(s) => Some((false, s)),
                None => None,
            }
            &&& addr_view(a.ipv6) == match first_of_family(found@, true) {
                Some(s) => Some((true, s)),
                None => None,
            }
        },
{
    if found.len() == 0 {
        return Err(ResolveError::NoAddresses);
    }
    let ipv4 = match first_address(found, false) {
        Some(s) => Some(IpType::V4(s)),
        None => None,
    };
    let ipv6 = match first_address(found, true) {
        Some(s) => Some(IpType::V6(s)),
        None => None,
    };
    Ok(IpAddresses { ipv4, ipv6 })
}

/// The address to scan among `addresses`: the preferred family first, the
/// other one when the preferred is missing.
pub fn choose_address(addresses: &IpAddresses, prefer_ipv6: bool) -> (r: Option<String>)
    ensures
        match r {
            Some(s) => Some(s@) == if prefer_ipv6 {
                if addresses.ipv6.is_some() {
                    Some(ip_text(addresses.ipv6.unwrap()))
                } else {
                    Some(ip_text(addresses.ipv4.unwrap()))
                }
            } else {
                if addresses.ipv4.is_some() {
                    Some(ip_text(addresses.ipv4.unwrap()))
                } else {
                    Some(ip_text(addresses.ipv6.unwrap()))
                }
            },
            None => addresses.ipv4.is_none() && addresses.ipv6.is_none(),
        },
{
    let (first, second) = if prefer_ipv6 {
        (&addresses.ipv6, &addresses.ipv4)
    } else {
        (&addresses.ipv4, &addresses.ipv6)
    };
    match first {
        Some(ip) => Some(ip.to_string()),
        None => match second {
            Some(ip) => Some(ip.to_string()),
            None => None,
        },
    }
}

/// The text of `s` before its first `:` (all of it when there is none).
pub open spec fn before_colon(s: Seq<char>) -> Seq<char> {
    if exists|i: int| first_at(s, ':', i) {
        s.subrange(0, choose|i: int| first_at(s, ':', i))
    } else {
        s
    }
}

/// The host name that a reverse lookup of `ip` gave, from the text of the
/// address it returned: its part before the first `:`, kept only when it is
/// neither empty nor `ip` itself.
pub fn name_from_reverse_lookup(found: &str, ip: &str) -> (r: Option<String>)
    ensures
        match r {
            Some(n) => n@ == before_colon(found@) && n@.len() > 0 && n@ != ip@,
            None => before_colon(found@).len() == 0 || before_colon(found@) == ip@,
        },
{
    let cs = chars_of(found);
    let n = cs.len();
    let c = crate::utils::find_char(&cs, 0, n, ':');
    proof {
        if c < n {
            assert(first_at(cs@, ':', c as int));
            let chosen = choose|i: int| first_at(cs@, ':', i);
            assert(chosen == c) by {
                if chosen < c {
                    assert(cs@[chosen] == ':');
                } else if chosen > c {
                    assert(cs@[c as int] == ':');
                }
            }
        } else {
            assert(!exists|i: int| first_at(cs@, ':', i)) by {
                if exists|i: int| first_at(cs@, ':', i) {
                    let i = choose|i: int| first_at(cs@, ':', i);
                    assert(cs@[i] == ':');
                }
            }
            assert(cs@.subrange(0, n as int) =~= cs@);
        }
    }
    let name = found.substring_char(0, c).to_string();
    let ip_text = ip.to_string();
    if c == 0 || name == ip_text {
        None
    } else {
        Some(name)
    }
}

/// Whether `c` is alphabetic or numeric in Unicode, as `char::is_alphanumeric` says.
pub uninterp spec fn unicode_alphanumeric(c: char) -> bool;

/// Relies on `char::is_alphanumeric`: Unicode `Alphabetic` or numeric; ASCII
/// letters and digits are.
#[verifier::external_body]
fn is_alphanumeric(c: char) -> (r: bool)
    ensures
        r == unicode_alphanumeric(c),
        ('a' <= c <= 'z') || ('A' <= c <= 'Z') || ('0' <= c <= '9') ==> r,
{
    c.is_alphanumeric()
}

/// A label of a domain name: 1 to 63 bytes of alphanumerics and dashes,
/// neither starting nor ending with a dash.
pub open spec fn valid_label(p: Seq<char>) -> bool {
    &&& p.len() > 0
    &&& utf8_len(p) <= 63
    &&& forall|i: int| 0 <= i < p.len() ==> unicode_alphanumeric(#[trigger] p[i]) || p[i] == '-'
    &&& p[0] != '-'
    &&& p.last() != '-'
}

/// Every dot-separated label of `s` is valid.
pub open spec fn valid_labels(s: Seq<char>) -> bool
    decreases s.len(),
{
    if exists|i: int| first_at(s, '.', i) {
        let i = choose|i: int| first_at(s, '.', i);
        valid_label(s.subrange(0, i)) && valid_labels(s.subrange(i + 1, s.len() as int))
    } else {
        valid_label(s)
    }
}

/// A domain name: 1 to 253 bytes, at least two labels, each valid.
pub open spec fn valid_domain(s: Seq<char>) -> bool {
    &&& s.len() > 0
    &&& utf8_len(s) <= 253
    &&& has_char(s, '.')
    &&& valid_labels(s)
}

proof fn lemma_utf8_len_split(s: Seq<char>, i: int)
    requires
        0 <= i <= s.len(),
    ensures
        utf8_len(s.subrange(0, i)) + utf8_len(s.subrange(i, s.len() as int)) == utf8_len(s),
    decreases s.len() - i,
{
    if i < s.len() {
        lemma_utf8_len_split(s, i + 1);
        lemma_utf8_len_push(s.subrange(0, i), s[i]);
        assert(s.subrange(0, i).push(s[i]) =~= s.subrange(0, i + 1));
        lemma_utf8_len_cons(s[i], s.subrange(i + 1, s.len() as int));
        assert(seq![s[i]] + s.subrange(i + 1, s.len() as int) =~= s.subrange(i, s.len() as int));
    } else {
        assert(s.subrange(0, i) =~= s);
        assert(s.subrange(i, s.len() as int).len() == 0);
    }
}

proof fn lemma_utf8_len_push(s: Seq<char>, c: char)
    ensures
        utf8_len(s.push(c)) == utf8_len(s) + utf8_width(c),
{
    assert(s.push(c).drop_last() =~= s);
}

proof fn lemma_utf8_len_cons(c: char, s: Seq<char>)
    ensures
        utf8_len(seq![c] + s) == utf8_width(c) + utf8_len(s),
    decreases s.len(),
{
    if s.len() == 0 {
        assert(seq![c] + s =~= seq![c]);
        assert(seq![c].drop_last() =~= Seq::<char>::empty());
        assert(utf8_len(Seq::<char>::empty()) == 0);
        assert(utf8_len(seq![c]) == utf8_len(seq![c].drop_last()) + utf8_width(c));
    } else {
        lemma_utf8_len_cons(c, s.drop_last());
        assert((seq![c] + s).drop_last() =~= seq![c] + s.drop_last());
        assert((seq![c] + s).last() == s.last());
        assert(utf8_len(seq![c] + s) == utf8_len((seq![c] + s).drop_last()) + utf8_width(s.last()));
    }
}

/// Byte length of the UTF-8 encoding of `cs[lo..hi]`, or `limit + 1` when it exceeds `limit`.
fn utf8_len_capped(cs: &Vec<char>, lo: usize, hi: usize, limit: usize) -> (r: usize)
    requires
        lo <= hi <= cs@.len(),
        limit < usize::MAX - 4,
    ensures
        r <= limit <==> utf8_len(cs@.subrange(lo as int, hi as int)) <= limit,
        r <= limit ==> r == utf8_len(cs@.subrange(lo as int, hi as int)),
{
    let mut total: usize = 0;
    let mut i = lo;
    while i < hi
        invariant
            lo <= i <= hi <= cs@.len(),
            limit < usize::MAX - 4,
            total <= limit,
            total == utf8_len(cs@.subrange(lo as int, i as int)),
        decreases hi - i,
    {
        proof {
            lemma_utf8_len_push(cs@.subrange(lo as int, i as int), cs@[i as int]);
            assert(cs@.subrange(lo as int, i as int).push(cs@[i as int]) =~= cs@.subrange(
                lo as int,
                i + 1,
            ));
        }
        total = total + char_utf8_width(cs[i]);
        i += 1;
        if total > limit {
            proof {
                lemma_utf8_len_split(cs@.subrange(lo as int, hi as int), i - lo);
                assert(cs@.subrange(lo as int, hi as int).subrange(0, i - lo) =~= cs@.subrange(
                    lo as int,
                    i as int,
                ));
            }
            return limit + 1;
        }
    }
    total
}

/// Whether `cs[lo..hi]` is a valid label.
fn label_is_valid(cs: &Vec<char>, lo: usize, hi: usize) -> (r: bool)
    requires
        lo <= hi <= cs@.len(),
    ensures
        r == valid_label(cs@.subrange(lo as int, hi as int)),
{
    let ghost p = cs@.subrange(lo as int, hi as int);
    if lo == hi || utf8_len_capped(cs, lo, hi, 63) > 63 {
        return false;
    }
    let mut i = lo;
    while i < hi
        invariant
            lo <= i <= hi <= cs@.len(),
            p == cs@.subrange(lo as int, hi as int),
            forall|k: int| 0 <= k < i - lo ==> unicode_alphanumeric(#[trigger] p[k]) || p[k] == '-',
        decreases hi - i,
    {
        let c = cs[i];
        if !(is_alphanumeric(c) || c == '-') {
            assert(!(unicode_alphanumeric(p[i - lo]) || p[i - lo] == '-'));
            return false;
        }
        i += 1;
    }
    cs[lo] != '-' && cs[hi - 1] != '-'
}

/// Whether `domain` is a valid domain name: 1 to 253 bytes, split by dots
/// into at least two labels of 1 to 63 bytes, each made of alphanumerics and
/// dashes and neither starting nor ending with a dash.
pub fn is_valid_domain(domain: &str) -> (r: bool)
    ensures
        r == valid_domain(domain@),
{
    let cs = chars_of(domain);
    let n = cs.len();
    if n == 0 {
        return false;
    }
    if utf8_len_capped(&cs, 0, n, 253) > 253 {
        assert(cs@.subrange(0, n as int) =~= cs@);
        return false;
    }
    assert(cs@.subrange(0, n as int) =~= cs@);
    let first = crate::utils::find_char(&cs, 0, n, '.');
    if first == n {
        assert(!has_char(cs@, '.')) by {
            if has_char(cs@, '.') {
                let k = choose|k: int| 0 <= k < cs@.len() && cs@[k] == '.';
                assert(cs@[k] == '.');
            }
        }
        return false;
    }
    assert(has_char(cs@, '.'));
    let mut start: usize = 0;
    let mut c = first;
    while c < n
        invariant
            start <= c <= n == cs@.len(),
            cs@ == domain@,
            c < n ==> cs@[c as int] == '.',
            forall|k: int| start <= k < c ==> cs@[k] != '.',
            valid_labels(cs@) == valid_labels(cs@.subrange(start as int, n as int)),
        decreases n - start,
    {
        let ghost t = cs@.subrange(start as int, n as int);
        let ghost i = c - start;
        assert(first_at(t, '.', i));
        let ghost chosen = choose|j: int| first_at(t, '.', j);
        assert(chosen == i) by {
            if chosen < i {
                assert(t[chosen] == '.');
            } else if chosen > i {
                assert(t[i] == '.');
            }
        }
        assert(t.subrange(0, i) =~= cs@.subrange(start as int, c as int));
        assert(t.subrange(i + 1, t.len() as int) =~= cs@.subrange(c + 1, n as int));
        if !label_is_valid(&cs, start, c) {
            return false;
        }
        start = c + 1;
        c = crate::utils::find_char(&cs, start, n, '.');
    }
    let ghost t = cs@.subrange(start as int, n as int);
    assert(!exists|i: int| first_at(t, '.', i)) by {
        if exists|i: int| first_at(t, '.', i) {
            let i = choose|i: int| first_at(t, '.', i);
            assert(cs@[start + i] == '.');
        }
    }
    label_is_valid(&cs, start, n)
}

} // verus!
