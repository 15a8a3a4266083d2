//! Port validation and the parsing of port ranges and port lists.

use crate::text::{chars_of, random_below, trim, trim_bounds};
use vstd::prelude::*;

verus! {

/// A port number is valid when it is not zero.
pub open spec fn valid_port(port: u16) -> bool {
    port > 0
}

/// Whether `port` lies in 1..=65535.
pub fn is_valid_port(port: u16) -> (r: bool)
    ensures
        r == valid_port(port),
{
    port > 0
}

/// `c` is an ASCII decimal digit.
pub open spec fn is_digit(c: char) -> bool {
    '0' <= c && c <= '9'
}

/// The number that the decimal digits `d` spell.
pub open spec fn digits_value(d: Seq<char>) -> nat
    decreases d.len(),
{
    if d.len() == 0 {
        0
    } else {
        digits_value(d.drop_last()) * 10 + (d.last() as nat - '0' as nat) as nat
    }
}

/// The digits of an unsigned number, without its optional leading `+`.
pub open spec fn unsigned_digits(s: Seq<char>) -> Seq<char> {
    if s.len() > 0 && s[0] == '+' {
        s.drop_first()
    } else {
        s
    }
}

/// The `u16` that `s` spells in decimal, as `str::parse::<u16>` reads it: an
/// optional `+`, then one or more digits, with a value of at most 65535.
pub open spec fn u16_text_value(s: Seq<char>) -> Option<u16> {
    let d = unsigned_digits(s);
    if d.len() > 0 && (forall|i: int| 0 <= i < d.len() ==> is_digit(#[trigger] d[i]))
        && digits_value(d) <= 65535 {
        Some(digits_value(d) as u16)
    } else {
        None
    }
}

/// Reads `cs[lo..hi]` as a decimal `u16`.
pub fn parse_u16(cs: &Vec<char>, lo: usize, hi: usize) -> (r: Option<u16>)
    requires
        lo <= hi <= cs@.len(),
    ensures
        r == u16_text_value(cs@.subrange(lo as int, hi as int)),
{
    let ghost s = cs@.subrange(lo as int, hi as int);
    let start = if lo < hi && cs[lo] == '+' {
        lo + 1
    } else {
        lo
    };
    let ghost d = cs@.subrange(start as int, hi as int);
    assert(unsigned_digits(s) =~= d);
    if start == hi {
        return None;
    }
    let mut acc: u32 = 0;
    let mut i = start;
    while i < hi
        invariant
            lo <= start <= i <= hi <= cs@.len(),
            d == cs@.subrange(start as int, hi as int),
            unsigned_digits(s) == d,
            s == cs@.subrange(lo as int, hi as int),
            forall|k: int| 0 <= k < i - start ==> is_digit(#[trigger] d[k]),
            acc <= 65536,
            acc as nat == if digits_value(cs@.subrange(start as int, i as int)) <= 65536 {
                digits_value(cs@.subrange(start as int, i as int))
            } else {
                65536
            },
        decreases hi - i,
    {
        let c = cs[i];
        if !('0' <= c && c <= '9') {
            assert(!is_digit(d[i - start]));
            return None;
        }
        let ghost prev = cs@.subrange(start as int, i as int);
        let ghost next = cs@.subrange(start as int, i + 1);
        assert(next.drop_last() =~= prev);
        assert(next.last() == c);
        let digit = (c as u32) - ('0' as u32);
        assert(digits_value(next) == digits_value(prev) * 10 + digit);
        let grown = acc * 10 + digit;
        let ghost dp = digits_value(prev);
        let ghost dn = digits_value(next);
        assert(dn == dp * 10 + digit);
        proof {
            if dp > 65536 {
                assert(dp * 10 >= 65536 * 10) by (nonlinear_arith)
                    requires
                        dp > 65536,
                ;
            }
        }
        acc = if grown > 65536 {
            65536
        } else {
            grown
        };
        i += 1;
    }
    assert(cs@.subrange(start as int, hi as int) =~= d);
    if acc > 65535 {
        None
    } else {
        Some(acc as u16)
    }
}

/// Why a port specification was rejected.
#[derive(Debug, Clone, Copy, PartialEq, Eq, Structural)]
pub enum PortRangeError {
    /// A range holds more than one `-`.
    BadFormat,
    /// The start of a range is not a number in 0..=65535.
    BadStart,
    /// The end of a range is not a number in 0..=65535.
    BadEnd,
    /// A bound of a range is 0.
    RangeOutOfBounds,
    /// The start of a range is above its end.
    Reversed,
    /// A single port is not a number in 0..=65535.
    BadPort,
    /// A single port is 0.
    PortOutOfBounds,
}

/// The sentence that describes an error.
pub open spec fn error_message(e: PortRangeError) -> Seq<char> {
    match e {
        PortRangeError::BadFormat => "Invalid port range format. Use: start-end (e.g., 80-443)"@,
        PortRangeError::BadStart => "Invalid start port"@,
        PortRangeError::BadEnd => "Invalid end port"@,
        PortRangeError::RangeOutOfBounds => "Ports must be between 1 and 65535"@,
        PortRangeError::Reversed => "Start port must be less than or equal to end port"@,
        PortRangeError::BadPort => "Invalid port number"@,
        PortRangeError::PortOutOfBounds => "Port must be between 1 and 65535"@,
    }
}

impl PortRangeError {
    /// A sentence that describes the error.
    pub fn message(&self) -> (r: String)
        ensures
            r@ == error_message(*self),
            r@.len() > 0,
    {
        let m = match self {
            PortRangeError::BadFormat => "Invalid port range format. Use: start-end (e.g., 80-443)",
            PortRangeError::BadStart => "Invalid start port",
            PortRangeError::BadEnd => "Invalid end port",
            PortRangeError::RangeOutOfBounds => "Ports must be between 1 and 65535",
            PortRangeError::Reversed => "Start port must be less than or equal to end port",
            PortRangeError::BadPort => "Invalid port number",
            PortRangeError::PortOutOfBounds => "Port must be between 1 and 65535",
        };
        proof {
            reveal_strlit("Invalid port range format. Use: start-end (e.g., 80-443)");
            reveal_strlit("Invalid start port");
            reveal_strlit("Invalid end port");
            reveal_strlit("Ports must be between 1 and 65535");
            reveal_strlit("Start port must be less than or equal to end port");
            reveal_strlit("Invalid port number");
            reveal_strlit("Port must be between 1 and 65535");
        }
        m.to_string()
    }
}

/// `c` occurs in `s`.
pub open spec fn has_char(s: Seq<char>, c: char) -> bool {
    exists|i: int| 0 <= i < s.len() && s[i] == c
}

/// `i` is the first index of `c` in `s`.
pub open spec fn first_at(s: Seq<char>, c: char, i: int) -> bool {
    0 <= i < s.len() && s[i] == c && forall|k: int| 0 <= k < i ==> s[k] != c
}

/// `i` is the only index of `-` in `s`.
pub open spec fn sole_dash(s: Seq<char>, i: int) -> bool {
    0 <= i < s.len() && s[i] == '-' && forall|k: int| 0 <= k < s.len() && s[k] == '-' ==> k == i
}

/// The ports from `a` to `b`, both included, in increasing order.
pub open spec fn port_interval(a: u16, b: u16) -> Seq<u16> {
    Seq::new((b - a + 1) as nat, |k: int| (a + k) as u16)
}

/// Result of a range `left-right`, where a bound of 0 is checked first.
pub open spec fn range_parts_result(left: Seq<char>, right: Seq<char>) -> Result<
    Seq<u16>,
    PortRangeError,
> {
    match (u16_text_value(left), u16_text_value(right)) {
        (None, _) => Err(PortRangeError::BadStart),
        (Some(_), None) => Err(PortRangeError::BadEnd),
        (Some(a), Some(b)) => if a == 0 || b == 0 {
            Err(PortRangeError::RangeOutOfBounds)
        } else if a > b {
            Err(PortRangeError::Reversed)
        } else {
            Ok(port_interval(a, b))
        },
    }
}

/// Result of a single port `s`.
pub open spec fn single_port_result(s: Seq<char>) -> Result<Seq<u16>, PortRangeError> {
    match u16_text_value(s) {
        None => Err(PortRangeError::BadPort),
        Some(p) => if p == 0 {
            Err(PortRangeError::PortOutOfBounds)
        } else {
            Ok(seq![p])
        },
    }
}

/// What `parse_port_range` gives for the text `s`: a range `a-b` with one
/// dash, or a single port.
pub open spec fn port_range_result(s: Seq<char>) -> Result<Seq<u16>, PortRangeError> {
    if has_char(s, '-') {
        if exists|i: int| sole_dash(s, i) {
            let i = choose|i: int| sole_dash(s, i);
            range_parts_result(s.subrange(0, i), s.subrange(i + 1, s.len() as int))
        } else {
            Err(PortRangeError::BadFormat)
        }
    } else {
        single_port_result(s)
    }
}

/// The view of a parse result.
pub open spec fn ports_view(r: Result<Vec<u16>, PortRangeError>) -> Result<
    Seq<u16>,
    PortRangeError,
> {
    match r {
        Ok(v) => Ok(v@),
        Err(e) => Err(e),
    }
}

/// A range written as two dash-free texts around one dash: when both are
/// numbers `a` and `b` with `1 <= a <= b` it parses to exactly the ports of
/// `[a, b]`; when `a > b`, when a bound is 0, or when a bound is not a number
/// in 0..=65535 (so also one above 65535), it is rejected. A single port 0 is
/// rejected as well.
pub proof fn port_range_law(left: Seq<char>, right: Seq<char>)
    requires
        !has_char(left, '-'),
        !has_char(right, '-'),
    ensures
        ({
            let s = left + seq!['-'] + right;
            match (u16_text_value(left), u16_text_value(right)) {
                (Some(a), Some(b)) => {
                    &&& (1 <= a <= b ==> port_range_result(s) == Ok::<Seq<u16>, PortRangeError>(port_interval(a, b)))
                    &&& (1 <= a <= b ==> forall|p: u16| #[trigger]
                        port_interval(a, b).contains(p) <==> a <= p <= b)
                    &&& (a > b ==> port_range_result(s).is_err())
                    &&& (a == 0 || b == 0 ==> port_range_result(s).is_err())
                },
                _ => port_range_result(s).is_err(),
            }
        }),
        u16_text_value(left) == Some(0u16) ==> port_range_result(left).is_err(),
{
    let s = left + seq!['-'] + right;
    let i = left.len() as int;
    assert(s[i] == '-');
    assert forall|k: int| 0 <= k < s.len() && s[k] == '-' implies k == i by {
        if k < i {
            assert(s[k] == left[k]);
        } else if k > i {
            assert(s[k] == right[k - i - 1]);
        }
    }
    assert(sole_dash(s, i));
    assert(has_char(s, '-'));
    let chosen = choose|j: int| sole_dash(s, j);
    assert(chosen == i);
    assert(s.subrange(0, i) =~= left);
    assert(s.subrange(i + 1, s.len() as int) =~= right);
    if let (Some(a), Some(b)) = (u16_text_value(left), u16_text_value(right)) {
        if 1 <= a <= b {
            assert forall|p: u16| #[trigger] port_interval(a, b).contains(p) <==> a <= p <= b by {
                if a <= p <= b {
                    assert(port_interval(a, b)[p - a] == p);
                }
            }
        }
    }
}

/// The ports from `a` to `b`, both included.
fn interval_vec(a: u16, b: u16) -> (r: Vec<u16>)
    requires
        a <= b,
    ensures
        r@ == port_interval(a, b),
{
    let mut r: Vec<u16> = Vec::new();
    let mut p: u32 = a as u32;
    while p <= b as u32
        invariant
            a <= p <= b as u32 + 1,
            r@ == port_interval(a, (p - 1) as u16).take(p - a),
            r@.len() == p - a,
            forall|k: int| 0 <= k < r@.len() ==> #[trigger] r@[k] == a + k,
        decreases b as u32 + 1 - p,
    {
        r.push(p as u16);
        p += 1;
    }
    assert(r@ =~= port_interval(a, b));
    r
}

/// Position of the first `c` in `cs[lo..hi]`, or `hi` when there is none.
pub fn find_char(cs: &Vec<char>, lo: usize, hi: usize, c: char) -> (r: usize)
    requires
        lo <= hi <= cs@.len(),
    ensures
        lo <= r <= hi,
        forall|k: int| lo <= k < r ==> cs@[k] != c,
        r < hi ==> cs@[r as int] == c,
{
    let mut i = lo;
    while i < hi && cs[i] != c
        invariant
            lo <= i <= hi <= cs@.len(),
            forall|k: int| lo <= k < i ==> cs@[k] != c,
        decreases hi - i,
    {
        i += 1;
    }
    i
}

/// Parses a port specification: either a single port (`"80"`) or an
/// inclusive range with one dash (`"80-443"`). Ports must lie in 1..=65535
/// and a range must not run backwards.
pub fn parse_port_range(range: &str) -> (r: Result<Vec<u16>, PortRangeError>)
    ensures
        ports_view(r) == port_range_result(range@),
{
    let cs = chars_of(range);
    let n = cs.len();
    let ghost s = cs@;
    let d = find_char(&cs, 0, n, '-');
    if d == n {
        assert(!has_char(s, '-'));
        assert(cs@.subrange(0, n as int) =~= s);
        return match parse_u16(&cs, 0, n) {
            None => Err(PortRangeError::BadPort),
            Some(p) => {
                if p == 0 {
                    Err(PortRangeError::PortOutOfBounds)
                } else {
                    let mut v: Vec<u16> = Vec::new();
                    v.push(p);
                    assert(v@ =~= seq![p]);
                    Ok(v)
                }
            },
        };
    }
    assert(cs@.subrange(0, n as int) =~= s);
    assert(has_char(s, '-'));
    let d2 = find_char(&cs, d + 1, n, '-');
    if d2 < n {
        assert(!sole_dash(s, d as int));
        assert forall|i: int| !sole_dash(s, i) by {
            if sole_dash(s, i) {
                assert(i == d);
            }
        }
        return Err(PortRangeError::BadFormat);
    }
    assert(sole_dash(s, d as int));
    let ghost chosen = choose|i: int| sole_dash(s, i);
    assert(chosen == d);
    let start = match parse_u16(&cs, 0, d) {
        None => {
            return Err(PortRangeError::BadStart);
        },
        Some(v) => v,
    };
    let end = match parse_u16(&cs, d + 1, n) {
        None => {
            return Err(PortRangeError::BadEnd);
        },
        Some(v) => v,
    };
    if start == 0 || end == 0 {
        return Err(PortRangeError::RangeOutOfBounds);
    }
    if start > end {
        return Err(PortRangeError::Reversed);
    }
    Ok(interval_vec(start, end))
}

/// Result of a range in a port list, whose bounds are already trimmed; a
/// reversed range is reported before a bound of 0.
pub open spec fn list_range_result(left: Seq<char>, right: Seq<char>) -> Result<
    Seq<u16>,
    PortRangeError,
> {
    match (u16_text_value(left), u16_text_value(right)) {
        (None, _) => Err(PortRangeError::BadStart),
        (Some(_), None) => Err(PortRangeError::BadEnd),
        (Some(a), Some(b)) => if a > b {
            Err(PortRangeError::Reversed)
        } else if a == 0 {
            Err(PortRangeError::RangeOutOfBounds)
        } else {
            Ok(port_interval(a, b))
        },
    }
}

/// Result of one entry of a port list: a range with one dash whose bounds
/// are trimmed, or a single port, trimmed.
pub open spec fn list_item_result(s: Seq<char>) -> Result<Seq<u16>, PortRangeError> {
    if has_char(s, '-') {
        if exists|i: int| sole_dash(s, i) {
            let i = choose|i: int| sole_dash(s, i);
            list_range_result(trim(s.subrange(0, i)), trim(s.subrange(i + 1, s.len() as int)))
        } else {
            Err(PortRangeError::BadFormat)
        }
    } else {
        single_port_result(trim(s))
    }
}

/// Result of a comma-separated port list: the entries' ports in order, or
/// the error of the first entry that fails.
pub open spec fn comma_list_result(s: Seq<char>) -> Result<Seq<u16>, PortRangeError>
    decreases s.len(),
{
    if exists|i: int| first_at(s, ',', i) {
        let i = choose|i: int| first_at(s, ',', i);
        match list_item_result(trim(s.subrange(0, i))) {
            Err(e) => Err(e),
            Ok(v) => prepend_ports(v, comma_list_result(s.subrange(i + 1, s.len() as int))),
        }
    } else {
        list_item_result(trim(s))
    }
}

/// What the command line's port argument means: every port when `all` is
/// set, else a comma-separated list of entries, else one entry.
pub open spec fn port_argument_result(s: Seq<char>, all: bool) -> Result<Seq<u16>, PortRangeError> {
    if all {
        Ok(port_interval(1, 65535))
    } else if exists|i: int| first_at(s, ',', i) {
        comma_list_result(s)
    } else {
        list_item_result(s)
    }
}

/// Parses one entry `cs[lo..hi]` of a port list.
fn parse_list_item(cs: &Vec<char>, lo: usize, hi: usize) -> (r: Result<Vec<u16>, PortRangeError>)
    requires
        lo <= hi <= cs@.len(),
    ensures
        ports_view(r) == list_item_result(cs@.subrange(lo as int, hi as int)),
{
    let ghost s = cs@.subrange(lo as int, hi as int);
    let d = find_char(cs, lo, hi, '-');
    if d == hi {
        assert(!has_char(s, '-')) by {
            if has_char(s, '-') {
                let k = choose|k: int| 0 <= k < s.len() && s[k] == '-';
                assert(cs@[lo + k] == '-');
            }
        }
        let (a, b) = trim_bounds(cs, lo, hi);
        return match parse_u16(cs, a, b) {
            None => Err(PortRangeError::BadPort),
            Some(p) => {
                if p == 0 {
                    Err(PortRangeError::PortOutOfBounds)
                } else {
                    let mut v: Vec<u16> = Vec::new();
                    v.push(p);
                    assert(v@ =~= seq![p]);
                    Ok(v)
                }
            },
        };
    }
    let ghost i = d - lo;
    assert(s[i] == '-');
    assert(has_char(s, '-'));
    let d2 = find_char(cs, d + 1, hi, '-');
    if d2 < hi {
        assert(s[d2 - lo] == '-');
        assert forall|j: int| !sole_dash(s, j) by {
            if sole_dash(s, j) {
                assert(j == i);
                assert(d2 - lo == j);
            }
        }
        return Err(PortRangeError::BadFormat);
    }
    assert forall|k: int| 0 <= k < s.len() && s[k] == '-' implies k == i by {
        assert(s[k] == cs@[lo + k]);
    }
    assert(sole_dash(s, i));
    let ghost chosen = choose|j: int| sole_dash(s, j);
    assert(chosen == i);
    assert(s.subrange(0, i) =~= cs@.subrange(lo as int, d as int));
    assert(s.subrange(i + 1, s.len() as int) =~= cs@.subrange(d + 1, hi as int));
    let (la, lb) = trim_bounds(cs, lo, d);
    let (ra, rb) = trim_bounds(cs, d + 1, hi);
    let start = match parse_u16(cs, la, lb) {
        None => {
            return Err(PortRangeError::BadStart);
        },
        Some(v) => v,
    };
    let end = match parse_u16(cs, ra, rb) {
        None => {
            return Err(PortRangeError::BadEnd);
        },
        Some(v) => v,
    };
    if start > end {
        return Err(PortRangeError::Reversed);
    }
    if start == 0 {
        return Err(PortRangeError::RangeOutOfBounds);
    }
    Ok(interval_vec(start, end))
}

/// `v` followed by the ports of `r`, or the error of `r`.
pub open spec fn prepend_ports(v: Seq<u16>, r: Result<Seq<u16>, PortRangeError>) -> Result<
    Seq<u16>,
    PortRangeError,
> {
    match r {
        Err(e) => Err(e),
        Ok(w) => Ok(v + w),
    }
}

proof fn lemma_comma_step(t: Seq<char>, i: int)
    requires
        first_at(t, ',', i),
    ensures
        comma_list_result(t) == match list_item_result(trim(t.subrange(0, i))) {
            Err(e) => Err(e),
            Ok(v) => prepend_ports(v, comma_list_result(t.subrange(i + 1, t.len() as int))),
        },
{
    let chosen = choose|j: int| first_at(t, ',', j);
    assert(chosen == i) by {
        if chosen < i {
            assert(t[chosen] == ',');
        } else if chosen > i {
            assert(t[i] == ',');
        }
    }
}

proof fn lemma_prepend_assoc(a: Seq<u16>, b: Seq<u16>, r: Result<Seq<u16>, PortRangeError>)
    ensures
        prepend_ports(a, prepend_ports(b, r)) == prepend_ports(a + b, r),
{
    if let Ok(w) = r {
        assert(a + (b + w) =~= (a + b) + w);
    }
}

/// Parses the command line's port argument: every port when `all` is set;
/// otherwise a comma-separated list whose entries are single ports or
/// inclusive ranges `a-b`, white space around entries and bounds ignored.
pub fn parse_port_argument(ports: &str, all: bool) -> (r: Result<Vec<u16>, PortRangeError>)
    ensures
        ports_view(r) == port_argument_result(ports@, all),
{
    if all {
        return Ok(interval_vec(1, 65535));
    }
    let cs = chars_of(ports);
    let n = cs.len();
    let ghost s = cs@;
    assert(cs@.subrange(0, n as int) =~= s);
    let first = find_char(&cs, 0, n, ',');
    if first == n {
        assert(!exists|i: int| first_at(s, ',', i));
        return parse_list_item(&cs, 0, n);
    }
    assert(first_at(s, ',', first as int));
    let mut acc: Vec<u16> = Vec::new();
    assert(acc@ + Seq::<u16>::empty() =~= Seq::<u16>::empty());
    proof {
        if let Ok(w) = comma_list_result(s) {
            assert(acc@ + w =~= w);
        }
    }
    let mut start: usize = 0;
    let mut c = first;
    while c < n
        invariant
            start <= c <= n == cs@.len(),
            s == cs@,
            s == ports@,
            !all,
            first_at(s, ',', first as int),
            c < n ==> cs@[c as int] == ',',
            forall|k: int| start <= k < c ==> cs@[k] != ',',
            comma_list_result(s) == prepend_ports(
                acc@,
                comma_list_result(cs@.subrange(start as int, n as int)),
            ),
        decreases n - start,
    {
        let ghost t = cs@.subrange(start as int, n as int);
        let ghost i = c - start;
        assert(first_at(t, ',', i));
        proof {
            lemma_comma_step(t, i);
        }
        assert(t.subrange(0, i) =~= cs@.subrange(start as int, c as int));
        assert(t.subrange(i + 1, t.len() as int) =~= cs@.subrange(c + 1, n as int));
        let (a, b) = trim_bounds(&cs, start, c);
        let item = parse_list_item(&cs, a, b);
        assert(trim(t.subrange(0, i)) == cs@.subrange(a as int, b as int));
        match item {
            Err(e) => {
                assert(comma_list_result(t) == Err::<Seq<u16>, PortRangeError>(e));
                return Err(e);
            },
            Ok(mut v) => {
                let ghost old_acc = acc@;
                let ghost vv = v@;
                acc.append(&mut v);
                assert(acc@ =~= old_acc + vv);
                proof {
                    lemma_prepend_assoc(
                        old_acc,
                        vv,
                        comma_list_result(cs@.subrange(c + 1, n as int)),
                    );
                }
            },
        }
        start = c + 1;
        c = find_char(&cs, start, n, ',');
    }
    let ghost t = cs@.subrange(start as int, n as int);
    assert(!exists|i: int| first_at(t, ',', i)) by {
        if exists|i: int| first_at(t, ',', i) {
            let i = choose|i: int| first_at(t, ',', i);
            assert(cs@[start + i] == ',');
        }
    }
    assert(cs@.subrange(start as int, c as int) =~= t);
    let (a, b) = trim_bounds(&cs, start, c);
    let item = parse_list_item(&cs, a, b);
    match item {
        Err(e) => Err(e),
        Ok(mut v) => {
            let ghost old_acc = acc@;
            let ghost vv = v@;
            acc.append(&mut v);
            assert(acc@ =~= old_acc + vv);
            Ok(acc)
        },
    }
}

/// Characters that random strings are drawn from.
pub open spec fn random_charset() -> Seq<char> {
    "ABCDEFGHIJKLMNOPQRSTUVWXYZabcdefghijklmnopqrstuvwxyz0123456789"@
}

/// A string of `length` characters, each drawn at random from the ASCII
/// letters and digits.
pub fn random_string(length: usize) -> (r: String)
    ensures
        r@.len() == length,
        forall|i: int| 0 <= i < length ==> random_charset().contains(#[trigger] r@[i]),
{
    let charset = "ABCDEFGHIJKLMNOPQRSTUVWXYZabcdefghijklmnopqrstuvwxyz0123456789";
    proof {
        reveal_strlit("ABCDEFGHIJKLMNOPQRSTUVWXYZabcdefghijklmnopqrstuvwxyz0123456789");
    }
    let mut out = String::new();
    let mut i: usize = 0;
    while i < length
        invariant
            charset@ == random_charset(),
            charset@.len() == 62,
            i <= length,
            out@.len() == i,
            forall|k: int| 0 <= k < i ==> random_charset().contains(#[trigger] out@[k]),
        decreases length - i,
    {
        let idx = random_below(62);
        let piece = charset.substring_char(idx, idx + 1);
        let ghost before = out@;
        out.append(piece);
        assert(out@[i as int] == charset@[idx as int]);
        assert forall|k: int| 0 <= k < i + 1 implies random_charset().contains(#[trigger] out@[k]) by {
            if k < i {
                assert(out@[k] == before[k]);
            }
        }
        i += 1;
    }
    out
}

/// Whether `domain` is a valid domain name (see [`crate::dns::is_valid_domain`]).
pub fn is_valid_domain(domain: &str) -> (r: bool)
    ensures
        r == crate::dns::valid_domain(domain@),
{
    crate::dns::is_valid_domain(domain)
}

} // verus!
