//! Raw TCP SYN packet construction with its IPv4 and TCP checksums, and the
//! reading of a reply into a best-effort guess of the remote operating system.

use vstd::prelude::*;

verus! {

/// The big-endian 16-bit word at word index `k` of `data`.
pub open spec fn be_word(data: Seq<u8>, k: int) -> int {
    data[2 * k] as int * 256 + data[2 * k + 1] as int
}

/// Sum of the first `n` big-endian words of `data`, word `skip` left out.
pub open spec fn word_sum(data: Seq<u8>, skip: int, n: int) -> int
    decreases n,
{
    if n <= 0 {
        0
    } else {
        word_sum(data, skip, n - 1) + if n - 1 == skip {
            0
        } else {
            be_word(data, n - 1)
        }
    }
}

/// Sum of all big-endian words of `data`, word `skip` left out; an odd last
/// byte counts as the high byte of a word.
pub open spec fn be_words_sum(data: Seq<u8>, skip: int) -> int {
    word_sum(data, skip, (data.len() / 2) as int) + if data.len() % 2 == 1 && data.len() / 2 != skip {
        data[data.len() - 1] as int * 256
    } else {
        0
    }
}

/// One step of adding the carries above 16 bits back in.
pub open spec fn fold16(s: int) -> int {
    if s < 65536 {
        s
    } else {
        s / 65536 + s % 65536
    }
}

/// The Internet checksum of `data` (the one's complement of the
/// one's-complement sum of its 16-bit words), word `skip` left out.
pub open spec fn internet_checksum(data: Seq<u8>, skip: int) -> u16 {
    if data.len() == 0 {
        0
    } else {
        (65535 - fold16(fold16(be_words_sum(data, skip)))) as u16
    }
}

/// Relies on `pnet::util::checksum`: it sums the big-endian words of `data`
/// in a `u32` (word `skipword` left out, an odd last byte padded with zero),
/// folds the carries back in and returns the complement; 0 for no data.
#[verifier::external_body]
fn checksum(data: &[u8], skipword: usize) -> (r: u16)
    requires
        data@.len() <= 65536,
    ensures
        r == internet_checksum(data@, skipword as int),
{
    pnet::util::checksum(data, skipword)
}

/// A word index beyond any buffer: no word is left out of the sum.
pub const NO_SKIPPED_WORD: usize = 0xffff_ffff;

/// The high byte of `v`.
pub open spec fn hi(v: u16) -> u8 {
    (v / 256) as u8
}

/// The low byte of `v`.
pub open spec fn lo(v: u16) -> u8 {
    (v % 256) as u8
}

/// An IPv4 header without options for a 40-byte TCP packet from `src` to
/// `dst`, with `ck` in its checksum field.
pub open spec fn ip_header_bytes(src: Seq<u8>, dst: Seq<u8>, ck: u16) -> Seq<u8> {
    seq![0x45u8, 0, 0, 40, 0, 0, 0, 0, 0, 6, hi(ck), lo(ck)] + src + dst
}

/// A TCP header without options (data offset 5) that carries only the SYN
/// flag and a window of 64240, with `ck` in its checksum field.
pub open spec fn tcp_segment_bytes(sport: u16, dport: u16, ck: u16) -> Seq<u8> {
    seq![
        hi(sport),
        lo(sport),
        hi(dport),
        lo(dport),
        0u8,
        0,
        0,
        0,
        0,
        0,
        0,
        0,
        0x50,
        0x02,
        0xfa,
        0xf0,
        hi(ck),
        lo(ck),
        0,
        0,
    ]
}

/// The pseudo-header that prefixes a TCP segment of `len` bytes for its checksum.
pub open spec fn pseudo_header(src: Seq<u8>, dst: Seq<u8>, len: u16) -> Seq<u8> {
    src + dst + seq![0u8, 6, hi(len), lo(len)]
}

/// Checksum of an IPv4 header whose checksum field is zero.
pub open spec fn ip_checksum_of(src: Seq<u8>, dst: Seq<u8>) -> u16 {
    internet_checksum(ip_header_bytes(src, dst, 0), 5)
}

/// Checksum of the SYN segment over its pseudo-header.
pub open spec fn tcp_checksum_of(sport: u16, dport: u16, src: Seq<u8>, dst: Seq<u8>) -> u16 {
    internet_checksum(
        pseudo_header(src, dst, 20) + tcp_segment_bytes(sport, dport, 0),
        NO_SKIPPED_WORD as int,
    )
}

/// The complete 40-byte SYN packet.
pub open spec fn syn_packet(sport: u16, dport: u16, src: Seq<u8>, dst: Seq<u8>) -> Seq<u8> {
    ip_header_bytes(src, dst, ip_checksum_of(src, dst)) + tcp_segment_bytes(
        sport,
        dport,
        tcp_checksum_of(sport, dport, src, dst),
    )
}

fn ip_header(src: [u8; 4], dst: [u8; 4], ck: u16) -> (r: Vec<u8>)
    ensures
        r@ == ip_header_bytes(src@, dst@, ck),
{
    let mut r: Vec<u8> = vec![0x45u8, 0, 0, 40, 0, 0, 0, 0, 0, 6];
    r.push((ck / 256) as u8);
    r.push((ck % 256) as u8);
    let mut i: usize = 0;
    while i < 4
        invariant
            i <= 4,
            r@ == seq![0x45u8, 0, 0, 40, 0, 0, 0, 0, 0, 6, hi(ck), lo(ck)] + src@.subrange(
                0,
                i as int,
            ),
        decreases 4 - i,
    {
        r.push(src[i]);
        i += 1;
        assert(r@ =~= seq![0x45u8, 0, 0, 40, 0, 0, 0, 0, 0, 6, hi(ck), lo(ck)] + src@.subrange(
            0,
            i as int,
        ));
    }
    assert(src@.subrange(0, 4) =~= src@);
    let mut j: usize = 0;
    while j < 4
        invariant
            j <= 4,
            r@ == seq![0x45u8, 0, 0, 40, 0, 0, 0, 0, 0, 6, hi(ck), lo(ck)] + src@ + dst@.subrange(
                0,
                j as int,
            ),
        decreases 4 - j,
    {
        r.push(dst[j]);
        j += 1;
        assert(r@ =~= seq![0x45u8, 0, 0, 40, 0, 0, 0, 0, 0, 6, hi(ck), lo(ck)] + src@
            + dst@.subrange(0, j as int));
    }
    assert(dst@.subrange(0, 4) =~= dst@);
    r
}

fn tcp_segment(sport: u16, dport: u16, ck: u16) -> (r: Vec<u8>)
    ensures
        r@ == tcp_segment_bytes(sport, dport, ck),
{
    let r: Vec<u8> = vec![
        (sport / 256) as u8,
        (sport % 256) as u8,
        (dport / 256) as u8,
        (dport % 256) as u8,
        0u8,
        0,
        0,
        0,
        0,
        0,
        0,
        0,
        0x50,
        0x02,
        0xfa,
        0xf0,
        (ck / 256) as u8,
        (ck % 256) as u8,
        0,
        0,
    ];
    assert(r@ =~= tcp_segment_bytes(sport, dport, ck));
    r
}

/// Appends `b` to `out`.
fn push_all(out: &mut Vec<u8>, b: &[u8])
    ensures
        final(out)@ == old(out)@ + b@,
{
    let mut i: usize = 0;
    while i < b.len()
        invariant
            i <= b@.len(),
            out@ == old(out)@ + b@.subrange(0, i as int),
        decreases b@.len() - i,
    {
        out.push(b[i]);
        i += 1;
        assert(out@ =~= old(out)@ + b@.subrange(0, i as int));
    }
    assert(b@.subrange(0, b@.len() as int) =~= b@);
}

/// The TCP checksum of `tcp_segment` (checksum field zero) sent with the
/// IPv4 header `ip_header`: the Internet checksum over the pseudo-header
/// (source and destination address from the header, a zero byte, protocol
/// 6, the segment length) followed by the segment.
pub fn compute_tcp_checksum(ip_header: &[u8], tcp_segment: &[u8]) -> (r: u16)
    requires
        ip_header@.len() >= 20,
        tcp_segment@.len() <= 65524,
    ensures
        r == internet_checksum(
            pseudo_header(
                ip_header@.subrange(12, 16),
                ip_header@.subrange(16, 20),
                tcp_segment@.len() as u16,
            ) + tcp_segment@,
            NO_SKIPPED_WORD as int,
        ),
{
    let len = tcp_segment.len() as u16;
    let mut data: Vec<u8> = Vec::new();
    push_all(&mut data, &ip_header[12..20]);
    data.push(0);
    data.push(6);
    data.push((len / 256) as u8);
    data.push((len % 256) as u8);
    push_all(&mut data, tcp_segment);
    assert(data@ =~= pseudo_header(
        ip_header@.subrange(12, 16),
        ip_header@.subrange(16, 20),
        len,
    ) + tcp_segment@);
    checksum(data.as_slice(), NO_SKIPPED_WORD)
}

/// Builds the 40-byte SYN probe from `ip` to `dest_ip`: an IPv4 header
/// (version 4, header length 5, total length 40, protocol TCP) and a TCP
/// header (the two ports, SYN only, window 64240), each with its checksum.
pub fn create_syn_package(source_port: u16, destination_port: u16, ip: [u8; 4], dest_ip: [u8; 4]) -> (r: Vec<u8>)
    ensures
        r@ == syn_packet(source_port, destination_port, ip@, dest_ip@),
        r@.len() == 40,
{
    let blank = ip_header(ip, dest_ip, 0);
    let ip_ck = checksum(blank.as_slice(), 5);
    let header = ip_header(ip, dest_ip, ip_ck);
    let bare = tcp_segment(source_port, destination_port, 0);
    let tcp_ck = compute_tcp_checksum(header.as_slice(), bare.as_slice());
    assert(header@.subrange(12, 16) =~= ip@);
    assert(header@.subrange(16, 20) =~= dest_ip@);
    let segment = tcp_segment(source_port, destination_port, tcp_ck);
    let mut packet = header;
    push_all(&mut packet, segment.as_slice());
    packet
}

proof fn lemma_word_sum_bound(data: Seq<u8>, skip: int, n: int)
    requires
        0 <= n,
        2 * n <= data.len(),
    ensures
        0 <= word_sum(data, skip, n) <= n * 65535,
    decreases n,
{
    if n > 0 {
        lemma_word_sum_bound(data, skip, n - 1);
        assert(0 <= be_word(data, n - 1) <= 65535) by {
            assert(data[2 * (n - 1)] <= 255);
            assert(data[2 * (n - 1) + 1] <= 255);
        }
    }
}

/// Leaving out a zero word, or a word index beyond the first `n`, changes nothing.
proof fn lemma_word_sum_skip_zero(data: Seq<u8>, k: int, other: int, n: int)
    requires
        0 <= n,
        2 * n <= data.len(),
        0 <= k < n ==> be_word(data, k) == 0,
        other >= n,
    ensures
        word_sum(data, k, n) == word_sum(data, other, n),
    decreases n,
{
    if n > 0 {
        lemma_word_sum_skip_zero(data, k, other, n - 1);
    }
}

/// Writing `c` into a word that was zero adds `c` to the sum.
proof fn lemma_word_sum_set(d1: Seq<u8>, d2: Seq<u8>, k: int, c: int, skip: int, n: int)
    requires
        0 <= n,
        2 * n <= d1.len() == d2.len(),
        skip >= n,
        forall|j: int| 0 <= j < n && j != k ==> be_word(d1, j) == be_word(d2, j),
        0 <= k < n ==> be_word(d1, k) == 0 && be_word(d2, k) == c,
    ensures
        word_sum(d2, skip, n) == word_sum(d1, skip, n) + if 0 <= k < n {
            c
        } else {
            0
        },
    decreases n,
{
    if n > 0 {
        lemma_word_sum_set(d1, d2, k, c, skip, n - 1);
    }
}

/// Two folds bring a sum below 2^32 to at most 65535, keep it congruent
/// modulo 65535, and keep a positive sum positive.
proof fn lemma_fold(s: int)
    requires
        0 <= s < 0x1_0000_0000,
    ensures
        0 <= fold16(fold16(s)) <= 65535,
        (s - fold16(fold16(s))) % 65535 == 0,
        s > 0 ==> fold16(fold16(s)) > 0,
{
    let q = s / 65536;
    let r = s % 65536;
    assert(s == 65536 * q + r && 0 <= r < 65536 && 0 <= q < 65536) by (nonlinear_arith)
        requires
            0 <= s < 0x1_0000_0000,
            q == s / 65536,
            r == s % 65536,
    ;
    let f1 = fold16(s);
    assert(0 <= f1 <= 131070);
    assert(s - f1 == 65535 * q || s == f1) by (nonlinear_arith)
        requires
            s == 65536 * q + r,
            f1 == if s < 65536 {
                s
            } else {
                q + r
            },
    ;
    let q2 = f1 / 65536;
    let r2 = f1 % 65536;
    assert(f1 == 65536 * q2 + r2 && 0 <= r2 < 65536 && 0 <= q2 <= 1) by (nonlinear_arith)
        requires
            0 <= f1 <= 131070,
            q2 == f1 / 65536,
            r2 == f1 % 65536,
    ;
    let f2 = fold16(f1);
    assert(f1 - f2 == 65535 * q2 || f1 == f2);
    assert((s - f2) % 65535 == 0) by (nonlinear_arith)
        requires
            s - f1 == 65535 * q || s == f1,
            f1 - f2 == 65535 * q2 || f1 == f2,
    ;
    if s > 0 {
        assert(f1 > 0) by (nonlinear_arith)
            requires
                s > 0,
                0 <= q,
                0 <= r,
                s == 65536 * q + r,
                f1 == if s < 65536 {
                    s
                } else {
                    q + r
                },
        ;
        assert(f2 > 0) by (nonlinear_arith)
            requires
                f1 > 0,
                0 <= q2,
                0 <= r2,
                f1 == 65536 * q2 + r2,
                f2 == if f1 < 65536 {
                    f1
                } else {
                    q2 + r2
                },
        ;
    }
}

/// Adding the checksum of a sum to that sum gives a sum whose checksum is zero.
proof fn lemma_checksum_closes(s: int)
    requires
        0 <= s < 0x1_0000_0000 - 65536,
    ensures
        65535 - fold16(fold16(s + (65535 - fold16(fold16(s))))) == 0,
{
    lemma_fold(s);
    let c = 65535 - fold16(fold16(s));
    let t = s + c;
    lemma_fold(t);
    let f = fold16(fold16(t));
    assert(t > 0);
    assert((t - f) % 65535 == 0);
    assert(t % 65535 == 0) by (nonlinear_arith)
        requires
            (s - fold16(fold16(s))) % 65535 == 0,
            t == s + 65535 - fold16(fold16(s)),
    ;
    assert(f == 65535) by (nonlinear_arith)
        requires
            (t - f) % 65535 == 0,
            t % 65535 == 0,
            0 < f <= 65535,
    ;
}

proof fn lemma_split_word(c: u16)
    ensures
        hi(c) as int * 256 + lo(c) as int == c,
{
    assert((c / 256) * 256 + c % 256 == c) by (nonlinear_arith);
    assert(c / 256 < 256) by (nonlinear_arith)
        requires
            c < 65536,
    ;
}

/// The checksums of a built SYN packet validate: recomputed over the bytes
/// that carry them, with no word left out, each comes to zero (for the TCP
/// checksum, with the pseudo-header in front of the segment).
pub proof fn syn_packet_checksums_validate(sport: u16, dport: u16, src: Seq<u8>, dst: Seq<u8>)
    requires
        src.len() == 4,
        dst.len() == 4,
    ensures
        internet_checksum(syn_packet(sport, dport, src, dst).subrange(0, 20), NO_SKIPPED_WORD as int)
            == 0,
        internet_checksum(
            pseudo_header(src, dst, 20) + syn_packet(sport, dport, src, dst).subrange(20, 40),
            NO_SKIPPED_WORD as int,
        ) == 0,
{
    let none = NO_SKIPPED_WORD as int;
    let ip_ck = ip_checksum_of(src, dst);
    let tcp_ck = tcp_checksum_of(sport, dport, src, dst);
    let pkt = syn_packet(sport, dport, src, dst);
    let h0 = ip_header_bytes(src, dst, 0);
    let h1 = ip_header_bytes(src, dst, ip_ck);
    assert(pkt.subrange(0, 20) =~= h1);
    lemma_split_word(ip_ck);
    lemma_split_word(0);
    assert(be_word(h0, 5) == 0);
    lemma_word_sum_skip_zero(h0, 5, none, 10);
    assert forall|j: int| 0 <= j < 10 && j != 5 implies be_word(h0, j) == be_word(h1, j) by {
        assert(h0[2 * j] == h1[2 * j]);
        assert(h0[2 * j + 1] == h1[2 * j + 1]);
    }
    lemma_word_sum_set(h0, h1, 5, ip_ck as int, none, 10);
    lemma_word_sum_bound(h0, none, 10);
    lemma_checksum_closes(be_words_sum(h0, 5));
    let p = pseudo_header(src, dst, 20);
    let t0 = p + tcp_segment_bytes(sport, dport, 0);
    let t1 = p + tcp_segment_bytes(sport, dport, tcp_ck);
    assert(pkt.subrange(20, 40) =~= tcp_segment_bytes(sport, dport, tcp_ck));
    lemma_split_word(tcp_ck);
    assert(t0.len() == 32);
    assert(be_word(t0, 14) == 0);
    assert forall|j: int| 0 <= j < 16 && j != 14 implies be_word(t0, j) == be_word(t1, j) by {
        assert(t0[2 * j] == t1[2 * j]);
        assert(t0[2 * j + 1] == t1[2 * j + 1]);
    }
    lemma_word_sum_set(t0, t1, 14, tcp_ck as int, none, 16);
    lemma_word_sum_bound(t0, none, 16);
    lemma_checksum_closes(be_words_sum(t0, none));
}

/// Operating-system family suggested by a reply.
#[derive(Debug, Clone, Copy, PartialEq, Eq, Structural)]
pub enum OsGuess {
    Linux,
    Windows,
    Bsd,
    /// No exact (TTL, window) pair of the table matched.
    Unknown,
}

/// The exact-match table from (TTL, window) to an OS family.
pub open spec fn os_guess_of(ttl: u8, window: u16) -> OsGuess {
    if ttl == 64 && window == 5840 {
        OsGuess::Linux
    } else if ttl == 128 && window == 8192 {
        OsGuess::Windows
    } else if ttl == 255 && window == 4128 {
        OsGuess::Bsd
    } else {
        OsGuess::Unknown
    }
}

/// Looks up the OS family for an observed TTL and window size.
pub fn guess_os(ttl: u8, window: u16) -> (r: OsGuess)
    ensures
        r == os_guess_of(ttl, window),
{
    match (ttl, window) {
        (64, 5840) => OsGuess::Linux,
        (128, 8192) => OsGuess::Windows,
        (255, 4128) => OsGuess::Bsd,
        _ => OsGuess::Unknown,
    }
}

impl OsGuess {
    /// A sentence that reports the guess.
    pub fn label(&self) -> (r: &'static str)
        ensures
            r@ == os_label(*self),
    {
        match self {
            OsGuess::Linux => "OS Information Likely Linux",
            OsGuess::Windows => "OS Information Likely Windows",
            OsGuess::Bsd => "OS Information Likely BSD",
            OsGuess::Unknown => "No OS Information Found",
        }
    }
}

/// The sentence that reports a guess.
pub open spec fn os_label(g: OsGuess) -> Seq<char> {
    match g {
        OsGuess::Linux => "OS Information Likely Linux"@,
        OsGuess::Windows => "OS Information Likely Windows"@,
        OsGuess::Bsd => "OS Information Likely BSD"@,
        OsGuess::Unknown => "No OS Information Found"@,
    }
}

/// How the reply's TCP flags read.
#[derive(Debug, Clone, Copy, PartialEq, Eq, Structural)]
pub enum ReplyKind {
    /// SYN and ACK, nothing else.
    SynAck,
    /// RST, nothing else.
    Reset,
    Other,
}

/// The kind of a TCP flags byte.
pub open spec fn reply_kind_of(flags: u8) -> ReplyKind {
    if flags == 0x12 {
        ReplyKind::SynAck
    } else if flags == 0x04 {
        ReplyKind::Reset
    } else {
        ReplyKind::Other
    }
}

/// Kind numbers of the TCP options in the TCP header `segment`, in order,
/// as pnet's TCP option iterator reads them.
pub uninterp spec fn tcp_option_kinds_of(segment: Seq<u8>) -> Seq<u8>;

/// Relies on `pnet::packet::tcp::TcpPacket::new` and
/// `TcpPacket::get_options_iter`: the kind number of each option of the TCP
/// header `segment`, in order.
#[verifier::external_body]
fn tcp_option_kinds(segment: &[u8]) -> (r: Vec<u8>)
    ensures
        r@ == tcp_option_kinds_of(segment@),
{
    match pnet::packet::tcp::TcpPacket::new(segment) {
        Some(p) => p.get_options_iter().map(|o| o.get_number().0).collect(),
        None => Vec::new(),
    }
}

/// TCP option kind of a maximum segment size.
pub const OPTION_MSS: u8 = 2;

/// TCP option kind of a window scale.
pub const OPTION_WINDOW_SCALE: u8 = 3;

/// What a reply to the SYN probe shows.
pub struct OsVerdict {
    /// Time to live of the reply's IPv4 header.
    pub ttl: u8,
    /// Window size of the reply's TCP header.
    pub window: u16,
    /// How its flags read.
    pub kind: ReplyKind,
    /// Kind numbers of its TCP options, in order.
    pub options: Vec<u8>,
    /// The OS family that TTL and window suggest.
    pub guess: OsGuess,
}

/// The verdict that a reply packet (IPv4 header of 20 bytes, then TCP) gives.
pub open spec fn verdict_of(v: OsVerdict, packet: Seq<u8>) -> bool {
    let ttl = packet[8];
    let window = (packet[34] as int * 256 + packet[35] as int) as u16;
    &&& v.ttl == ttl
    &&& v.window == window
    &&& v.kind == reply_kind_of(packet[33])
    &&& v.options@ == tcp_option_kinds_of(packet.subrange(20, packet.len() as int))
    &&& v.guess == os_guess_of(ttl, window)
}

/// Reads a reply to the SYN probe: TTL, window size, flag kind and TCP
/// options, and the OS family that TTL and window suggest. Nothing when the
/// packet is too short to hold an IPv4 header and a TCP header.
pub fn interpret_reply(packet: &[u8]) -> (r: Option<OsVerdict>)
    ensures
        packet@.len() < 40 <==> r.is_none(),
        r matches Some(v) ==> verdict_of(v, packet@),
{
    if packet.len() < 40 {
        return None;
    }
    let ttl = packet[8];
    let window = packet[34] as u16 * 256 + packet[35] as u16;
    let flags = packet[33];
    let kind = if flags == 0x12 {
        ReplyKind::SynAck
    } else if flags == 0x04 {
        ReplyKind::Reset
    } else {
        ReplyKind::Other
    };
    let options = tcp_option_kinds(&packet[20..packet.len()]);
    Some(OsVerdict { ttl, window, kind, options, guess: guess_os(ttl, window) })
}

} // verus!
