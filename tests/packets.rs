use webshot::os_fingerprint::{
    compute_tcp_checksum, create_syn_package, guess_os, interpret_reply, OsGuess, ReplyKind,
};

const EXPECTED: [u8; 40] = [
    69, 0, 0, 40, 0, 0, 0, 0, 0, 6, 239, 29, 192, 168, 1, 10, 10, 0, 0, 1, 48, 57, 0, 80, 0, 0,
    0, 0, 0, 0, 0, 0, 80, 2, 250, 240, 184, 181, 0, 0,
];

#[test]
fn syn_packet_layout_and_checksums() {
    let packet = create_syn_package(12345, 80, [192, 168, 1, 10], [10, 0, 0, 1]);
    assert_eq!(packet, EXPECTED.to_vec());
}

#[test]
fn syn_packet_checksums_validate_when_recomputed() {
    let src = [172, 16, 254, 3];
    let dst = [8, 8, 4, 4];
    let packet = create_syn_package(40000, 443, src, dst);
    assert_eq!(packet.len(), 40);
    assert_eq!(pnet::util::checksum(&packet[0..20], usize::MAX), 0);
    let mut with_pseudo = Vec::new();
    with_pseudo.extend_from_slice(&src);
    with_pseudo.extend_from_slice(&dst);
    with_pseudo.extend_from_slice(&[0, 6, 0, 20]);
    with_pseudo.extend_from_slice(&packet[20..40]);
    assert_eq!(pnet::util::checksum(&with_pseudo, usize::MAX), 0);
}

#[test]
fn tcp_checksum_of_segment() {
    let header = &EXPECTED[0..20];
    let mut segment = EXPECTED[20..40].to_vec();
    segment[16] = 0;
    segment[17] = 0;
    assert_eq!(compute_tcp_checksum(header, &segment), 0xb8b5);
}

#[test]
fn os_table_is_exact_match() {
    assert_eq!(guess_os(64, 5840), OsGuess::Linux);
    assert_eq!(guess_os(128, 8192), OsGuess::Windows);
    assert_eq!(guess_os(255, 4128), OsGuess::Bsd);
    assert_eq!(guess_os(64, 5841), OsGuess::Unknown);
    assert_eq!(guess_os(63, 5840), OsGuess::Unknown);
    assert_eq!(OsGuess::Linux.label(), "OS Information Likely Linux");
    assert_eq!(OsGuess::Unknown.label(), "No OS Information Found");
}

fn reply(ttl: u8, flags: u8, window: u16, options: &[u8]) -> Vec<u8> {
    let mut p = vec![0u8; 40];
    p[0] = 0x45;
    p[8] = ttl;
    let doff = 5 + (options.len() / 4) as u8;
    p[32] = doff << 4;
    p[33] = flags;
    p[34] = (window >> 8) as u8;
    p[35] = window as u8;
    p.extend_from_slice(options);
    p
}

#[test]
fn reply_reading() {
    let p = reply(64, 0x12, 5840, &[2, 4, 5, 180, 1, 3, 3, 7]);
    let v = interpret_reply(&p).unwrap();
    assert_eq!(v.ttl, 64);
    assert_eq!(v.window, 5840);
    assert_eq!(v.kind, ReplyKind::SynAck);
    assert_eq!(v.options, vec![2, 1, 3]);
    assert_eq!(v.guess, OsGuess::Linux);

    let r = interpret_reply(&reply(128, 0x04, 8192, &[])).unwrap();
    assert_eq!(r.kind, ReplyKind::Reset);
    assert_eq!(r.guess, OsGuess::Windows);
    assert!(r.options.is_empty());

    let o = interpret_reply(&reply(50, 0x10, 1000, &[8, 1, 1, 1])).unwrap();
    assert_eq!(o.kind, ReplyKind::Other);
    assert_eq!(o.options, vec![8, 1, 1]);
    assert_eq!(o.guess, OsGuess::Unknown);

    assert!(interpret_reply(&[0u8; 39]).is_none());
}
