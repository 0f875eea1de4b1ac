use netspeed::icmp::{build_icmp_packet, calculate_icmp_checksum, is_echo_reply, probe_seq};
use netspeed::latency::ProbeTally;
use netspeed::model::TurnInfo;
use netspeed::stun::{
    build_stun_binding_request, is_stun_binding_response, parse_host_port, pick_stun_target,
    record_stun_reply, StunLossProbe, StunTransaction, StunUrlError,
};

fn ones_complement_sum(d: &[u8]) -> u32 {
    let mut s: u32 = 0;
    let mut i = 0;
    while i + 1 < d.len() {
        s += ((d[i] as u32) << 8) | d[i + 1] as u32;
        i += 2;
    }
    if i < d.len() {
        s += (d[i] as u32) << 8;
    }
    while s >> 16 != 0 {
        s = (s & 0xffff) + (s >> 16);
    }
    s
}

#[test]
fn echo_request_layout() {
    let p = build_icmp_packet(0x1234, 0x0102);
    assert_eq!(p.len(), 64);
    assert_eq!(p[0], 8);
    assert_eq!(p[1], 0);
    assert_eq!(&p[4..8], &[0x12, 0x34, 0x01, 0x02]);
    assert_eq!(p[2], 0xED);
    assert_eq!(p[3], 0xB6);
    for i in 8..64 {
        assert_eq!(p[i] as usize, i - 8);
    }
}

#[test]
fn echo_request_sums_to_all_ones() {
    for (id, seq) in [(0u16, 0u16), (0x1234, 0x0102), (0xFFFF, 0xFFFF), (4242, 0x0300)] {
        let p = build_icmp_packet(id, seq);
        assert_eq!(ones_complement_sum(&p), 0xFFFF);
        assert_eq!(calculate_icmp_checksum(&p), 0);
    }
}

#[test]
fn checksum_values() {
    assert_eq!(calculate_icmp_checksum(&[0x01]), 0xFEFF);
    assert_eq!(calculate_icmp_checksum(&[0x00, 0x00]), 0xFFFF);
    assert_eq!(calculate_icmp_checksum(&[0xFF, 0xFF, 0xFF, 0xFF]), 0x0000);
}

#[test]
fn probe_sequence_numbers() {
    assert_eq!(probe_seq(1, 0), 0x0100);
    assert_eq!(probe_seq(3, 2), 0x0302);
}

#[test]
fn echo_reply_type_is_zero() {
    assert!(is_echo_reply(0));
    assert!(!is_echo_reply(8));
    assert!(!is_echo_reply(11));
}

#[test]
fn stun_request_bytes() {
    let txid = [1u8, 2, 3, 4, 5, 6, 7, 8, 9, 10, 11, 12];
    let r = build_stun_binding_request(txid);
    assert_eq!(&r[0..8], &[0x00, 0x01, 0x00, 0x00, 0x21, 0x12, 0xA4, 0x42]);
    assert_eq!(&r[8..20], &txid);
}

fn response(txid: [u8; 12]) -> Vec<u8> {
    let mut b = vec![0x01u8, 0x01, 0x00, 0x0C, 0x21, 0x12, 0xA4, 0x42];
    b.extend_from_slice(&txid);
    b.extend_from_slice(&[0x00, 0x20, 0x00, 0x08, 0x00, 0x01, 0xA1, 0x47, 0xE1, 0x12, 0xA6, 0x43]);
    b
}

#[test]
fn stun_response_matching() {
    let txid = [9u8; 12];
    assert!(is_stun_binding_response(&response(txid), txid));
    let mut other = txid;
    other[11] = 0;
    assert!(!is_stun_binding_response(&response(other), txid));
    let mut wrong_type = response(txid);
    wrong_type[1] = 0x11;
    assert!(!is_stun_binding_response(&wrong_type, txid));
    let mut wrong_cookie = response(txid);
    wrong_cookie[7] = 0x43;
    assert!(!is_stun_binding_response(&wrong_cookie, txid));
    assert!(!is_stun_binding_response(&response(txid)[..19], txid));
}

#[test]
fn mismatched_transaction_id_counts_as_loss() {
    let txid = [3u8; 12];
    let mut other = txid;
    other[0] = 4;
    let mut t = ProbeTally::new();
    let reply = response(other);
    record_stun_reply(&mut t, Some(&reply), txid, 5_000);
    assert_eq!(t.sent(), 1);
    assert_eq!(t.received(), 0);
    let good = response(txid);
    record_stun_reply(&mut t, Some(&good), txid, 5_000);
    record_stun_reply(&mut t, None, txid, 5_000);
    assert_eq!(t.sent(), 3);
    assert_eq!(t.received(), 1);
}

#[test]
fn transactions_carry_their_id() {
    let a = StunTransaction::new();
    let b = StunTransaction::new();
    assert_eq!(&a.request[8..20], &a.txid);
    assert_eq!(&a.request[0..2], &[0x00, 0x01]);
    assert_ne!(a.txid, b.txid);
}

#[test]
fn loss_probe_summary() {
    let mut p = StunLossProbe::new("stun:example.net:3478".to_string());
    let mut n = 0;
    while p.has_next() {
        let txid = [n as u8; 12];
        if n % 5 == 0 {
            p.record(None, txid, 0);
        } else {
            let r = response(txid);
            p.record(Some(&r), txid, 20_000 + n);
        }
        n += 1;
    }
    assert_eq!(n, 50);
    let s = p.summary();
    assert_eq!(s.target.as_deref(), Some("stun:example.net:3478"));
    assert_eq!(s.latency.sent, 50);
    assert_eq!(s.latency.received, 40);
    assert_eq!(s.latency.loss_ppm, 200_000);
}

fn turn(urls: &[&str]) -> TurnInfo {
    TurnInfo { urls: urls.iter().map(|u| u.to_string()).collect(), username: None, credential: None }
}

#[test]
fn stun_urls_are_preferred() {
    let t = turn(&["turn:a.example:3478?transport=udp", "stun:b.example:3478", "stun:c.example"]);
    assert_eq!(pick_stun_target(&t).as_deref(), Some("stun:b.example:3478"));
    let t = turn(&["https://x", "turn:a.example:3478?transport=udp"]);
    assert_eq!(pick_stun_target(&t).as_deref(), Some("turn:a.example:3478?transport=udp"));
    let t = turn(&["https://x"]);
    assert_eq!(pick_stun_target(&t), None);
    assert_eq!(pick_stun_target(&turn(&[])), None);
}

#[test]
fn host_and_port_of_urls() {
    assert_eq!(parse_host_port("stun:stun.cloudflare.com:3478"), Ok(("stun.cloudflare.com".to_string(), 3478)));
    assert_eq!(parse_host_port("stun:stun.example.org"), Ok(("stun.example.org".to_string(), 3478)));
    assert_eq!(parse_host_port("turn:turn.example.org:5349?transport=udp"), Ok(("turn.example.org".to_string(), 5349)));
    assert_eq!(parse_host_port("turn:t.example?transport=udp"), Ok(("t.example".to_string(), 3478)));
    assert_eq!(parse_host_port("stun:h:+80"), Ok(("h".to_string(), 80)));
}

#[test]
fn bad_urls_are_rejected() {
    assert_eq!(parse_host_port("no-scheme-here"), Err(StunUrlError::MissingScheme));
    assert_eq!(parse_host_port("stun::3478"), Err(StunUrlError::EmptyHost));
    assert_eq!(parse_host_port("stun:"), Err(StunUrlError::EmptyHost));
    assert_eq!(parse_host_port("stun:host:abc"), Err(StunUrlError::InvalidPort));
    assert_eq!(parse_host_port("stun:host:70000"), Err(StunUrlError::InvalidPort));
    assert_eq!(parse_host_port("stun:host:"), Ok(("host".to_string(), 3478)));
}
