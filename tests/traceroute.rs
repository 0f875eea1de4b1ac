use netspeed::model::TracerouteHop;
use netspeed::text::split_whitespace;
use netspeed::trace_output::{is_header, parse_hop_line, parse_traceroute_output, system_trace_completed};
use netspeed::traceroute::{ProbeOutcome, TracerouteWalk};

fn reply(from: &str, icmp_type: u8, rtt_us: u64) -> ProbeOutcome {
    ProbeOutcome::Reply { from: from.to_string(), icmp_type: Some(icmp_type), rtt_us }
}

fn run_walk(walk: &mut TracerouteWalk, answer: impl Fn(u8, u8) -> ProbeOutcome) -> Vec<TracerouteHop> {
    let mut events = Vec::new();
    while let Some((ttl, seq)) = walk.next_probe() {
        assert_eq!(seq >> 8, ttl as u16);
        if let Some(hop) = walk.on_outcome(answer(ttl, (seq & 0xff) as u8)) {
            events.push(hop);
        }
    }
    events
}

#[test]
fn destination_three_hops_away() {
    let mut w = TracerouteWalk::new("203.0.113.9".to_string(), 30);
    let events = run_walk(&mut w, |ttl, probe| match ttl {
        1 => reply("192.168.1.1", 11, 1_000 + probe as u64),
        2 => reply("10.0.0.1", 11, 5_000),
        _ => reply("203.0.113.9", 0, 9_000),
    });
    assert_eq!(events.len(), 3);
    let s = w.summary();
    assert!(s.completed);
    assert_eq!(s.hops.len(), 3);
    assert_eq!(s.destination, "203.0.113.9");
    assert_eq!(s.hops[0].ip_address.as_deref(), Some("192.168.1.1"));
    assert_eq!(s.hops[0].rtt_us, vec![1_000, 1_001, 1_002]);
    assert_eq!(s.hops[2].hop_number, 3);
    assert!(!s.hops[2].timeout);
}

#[test]
fn silent_hop_is_a_timeout() {
    let mut w = TracerouteWalk::new("203.0.113.9".to_string(), 30);
    let events = run_walk(&mut w, |ttl, _| match ttl {
        1 => reply("192.168.1.1", 11, 1_000),
        2 => ProbeOutcome::Timeout,
        _ => reply("203.0.113.9", 0, 9_000),
    });
    assert_eq!(events.len(), 3);
    assert!(events[1].timeout);
    assert!(events[1].rtt_us.is_empty());
    assert_eq!(events[1].ip_address, None);
    assert!(events.iter().all(|h| h.hostname.is_none()));
    assert_eq!(events[2].hop_number, 3);
    assert!(w.summary().completed);
}

#[test]
fn walk_stops_at_max_hops() {
    let mut w = TracerouteWalk::new("198.51.100.1".to_string(), 4);
    let events = run_walk(&mut w, |_, _| ProbeOutcome::Timeout);
    assert_eq!(events.len(), 4);
    assert!(!w.summary().completed);
    assert!(w.is_finished());
}

#[test]
fn echo_reply_from_elsewhere_completes() {
    let mut w = TracerouteWalk::new("198.51.100.1".to_string(), 10);
    let events = run_walk(&mut w, |ttl, _| if ttl == 2 { reply("198.51.100.200", 0, 3_000) } else { reply("192.0.2.1", 11, 800) });
    assert_eq!(events.len(), 2);
    assert!(w.summary().completed);
}

#[test]
fn partial_answers_are_no_timeout() {
    let mut w = TracerouteWalk::new("198.51.100.1".to_string(), 1);
    let events = run_walk(&mut w, |_, probe| if probe == 1 { reply("192.0.2.1", 11, 700) } else { ProbeOutcome::Timeout });
    assert_eq!(events.len(), 1);
    assert!(!events[0].timeout);
    assert_eq!(events[0].rtt_us, vec![700]);
}

#[test]
fn zero_max_hops_sends_nothing() {
    let w = TracerouteWalk::new("198.51.100.1".to_string(), 0);
    assert_eq!(w.next_probe(), None);
}

#[test]
fn linux_hop_line() {
    let h = parse_hop_line(" 1  192.168.1.1  0.123 ms  0.456 ms  0.789 ms").unwrap();
    assert_eq!(h.hop_number, 1);
    assert_eq!(h.ip_address.as_deref(), Some("192.168.1.1"));
    assert_eq!(h.rtt_us, vec![123, 456, 789]);
    assert!(!h.timeout);
    assert_eq!(h.hostname, None);
}

#[test]
fn windows_hop_line() {
    let h = parse_hop_line("  1    <1 ms    <1 ms    <1 ms  192.168.1.1").unwrap();
    assert_eq!(h.rtt_us, vec![1_000, 1_000, 1_000]);
    assert_eq!(h.ip_address.as_deref(), Some("192.168.1.1"));
    assert_eq!(h.hostname, None);
    let h = parse_hop_line("  4    12 ms    11ms    13 ms  2001:db8::1").unwrap();
    assert_eq!(h.rtt_us, vec![12_000, 11_000, 13_000]);
    assert_eq!(h.ip_address.as_deref(), Some("2001:db8::1"));
}

#[test]
fn timeout_hop_line() {
    let h = parse_hop_line(" 2  * * *").unwrap();
    assert_eq!(h.hop_number, 2);
    assert!(h.timeout);
    assert!(h.rtt_us.is_empty());
    assert_eq!(h.ip_address, None);
    assert_eq!(h.hostname, None);
}

#[test]
fn lines_that_are_no_hops() {
    assert!(parse_hop_line("").is_none());
    assert!(parse_hop_line("traceroute to 1.1.1.1 (1.1.1.1), 30 hops max").is_none());
    assert!(parse_hop_line("300  10.0.0.1  1.0 ms").is_none());
    assert!(parse_hop_line("5  foo bar").is_none());
}

#[test]
fn header_lines() {
    assert!(is_header("traceroute to example.com (93.184.216.34), 30 hops max, 60 byte packets"));
    assert!(is_header("Tracing route to example.com [93.184.216.34]"));
    assert!(is_header("over a maximum of 30 hops max"));
    assert!(!is_header(" 1  192.168.1.1  0.5 ms"));
}

#[test]
fn whole_output() {
    let out = "traceroute to 1.1.1.1 (1.1.1.1), 30 hops max, 60 byte packets\n 1  192.168.1.1  0.5 ms  0.4 ms  0.6 ms\n 2  * * *\n\n 3  1.1.1.1  9.1 ms  9.0 ms  9.2 ms\n";
    let hops = parse_traceroute_output(out);
    assert_eq!(hops.len(), 3);
    assert_eq!(hops[0].rtt_us, vec![500, 400, 600]);
    assert!(hops[1].timeout);
    assert_eq!(hops[2].ip_address.as_deref(), Some("1.1.1.1"));
    assert!(system_trace_completed(&hops, &"1.1.1.1".to_string()));
    assert!(!system_trace_completed(&hops, &"8.8.8.8".to_string()));
    assert!(!system_trace_completed(&Vec::new(), &"1.1.1.1".to_string()));
}

#[test]
fn whitespace_tokens() {
    let t = split_whitespace("  a\tbb \n ccc  ");
    assert_eq!(t, vec!["a".to_string(), "bb".to_string(), "ccc".to_string()]);
    assert!(split_whitespace("   ").is_empty());
}
